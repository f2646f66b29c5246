use listing_core::biodata::pagination_statements;
use listing_core::query::{
    build_listing_statements, fragment_for, Filter, MatchMode, Sort,
};

fn filter(id: &str, value: &str, mode: MatchMode) -> Filter {
    Filter { id: id.to_string(), value: value.to_string(), match_mode: mode }
}

#[test]
fn fragments_per_match_mode() {
    assert_eq!(fragment_for(&filter("fullname", "ann", MatchMode::Contains)), "fullname LIKE '%ann%'");
    assert_eq!(fragment_for(&filter("fullname", "ann", MatchMode::StartsWith)), "fullname LIKE 'ann%'");
    assert_eq!(fragment_for(&filter("fullname", "ann", MatchMode::EndsWith)), "fullname LIKE '%ann'");
    assert_eq!(fragment_for(&filter("fullname", "ann", MatchMode::Equals)), "fullname = 'ann'");
    assert_eq!(fragment_for(&filter("fullname", "ann", MatchMode::NotEquals)), "fullname <> 'ann'");
    assert_eq!(fragment_for(&filter("id", "5", MatchMode::LessThan)), "id < '5'");
    assert_eq!(fragment_for(&filter("id", "5", MatchMode::GreaterThan)), "id > '5'");
    assert_eq!(fragment_for(&filter("id", "5", MatchMode::Between)), "");
}

#[test]
fn fragments_are_sanitized() {
    assert_eq!(
        fragment_for(&filter("fullname", "a'b; --", MatchMode::Contains)),
        "fullname LIKE '%ab --%'"
    );
    assert_eq!(
        fragment_for(&filter("full'name", "x", MatchMode::Equals)),
        "fullname = 'x'"
    );
}

#[test]
fn no_filters_and_no_search_build_no_where_clause() {
    let (data, count) = pagination_statements(&Vec::new(), &Vec::new(), "", 0, 5);
    assert_eq!(data, "SELECT * FROM m_biodata LIMIT 5 OFFSET 0");
    assert_eq!(count, "SELECT COUNT(*) AS count FROM m_biodata");
}

#[test]
fn between_filter_contributes_no_predicate() {
    let filters = vec![filter("fullname", "ann", MatchMode::Between)];
    let (data, count) = pagination_statements(&filters, &Vec::new(), "", 0, 5);
    let (data_none, count_none) = pagination_statements(&Vec::new(), &Vec::new(), "", 0, 5);
    assert_eq!(data, data_none);
    assert_eq!(count, count_none);
}

#[test]
fn between_among_other_filters_is_skipped() {
    let filters = vec![
        filter("fullname", "ann", MatchMode::Contains),
        filter("id", "3", MatchMode::Between),
        filter("id", "9", MatchMode::LessThan),
    ];
    let (data, count) = pagination_statements(&filters, &Vec::new(), "", 0, 5);
    assert_eq!(
        data,
        "SELECT * FROM m_biodata WHERE fullname LIKE '%ann%' AND id < '9' LIMIT 5 OFFSET 0"
    );
    assert_eq!(
        count,
        "SELECT COUNT(*) AS count FROM m_biodata WHERE fullname LIKE '%ann%' AND id < '9'"
    );
}

#[test]
fn search_supplies_the_where_keyword() {
    let filters = vec![filter("id", "4", MatchMode::Equals)];
    let (data, count) = pagination_statements(&filters, &Vec::new(), "ann", 0, 5);
    assert_eq!(
        data,
        "SELECT * FROM m_biodata WHERE fullname LIKE '%ann%' AND id = '4' LIMIT 5 OFFSET 0"
    );
    assert_eq!(
        count,
        "SELECT COUNT(*) AS count FROM m_biodata WHERE fullname LIKE '%ann%' AND id = '4'"
    );
}

#[test]
fn search_alone_builds_its_predicate() {
    let (data, count) = pagination_statements(&Vec::new(), &Vec::new(), "ann", 1, 3);
    assert_eq!(data, "SELECT * FROM m_biodata WHERE fullname LIKE '%ann%' LIMIT 3 OFFSET 3");
    assert_eq!(count, "SELECT COUNT(*) AS count FROM m_biodata WHERE fullname LIKE '%ann%'");
}

#[test]
fn search_term_is_sanitized() {
    let (data, _) = pagination_statements(&Vec::new(), &Vec::new(), "an'n; --", 0, 5);
    assert_eq!(data, "SELECT * FROM m_biodata WHERE fullname LIKE '%ann --%' LIMIT 5 OFFSET 0");
}

#[test]
fn search_that_sanitizes_to_empty_is_no_search() {
    let (data, count) = pagination_statements(&Vec::new(), &Vec::new(), "';%", 0, 5);
    assert_eq!(data, "SELECT * FROM m_biodata LIMIT 5 OFFSET 0");
    assert_eq!(count, "SELECT COUNT(*) AS count FROM m_biodata");
}

#[test]
fn only_the_first_sort_is_honored() {
    let sorts = vec![
        Sort { id: "id".to_string(), desc: true },
        Sort { id: "fullname".to_string(), desc: false },
    ];
    let (data, _) = pagination_statements(&Vec::new(), &sorts, "", 0, 5);
    assert_eq!(data, "SELECT * FROM m_biodata ORDER BY id DESC LIMIT 5 OFFSET 0");
}

#[test]
fn ascending_sort_spells_asc() {
    let sorts = vec![Sort { id: "fullname".to_string(), desc: false }];
    let (data, _) = pagination_statements(&Vec::new(), &sorts, "", 0, 5);
    assert_eq!(data, "SELECT * FROM m_biodata ORDER BY fullname ASC LIMIT 5 OFFSET 0");
}

#[test]
fn count_never_carries_order_or_window() {
    let sorts = vec![Sort { id: "id".to_string(), desc: true }];
    let (_, count) = pagination_statements(&Vec::new(), &sorts, "ann", 3, 7);
    assert_eq!(count, "SELECT COUNT(*) AS count FROM m_biodata WHERE fullname LIKE '%ann%'");
}

#[test]
fn unknown_filter_column_is_ignored() {
    let filters = vec![
        filter("password", "x", MatchMode::Equals),
        filter("fullname", "ann", MatchMode::Contains),
    ];
    let (data, _) = pagination_statements(&filters, &Vec::new(), "", 0, 5);
    assert_eq!(data, "SELECT * FROM m_biodata WHERE fullname LIKE '%ann%' LIMIT 5 OFFSET 0");
}

#[test]
fn unknown_sort_column_is_ignored() {
    let sorts = vec![
        Sort { id: "secret".to_string(), desc: true },
        Sort { id: "id".to_string(), desc: false },
    ];
    let (data, _) = pagination_statements(&Vec::new(), &sorts, "", 0, 5);
    assert_eq!(data, "SELECT * FROM m_biodata ORDER BY id ASC LIMIT 5 OFFSET 0");
}

#[test]
fn data_and_count_share_the_where_fragment() {
    let filters = vec![
        filter("fullname", "ann", MatchMode::Contains),
        filter("id", "9", MatchMode::LessThan),
    ];
    let sorts = vec![Sort { id: "id".to_string(), desc: true }];
    let (data, count) = pagination_statements(&filters, &sorts, "bob", 2, 10);
    let data_where = {
        let start = data.find("WHERE").expect("data statement has a WHERE clause");
        let end = data.find(" ORDER BY").expect("data statement has an ORDER BY clause");
        &data[start..end]
    };
    let count_where = {
        let start = count.find("WHERE").expect("count statement has a WHERE clause");
        &count[start..]
    };
    assert_eq!(data_where, count_where);
}

#[test]
fn generic_builder_takes_any_table_and_search_column() {
    let filters = vec![filter("question", "why", MatchMode::StartsWith)];
    let sorts: Vec<Sort> = Vec::new();
    let (data, count) =
        build_listing_statements("m_question", "question", &filters, &sorts, "", 0, 2);
    assert_eq!(data, "SELECT * FROM m_question WHERE question LIKE 'why%' LIMIT 2 OFFSET 0");
    assert_eq!(count, "SELECT COUNT(*) AS count FROM m_question WHERE question LIKE 'why%'");
}

#[test]
fn offset_is_size_times_page() {
    let (data, _) = pagination_statements(&Vec::new(), &Vec::new(), "", 4, 25);
    assert_eq!(data, "SELECT * FROM m_biodata LIMIT 25 OFFSET 100");
}

#[test]
fn match_mode_tokens_parse() {
    assert_eq!(MatchMode::parse("CONTAINS"), Some(MatchMode::Contains));
    assert_eq!(MatchMode::parse("STARTS_WITH"), Some(MatchMode::StartsWith));
    assert_eq!(MatchMode::parse("ENDS_WITH"), Some(MatchMode::EndsWith));
    assert_eq!(MatchMode::parse("EQUALS"), Some(MatchMode::Equals));
    assert_eq!(MatchMode::parse("NOT_EQUALS"), Some(MatchMode::NotEquals));
    assert_eq!(MatchMode::parse("LESS_THAN"), Some(MatchMode::LessThan));
    assert_eq!(MatchMode::parse("GREATER_THAN"), Some(MatchMode::GreaterThan));
    assert_eq!(MatchMode::parse("BETWEEN"), Some(MatchMode::Between));
    assert_eq!(MatchMode::parse("LIKE"), None);
    assert_eq!(MatchMode::parse(""), None);
}
