use listing_core::sanitize::cleanse_string;

#[test]
fn keeps_the_safe_subset() {
    assert_eq!(cleanse_string("Annisa Putri 07"), "Annisa Putri 07");
    assert_eq!(cleanse_string("a_b-c.d@e"), "a_b-c.d@e");
}

#[test]
fn drops_quotes_and_sql_punctuation() {
    assert_eq!(cleanse_string("O'Brien; DROP TABLE--"), "OBrien DROP TABLE--");
    assert_eq!(cleanse_string("%' OR '1'='1"), " OR 11");
    assert_eq!(cleanse_string("\"; --"), " --");
}

#[test]
fn empty_input_stays_empty() {
    assert_eq!(cleanse_string(""), "");
}

#[test]
fn all_disallowed_gives_empty() {
    assert_eq!(cleanse_string("';%$#!?*()"), "");
}

#[test]
fn cleanse_is_idempotent_on_samples() {
    let samples = [
        "",
        "plain",
        "O'Brien; DROP TABLE--",
        "%' OR '1'='1",
        "a_b-c.d@e",
        "tab\tand\nnewline",
        "unicode \u{00e9}\u{4e16}\u{754c}",
    ];
    for s in samples {
        let once = cleanse_string(s);
        let twice = cleanse_string(&once);
        assert_eq!(twice, once);
    }
}

#[test]
fn cleanse_never_leaves_a_quote() {
    let samples = ["it's", "''", "a\"b'c", "don''t"];
    for s in samples {
        let out = cleanse_string(s);
        assert!(!out.contains('\''));
        assert!(!out.contains('"'));
    }
}
