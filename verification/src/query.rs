//! The dynamic listing query builder.
//!
//! It compiles an ordered filter list, an optional free-text search term, a
//! single honored sort and page/size parameters into two SQL statements: a
//! data statement with `LIMIT`/`OFFSET` and a count statement, both built
//! over one shared `WHERE` fragment. Every user-supplied identifier and
//! value is sanitized before it is interpolated.

use vstd::prelude::*;
use vstd::string::*;

use crate::numfmt::{spec_dec, u64_to_dec};
use crate::sanitize::{cleanse_seq, cleanse_string};

verus! {

/// The comparison family a filter applies to its value. `Between` is
/// recognized but compiles to no predicate at all.
#[derive(Clone, Copy, Debug, PartialEq, Eq, Structural)]
pub enum MatchMode {
    Contains,
    StartsWith,
    EndsWith,
    Equals,
    NotEquals,
    LessThan,
    GreaterThan,
    Between,
}

/// One per-field filter of a listing request: a column name, a comparison
/// operand and the match mode that combines them.
#[derive(Clone, Debug)]
pub struct Filter {
    pub id: String,
    pub value: String,
    pub match_mode: MatchMode,
}

/// One sort request. Only the first sort of a listing request is honored.
#[derive(Clone, Debug)]
pub struct Sort {
    pub id: String,
    pub desc: bool,
}

/// Character-for-character equality of two string slices.
pub fn str_eq(a: &str, b: &str) -> (r: bool)
    ensures
        r == (a@ == b@),
{
    String::from_str(a).eq(&String::from_str(b))
}

/// The match mode a serialized token names, or nothing for a malformed
/// token: an unknown mode is a validation error, not a clamp.
pub open spec fn spec_parse_match_mode(t: Seq<char>) -> Option<MatchMode> {
    if t == "CONTAINS"@ {
        Some(MatchMode::Contains)
    } else if t == "STARTS_WITH"@ {
        Some(MatchMode::StartsWith)
    } else if t == "ENDS_WITH"@ {
        Some(MatchMode::EndsWith)
    } else if t == "EQUALS"@ {
        Some(MatchMode::Equals)
    } else if t == "NOT_EQUALS"@ {
        Some(MatchMode::NotEquals)
    } else if t == "LESS_THAN"@ {
        Some(MatchMode::LessThan)
    } else if t == "GREATER_THAN"@ {
        Some(MatchMode::GreaterThan)
    } else if t == "BETWEEN"@ {
        Some(MatchMode::Between)
    } else {
        None
    }
}

impl MatchMode {
    /// Parses the serialized token of a match mode.
    pub fn parse(token: &str) -> (r: Option<MatchMode>)
        ensures
            r == spec_parse_match_mode(token@),
    {
        if str_eq(token, "CONTAINS") {
            Some(MatchMode::Contains)
        } else if str_eq(token, "STARTS_WITH") {
            Some(MatchMode::StartsWith)
        } else if str_eq(token, "ENDS_WITH") {
            Some(MatchMode::EndsWith)
        } else if str_eq(token, "EQUALS") {
            Some(MatchMode::Equals)
        } else if str_eq(token, "NOT_EQUALS") {
            Some(MatchMode::NotEquals)
        } else if str_eq(token, "LESS_THAN") {
            Some(MatchMode::LessThan)
        } else if str_eq(token, "GREATER_THAN") {
            Some(MatchMode::GreaterThan)
        } else if str_eq(token, "BETWEEN") {
            Some(MatchMode::Between)
        } else {
            None
        }
    }
}

/// The predicate fragment one filter compiles to, over the already
/// sanitized column name and operand. `Between` emits nothing.
pub open spec fn spec_fragment(id: Seq<char>, value: Seq<char>, m: MatchMode) -> Seq<char> {
    match m {
        MatchMode::Contains => id + " LIKE '%"@ + value + "%'"@,
        MatchMode::StartsWith => id + " LIKE '"@ + value + "%'"@,
        MatchMode::EndsWith => id + " LIKE '%"@ + value + "'"@,
        MatchMode::Equals => id + " = '"@ + value + "'"@,
        MatchMode::NotEquals => id + " <> '"@ + value + "'"@,
        MatchMode::LessThan => id + " < '"@ + value + "'"@,
        MatchMode::GreaterThan => id + " > '"@ + value + "'"@,
        MatchMode::Between => Seq::empty(),
    }
}

/// The fragment of a filter after sanitizing its column name and operand.
pub open spec fn filter_fragment(f: Filter) -> Seq<char> {
    spec_fragment(cleanse_seq(f.id@), cleanse_seq(f.value@), f.match_mode)
}

/// Whether a match mode contributes a predicate.
pub open spec fn emits(m: MatchMode) -> bool {
    !(m is Between)
}

/// Whether any filter of the list contributes a predicate.
pub open spec fn any_emits(fs: Seq<Filter>) -> bool {
    exists|i: int| 0 <= i < fs.len() && emits(#[trigger] fs[i].match_mode)
}

/// The emitted fragments of the list, in order, joined with ` AND `.
pub open spec fn spec_joined(fs: Seq<Filter>) -> Seq<char>
    decreases fs.len(),
{
    if fs.len() == 0 {
        Seq::empty()
    } else {
        let rest = spec_joined(fs.drop_last());
        let f = fs.last();
        if !emits(f.match_mode) {
            rest
        } else if !any_emits(fs.drop_last()) {
            filter_fragment(f)
        } else {
            rest + " AND "@ + filter_fragment(f)
        }
    }
}

/// A list with no emitting filter joins to the empty fragment.
pub proof fn lemma_joined_empty(fs: Seq<Filter>)
    requires
        !any_emits(fs),
    ensures
        spec_joined(fs) == Seq::<char>::empty(),
    decreases fs.len(),
{
    if fs.len() > 0 {
        assert(!any_emits(fs.drop_last())) by {
            if any_emits(fs.drop_last()) {
                let i = choose|i: int|
                    0 <= i < fs.drop_last().len() && emits(#[trigger] fs.drop_last()[i].match_mode);
                assert(fs[i].match_mode == fs.drop_last()[i].match_mode);
            }
        }
        assert(emits(fs.last().match_mode) ==> any_emits(fs)) by {
            if emits(fs.last().match_mode) {
                assert(emits(fs[fs.len() - 1].match_mode));
            }
        }
        lemma_joined_empty(fs.drop_last());
    }
}

/// Extending the list by one filter extends `any_emits` in the obvious way.
pub proof fn lemma_any_emits_push(fs: Seq<Filter>, f: Filter)
    ensures
        any_emits(fs.push(f)) == (any_emits(fs) || emits(f.match_mode)),
{
    let ext = fs.push(f);
    if emits(f.match_mode) {
        assert(emits(ext[fs.len() as int].match_mode));
    }
    if any_emits(fs) {
        let i = choose|i: int| 0 <= i < fs.len() && emits(#[trigger] fs[i].match_mode);
        assert(emits(ext[i].match_mode));
    }
    if any_emits(ext) && !emits(f.match_mode) {
        let i = choose|i: int| 0 <= i < ext.len() && emits(#[trigger] ext[i].match_mode);
        assert(i < fs.len());
        assert(emits(fs[i].match_mode));
    }
}

/// Compiles one filter to its predicate fragment.
pub fn fragment_for(f: &Filter) -> (r: String)
    ensures
        r@ == filter_fragment(*f),
{
    let id = cleanse_string(f.id.as_str());
    let value = cleanse_string(f.value.as_str());
    let mut out = id;
    match f.match_mode {
        MatchMode::Contains => {
            out.append(" LIKE '%");
            out.append(value.as_str());
            out.append("%'");
        },
        MatchMode::StartsWith => {
            out.append(" LIKE '");
            out.append(value.as_str());
            out.append("%'");
        },
        MatchMode::EndsWith => {
            out.append(" LIKE '%");
            out.append(value.as_str());
            out.append("'");
        },
        MatchMode::Equals => {
            out.append(" = '");
            out.append(value.as_str());
            out.append("'");
        },
        MatchMode::NotEquals => {
            out.append(" <> '");
            out.append(value.as_str());
            out.append("'");
        },
        MatchMode::LessThan => {
            out.append(" < '");
            out.append(value.as_str());
            out.append("'");
        },
        MatchMode::GreaterThan => {
            out.append(" > '");
            out.append(value.as_str());
            out.append("'");
        },
        MatchMode::Between => {
            out = String::new();
        },
    }
    out
}

/// Compiles the whole filter list: the joined fragment text and whether any
/// filter emitted a predicate.
pub fn joined_fragments(filters: &Vec<Filter>) -> (r: (String, bool))
    ensures
        r.0@ == spec_joined(filters@),
        r.1 == any_emits(filters@),
{
    let mut out = String::new();
    let mut emitted = false;
    let mut k: usize = 0;
    proof {
        assert(filters@.subrange(0, 0) =~= Seq::<Filter>::empty());
    }
    while k < filters.len()
        invariant
            k <= filters@.len(),
            out@ == spec_joined(filters@.subrange(0, k as int)),
            emitted == any_emits(filters@.subrange(0, k as int)),
        decreases filters@.len() - k,
    {
        let ghost pre = filters@.subrange(0, k as int);
        let ghost ext = filters@.subrange(0, k as int + 1);
        proof {
            assert(ext =~= pre.push(filters@[k as int]));
            assert(ext.drop_last() =~= pre);
            lemma_any_emits_push(pre, filters@[k as int]);
        }
        let f = &filters[k];
        if !(f.match_mode == MatchMode::Between) {
            let frag = fragment_for(f);
            if emitted {
                out.append(" AND ");
                out.append(frag.as_str());
            } else {
                proof {
                    lemma_joined_empty(pre);
                }
                out.append(frag.as_str());
                proof {
                    assert(out@ =~= filter_fragment(filters@[k as int]));
                }
            }
            emitted = true;
        }
        k = k + 1;
    }
    proof {
        assert(filters@.subrange(0, filters@.len() as int) =~= filters@);
    }
    (out, emitted)
}

/// The search predicate over the fixed searchable column, `WHERE` keyword
/// included; the term is sanitized before interpolation.
pub open spec fn spec_search_predicate(search_col: Seq<char>, term: Seq<char>) -> Seq<char> {
    "WHERE "@ + search_col + " LIKE '%"@ + cleanse_seq(term) + "%'"@
}

/// Whether the request produces a `WHERE` clause at all.
pub open spec fn has_where(fs: Seq<Filter>, term: Seq<char>) -> bool {
    cleanse_seq(term).len() > 0 || any_emits(fs)
}

/// The whole `WHERE` clause: the search predicate supplies the keyword when
/// a term is present and filter fragments are appended with ` AND `;
/// without a term the first filter fragment supplies the keyword; with
/// neither, the clause is empty.
pub open spec fn spec_where_clause(fs: Seq<Filter>, search_col: Seq<char>, term: Seq<char>)
    -> Seq<char> {
    if cleanse_seq(term).len() > 0 {
        if any_emits(fs) {
            spec_search_predicate(search_col, term) + " AND "@ + spec_joined(fs)
        } else {
            spec_search_predicate(search_col, term)
        }
    } else if any_emits(fs) {
        "WHERE "@ + spec_joined(fs)
    } else {
        Seq::empty()
    }
}

/// Builds the `WHERE` clause and reports whether one is present.
pub fn where_clause(filters: &Vec<Filter>, search_col: &str, term: &str) -> (r: (String, bool))
    ensures
        r.0@ == spec_where_clause(filters@, search_col@, term@),
        r.1 == has_where(filters@, term@),
{
    let cterm = cleanse_string(term);
    let (joined, emitted) = joined_fragments(filters);
    let mut out = String::new();
    let mut present = false;
    if !cterm.as_str().is_empty() {
        out.append("WHERE ");
        out.append(search_col);
        out.append(" LIKE '%");
        out.append(cterm.as_str());
        out.append("%'");
        if emitted {
            out.append(" AND ");
            out.append(joined.as_str());
        }
        present = true;
    } else if emitted {
        out.append("WHERE ");
        out.append(joined.as_str());
        present = true;
    }
    proof {
        assert(out@ =~= spec_where_clause(filters@, search_col@, term@));
    }
    (out, present)
}

/// The `ORDER BY` clause of the first sort, if any: later sorts are
/// silently ignored. Without a sort the clause is empty and the result
/// order is storage-defined.
pub open spec fn spec_order_clause(sorts: Seq<Sort>) -> Seq<char> {
    if sorts.len() == 0 {
        Seq::empty()
    } else {
        "ORDER BY "@ + cleanse_seq(sorts[0].id@) + (if sorts[0].desc {
            " DESC"@
        } else {
            " ASC"@
        })
    }
}

/// Builds the `ORDER BY` clause.
pub fn order_clause(sorts: &Vec<Sort>) -> (r: String)
    ensures
        r@ == spec_order_clause(sorts@),
{
    if sorts.len() == 0 {
        String::new()
    } else {
        let first = &sorts[0];
        let mut out = String::from_str("ORDER BY ");
        let id = cleanse_string(first.id.as_str());
        out.append(id.as_str());
        if first.desc {
            out.append(" DESC");
        } else {
            out.append(" ASC");
        }
        out
    }
}

/// The `WHERE` part as it stands inside a statement: a separating space and
/// the clause, or nothing. Both statements are defined over this one
/// function, so they share the fragment by construction.
pub open spec fn spec_where_part(fs: Seq<Filter>, search_col: Seq<char>, term: Seq<char>)
    -> Seq<char> {
    if has_where(fs, term) {
        " "@ + spec_where_clause(fs, search_col, term)
    } else {
        Seq::empty()
    }
}

/// The data statement: selection, shared `WHERE` part, `ORDER BY` part,
/// and the page window as `LIMIT`/`OFFSET`.
pub open spec fn spec_data_statement(
    table: Seq<char>,
    search_col: Seq<char>,
    fs: Seq<Filter>,
    sorts: Seq<Sort>,
    term: Seq<char>,
    page: int,
    size: int,
) -> Seq<char> {
    "SELECT * FROM "@ + table + spec_where_part(fs, search_col, term) + (if sorts.len() > 0 {
        " "@ + spec_order_clause(sorts)
    } else {
        Seq::empty()
    }) + " LIMIT "@ + spec_dec(size) + " OFFSET "@ + spec_dec(size * page)
}

/// The count statement: same table, same `WHERE` part, no ordering and no
/// page window, so the count ignores sort and pagination.
pub open spec fn spec_count_statement(
    table: Seq<char>,
    search_col: Seq<char>,
    fs: Seq<Filter>,
    term: Seq<char>,
) -> Seq<char> {
    "SELECT COUNT(*) AS count FROM "@ + table + spec_where_part(fs, search_col, term)
}

/// Builds the data and count statements of one listing request.
///
/// `page` and `size` must already be clamped (`page >= 0`, `size >= 1`);
/// the offset `size * page` must fit the integer type.
pub fn build_listing_statements(
    table: &str,
    search_col: &str,
    filters: &Vec<Filter>,
    sorts: &Vec<Sort>,
    term: &str,
    page: i64,
    size: i64,
) -> (r: (String, String))
    requires
        0 <= page,
        1 <= size,
        size as int * page as int <= i64::MAX,
    ensures
        r.0@ == spec_data_statement(
            table@,
            search_col@,
            filters@,
            sorts@,
            term@,
            page as int,
            size as int,
        ),
        r.1@ == spec_count_statement(table@, search_col@, filters@, term@),
{
    let (wc, has_w) = where_clause(filters, search_col, term);
    let mut data = String::from_str("SELECT * FROM ");
    data.append(table);
    let mut count = String::from_str("SELECT COUNT(*) AS count FROM ");
    count.append(table);
    if has_w {
        data.append(" ");
        data.append(wc.as_str());
        count.append(" ");
        count.append(wc.as_str());
    }
    if sorts.len() > 0 {
        let oc = order_clause(sorts);
        data.append(" ");
        data.append(oc.as_str());
    }
    proof {
        assert(0 <= size as int * page as int) by (nonlinear_arith)
            requires
                1 <= size && 0 <= page,
        ;
    }
    let offset: i64 = size * page;
    data.append(" LIMIT ");
    let size_text = u64_to_dec(size as u64);
    data.append(size_text.as_str());
    data.append(" OFFSET ");
    let offset_text = u64_to_dec(offset as u64);
    data.append(offset_text.as_str());
    proof {
        assert(data@ =~= spec_data_statement(
            table@,
            search_col@,
            filters@,
            sorts@,
            term@,
            page as int,
            size as int,
        ));
        assert(count@ =~= spec_count_statement(table@, search_col@, filters@, term@));
    }
    (data, count)
}

/// Whether an identifier names a column of the allow-list.
pub open spec fn known_column(cols: Seq<Seq<char>>, id: Seq<char>) -> bool {
    exists|i: int| 0 <= i < cols.len() && #[trigger] cols[i] == id
}

/// Runtime membership test against the column allow-list.
pub fn is_known_column(cols: &Vec<String>, id: &String) -> (r: bool)
    ensures
        r == known_column(cols.deep_view(), id@),
{
    let mut k: usize = 0;
    while k < cols.len()
        invariant
            k <= cols@.len(),
            forall|i: int| 0 <= i < k ==> #[trigger] cols.deep_view()[i] != id@,
        decreases cols@.len() - k,
    {
        if cols[k].eq(id) {
            proof {
                assert(cols.deep_view()[k as int] == id@);
            }
            return true;
        }
        k = k + 1;
    }
    false
}

/// The filters whose column name stands in the allow-list, in order.
pub open spec fn spec_retained_filters(fs: Seq<Filter>, cols: Seq<Seq<char>>) -> Seq<Filter>
    decreases fs.len(),
{
    if fs.len() == 0 {
        Seq::empty()
    } else {
        let rest = spec_retained_filters(fs.drop_last(), cols);
        if known_column(cols, fs.last().id@) {
            rest.push(fs.last())
        } else {
            rest
        }
    }
}

/// The sorts whose column name stands in the allow-list, in order.
pub open spec fn spec_retained_sorts(ss: Seq<Sort>, cols: Seq<Seq<char>>) -> Seq<Sort>
    decreases ss.len(),
{
    if ss.len() == 0 {
        Seq::empty()
    } else {
        let rest = spec_retained_sorts(ss.drop_last(), cols);
        if known_column(cols, ss.last().id@) {
            rest.push(ss.last())
        } else {
            rest
        }
    }
}

/// Copies one filter.
fn clone_filter(f: &Filter) -> (r: Filter)
    ensures
        r == *f,
{
    Filter { id: f.id.clone(), value: f.value.clone(), match_mode: f.match_mode }
}

/// Drops every filter whose column name is not on the allow-list, before
/// anything reaches the clause compiler.
pub fn retain_known_filters(filters: &Vec<Filter>, cols: &Vec<String>) -> (r: Vec<Filter>)
    ensures
        r@ == spec_retained_filters(filters@, cols.deep_view()),
{
    let mut out: Vec<Filter> = Vec::new();
    let mut k: usize = 0;
    proof {
        assert(filters@.subrange(0, 0) =~= Seq::<Filter>::empty());
    }
    while k < filters.len()
        invariant
            k <= filters@.len(),
            out@ == spec_retained_filters(filters@.subrange(0, k as int), cols.deep_view()),
        decreases filters@.len() - k,
    {
        proof {
            assert(filters@.subrange(0, k as int + 1).drop_last() =~= filters@.subrange(
                0,
                k as int,
            ));
        }
        let f = &filters[k];
        if is_known_column(cols, &f.id) {
            out.push(clone_filter(f));
        }
        k = k + 1;
    }
    proof {
        assert(filters@.subrange(0, filters@.len() as int) =~= filters@);
    }
    out
}

/// Drops every sort whose column name is not on the allow-list.
pub fn retain_known_sorts(sorts: &Vec<Sort>, cols: &Vec<String>) -> (r: Vec<Sort>)
    ensures
        r@ == spec_retained_sorts(sorts@, cols.deep_view()),
{
    let mut out: Vec<Sort> = Vec::new();
    let mut k: usize = 0;
    proof {
        assert(sorts@.subrange(0, 0) =~= Seq::<Sort>::empty());
    }
    while k < sorts.len()
        invariant
            k <= sorts@.len(),
            out@ == spec_retained_sorts(sorts@.subrange(0, k as int), cols.deep_view()),
        decreases sorts@.len() - k,
    {
        proof {
            assert(sorts@.subrange(0, k as int + 1).drop_last() =~= sorts@.subrange(0, k as int));
        }
        let s = &sorts[k];
        if is_known_column(cols, &s.id) {
            out.push(Sort { id: s.id.clone(), desc: s.desc });
        }
        k = k + 1;
    }
    proof {
        assert(sorts@.subrange(0, sorts@.len() as int) =~= sorts@);
    }
    out
}

/// With an empty filter list and an empty search term no `WHERE` clause is
/// built: the data statement scans the whole table behind its page window,
/// and the count statement scans the whole table.
pub proof fn lemma_no_where_full_scan(
    table: Seq<char>,
    search_col: Seq<char>,
    sorts: Seq<Sort>,
    term: Seq<char>,
    page: int,
    size: int,
)
    requires
        cleanse_seq(term).len() == 0,
    ensures
        spec_data_statement(table, search_col, Seq::empty(), sorts, term, page, size)
            == "SELECT * FROM "@ + table + (if sorts.len() > 0 {
            " "@ + spec_order_clause(sorts)
        } else {
            Seq::empty()
        }) + " LIMIT "@ + spec_dec(size) + " OFFSET "@ + spec_dec(size * page),
        spec_count_statement(table, search_col, Seq::empty(), term) == "SELECT COUNT(*) AS count FROM "@
            + table,
{
    assert(!any_emits(Seq::<Filter>::empty()));
    assert(spec_where_part(Seq::empty(), search_col, term) == Seq::<char>::empty());
    assert(spec_data_statement(table, search_col, Seq::empty(), sorts, term, page, size)
        =~= "SELECT * FROM "@ + table + (if sorts.len() > 0 {
        " "@ + spec_order_clause(sorts)
    } else {
        Seq::empty()
    }) + " LIMIT "@ + spec_dec(size) + " OFFSET "@ + spec_dec(size * page));
    assert(spec_count_statement(table, search_col, Seq::empty(), term)
        =~= "SELECT COUNT(*) AS count FROM "@ + table);
}

/// A filter in `Between` mode contributes no predicate: inserting one
/// anywhere in the list leaves the joined fragment unchanged.
pub proof fn lemma_between_insert_joined(fs: Seq<Filter>, i: int, f: Filter)
    requires
        0 <= i <= fs.len(),
        f.match_mode is Between,
    ensures
        spec_joined(fs.insert(i, f)) == spec_joined(fs),
        any_emits(fs.insert(i, f)) == any_emits(fs),
    decreases fs.len(),
{
    let ext = fs.insert(i, f);
    if i == fs.len() {
        assert(ext =~= fs.push(f));
        assert(ext.drop_last() =~= fs);
        assert(ext.last() == f);
        lemma_any_emits_push(fs, f);
    } else {
        assert(ext.drop_last() =~= fs.drop_last().insert(i, f));
        assert(ext.last() == fs.last());
        lemma_between_insert_joined(fs.drop_last(), i, f);
        lemma_any_emits_push(fs.drop_last(), fs.last());
        lemma_any_emits_push(ext.drop_last(), ext.last());
        assert(fs.drop_last().push(fs.last()) =~= fs);
        assert(ext.drop_last().push(ext.last()) =~= ext);
    }
}

/// A filter in `Between` mode contributes no predicate: inserting one
/// anywhere in the list leaves the whole `WHERE` clause unchanged.
pub proof fn lemma_between_no_predicate(
    fs: Seq<Filter>,
    i: int,
    f: Filter,
    search_col: Seq<char>,
    term: Seq<char>,
)
    requires
        0 <= i <= fs.len(),
        f.match_mode is Between,
    ensures
        spec_where_clause(fs.insert(i, f), search_col, term) == spec_where_clause(
            fs,
            search_col,
            term,
        ),
{
    lemma_between_insert_joined(fs, i, f);
}

/// The data statement and the count statement built from one filter and
/// search input share the `WHERE` fragment character for character: each is
/// its own selection head followed by the same `WHERE` part (and, for the
/// data statement, the ordering and page window).
pub proof fn lemma_statements_share_predicate(
    table: Seq<char>,
    search_col: Seq<char>,
    fs: Seq<Filter>,
    sorts: Seq<Sort>,
    term: Seq<char>,
    page: int,
    size: int,
)
    ensures
        spec_data_statement(table, search_col, fs, sorts, term, page, size) == "SELECT * FROM "@
            + table + spec_where_part(fs, search_col, term) + (if sorts.len() > 0 {
            " "@ + spec_order_clause(sorts)
        } else {
            Seq::empty()
        }) + " LIMIT "@ + spec_dec(size) + " OFFSET "@ + spec_dec(size * page),
        spec_count_statement(table, search_col, fs, term) == "SELECT COUNT(*) AS count FROM "@
            + table + spec_where_part(fs, search_col, term),
{
}

} // verus!
