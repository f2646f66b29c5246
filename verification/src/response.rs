//! Response envelopes and the service error type.
//!
//! Timestamps are carried as whole seconds since the Unix epoch; the layer
//! that speaks HTTP renders them. A listing failure surfaces to the client
//! as a generic text while the detailed message stays server-side.

use vstd::prelude::*;
use vstd::string::*;

verus! {

/// The success envelope of every handler.
#[derive(Clone, Debug)]
pub struct AppResponse<T> {
    pub status: String,
    pub message: String,
    pub timestamp: i64,
    pub data: T,
}

/// The error envelope of every handler.
#[derive(Clone, Debug)]
pub struct AppResponseError<T> {
    pub status: String,
    pub message: String,
    pub timestamp: i64,
    pub error: T,
}

/// Everything a handler can fail with. A failed validation carries its
/// field/message pairs; `Other` carries a detailed server-side message such
/// as a statement failure.
#[derive(Clone, Debug)]
pub enum AppError {
    InvalidRequest(Vec<(String, String)>),
    DataExist,
    NotFound,
    InternalServerError,
    Other(String),
}

/// The HTTP status an error maps to.
pub open spec fn spec_status_code(e: AppError) -> u16 {
    match e {
        AppError::InvalidRequest(_) => 400,
        AppError::DataExist => 400,
        AppError::NotFound => 404,
        AppError::InternalServerError => 500,
        AppError::Other(_) => 500,
    }
}

impl AppError {
    /// The HTTP status of this error: bad request for a rejected input or a
    /// duplicate, not found for a missing resource, internal error for the
    /// rest.
    pub fn status_code(&self) -> (r: u16)
        ensures
            r == spec_status_code(*self),
    {
        match self {
            AppError::InvalidRequest(_) => 400,
            AppError::DataExist => 400,
            AppError::NotFound => 404,
            AppError::InternalServerError => 500,
            AppError::Other(_) => 500,
        }
    }

    /// The client-visible error text of the string-bodied variants. A
    /// failed validation reports its field/message pairs instead, so it has
    /// no single text here.
    pub fn error_text(&self) -> (r: Option<String>)
        ensures
            match *self {
                AppError::InvalidRequest(_) => r is None,
                AppError::DataExist => r matches Some(t) && t@ == "resource exist"@,
                AppError::NotFound => r matches Some(t) && t@ == "resource not found"@,
                AppError::InternalServerError => r matches Some(t) && t@
                    == "internal server error"@,
                AppError::Other(m) => r matches Some(t) && t@ == m@,
            },
    {
        match self {
            AppError::InvalidRequest(_) => None,
            AppError::DataExist => Some(String::from_str("resource exist")),
            AppError::NotFound => Some(String::from_str("resource not found")),
            AppError::InternalServerError => Some(String::from_str("internal server error")),
            AppError::Other(m) => Some(m.clone()),
        }
    }
}

/// Where the first line break stands in a text, or the text's length when
/// it has none.
pub open spec fn spec_first_nl(s: Seq<char>) -> int
    decreases s.len(),
{
    if s.len() == 0 {
        0
    } else if s[0] == '\n' {
        0
    } else {
        1 + spec_first_nl(s.drop_first())
    }
}

/// A scan that stops at the first line break agrees with `spec_first_nl`.
proof fn lemma_first_nl_is(s: Seq<char>, k: int)
    requires
        0 <= k <= s.len(),
        forall|j: int| 0 <= j < k ==> s[j] != '\n',
        k < s.len() ==> s[k] == '\n',
    ensures
        spec_first_nl(s) == k,
    decreases s.len(),
{
    if s.len() > 0 && k > 0 {
        lemma_first_nl_is(s.drop_first(), k - 1);
    }
}

/// A line with its trailing carriage return, if any, dropped.
pub open spec fn spec_strip_cr(l: Seq<char>) -> Seq<char> {
    if l.len() > 0 && l.last() == '\r' {
        l.drop_last()
    } else {
        l
    }
}

/// The lines of a text: split at every line break, each line stripped of a
/// trailing carriage return, and no empty line after a final break.
pub open spec fn spec_lines(s: Seq<char>) -> Seq<Seq<char>>
    decreases s.len(),
{
    if s.len() == 0 {
        Seq::empty()
    } else {
        let k = spec_first_nl(s);
        if 0 <= k < s.len() {
            seq![spec_strip_cr(s.take(k))] + spec_lines(s.skip(k + 1))
        } else {
            seq![spec_strip_cr(s)]
        }
    }
}

/// Where the first `": "` separator starts in a line, or the line's length
/// when it has none.
pub open spec fn spec_first_sep(s: Seq<char>) -> int
    decreases s.len(),
{
    if s.len() < 2 {
        s.len() as int
    } else if s[0] == ':' && s[1] == ' ' {
        0
    } else {
        1 + spec_first_sep(s.drop_first())
    }
}

/// `spec_first_sep` finds the first separator: everything before it starts
/// no separator, and only a separator-free line reaches its own length.
proof fn lemma_first_sep_bounds(s: Seq<char>)
    ensures
        0 <= spec_first_sep(s) <= s.len(),
        forall|j: int| 0 <= j < spec_first_sep(s) && j + 1 < s.len() ==> !((#[trigger] s[j]) == ':'
            && s[j + 1] == ' '),
        spec_first_sep(s) + 1 < s.len() ==> s[spec_first_sep(s)] == ':' && s[spec_first_sep(s) + 1]
            == ' ',
        spec_first_sep(s) < s.len() ==> spec_first_sep(s) + 1 < s.len(),
    decreases s.len(),
{
    if s.len() >= 2 && !(s[0] == ':' && s[1] == ' ') {
        let t = s.drop_first();
        lemma_first_sep_bounds(t);
        let f = spec_first_sep(s);
        assert forall|j: int| 0 <= j < f && j + 1 < s.len() implies !((#[trigger] s[j]) == ':'
            && s[j + 1] == ' ') by {
            if j > 0 {
                assert(t[j - 1] == s[j]);
                assert(t[j] == s[j + 1]);
            }
        }
        if f + 1 < s.len() {
            assert(t[f - 1] == s[f]);
            assert(t[f] == s[f + 1]);
        }
    }
}

/// A scan that stops at the first separator agrees with `spec_first_sep`.
proof fn lemma_first_sep_is(s: Seq<char>, k: int)
    requires
        0 <= k <= s.len(),
        forall|j: int| 0 <= j < k && j + 1 < s.len() ==> !((#[trigger] s[j]) == ':' && s[j + 1]
            == ' '),
        k + 1 < s.len() ==> s[k] == ':' && s[k + 1] == ' ',
        k < s.len() ==> k + 1 < s.len(),
    ensures
        spec_first_sep(s) == k,
    decreases s.len(),
{
    if s.len() >= 2 && k > 0 {
        assert(!(s[0] == ':' && s[1] == ' '));
        lemma_first_sep_is(s.drop_first(), k - 1);
    }
}

/// The field a line of a validation report names: what stands before the
/// first `": "`.
pub open spec fn spec_line_field(l: Seq<char>) -> Seq<char> {
    l.take(spec_first_sep(l))
}

/// The message a line of a validation report carries: what stands between
/// the first `": "` and the next one, or the rest of the line.
pub open spec fn spec_line_message(l: Seq<char>) -> Seq<char> {
    let rest = l.skip(spec_first_sep(l) + 2);
    if spec_first_sep(rest) < rest.len() {
        rest.take(spec_first_sep(rest))
    } else {
        rest
    }
}

/// Where a key first stands in a field/message list, or the list's length
/// when it is absent.
pub open spec fn spec_key_index(m: Seq<(Seq<char>, Seq<char>)>, k: Seq<char>) -> int
    decreases m.len(),
{
    if m.len() == 0 {
        0
    } else if m[0].0 == k {
        0
    } else {
        1 + spec_key_index(m.drop_first(), k)
    }
}

/// A scan that stops at the first entry of a key agrees with
/// `spec_key_index`.
proof fn lemma_key_index_is(m: Seq<(Seq<char>, Seq<char>)>, k: Seq<char>, i: int)
    requires
        0 <= i <= m.len(),
        forall|j: int| 0 <= j < i ==> (#[trigger] m[j]).0 != k,
        i < m.len() ==> m[i].0 == k,
    ensures
        spec_key_index(m, k) == i,
    decreases m.len(),
{
    if m.len() > 0 && i > 0 {
        lemma_key_index_is(m.drop_first(), k, i - 1);
    }
}

/// Writing one pair into a field/message list: a present key keeps its
/// place and gets the new message, an absent one is appended.
pub open spec fn spec_upsert(
    m: Seq<(Seq<char>, Seq<char>)>,
    k: Seq<char>,
    v: Seq<char>,
) -> Seq<(Seq<char>, Seq<char>)> {
    if spec_key_index(m, k) < m.len() {
        m.update(spec_key_index(m, k), (k, v))
    } else {
        m.push((k, v))
    }
}

/// The field/message pairs of a validation report: one entry per line, a
/// repeated field keeping its place with the later message.
pub open spec fn spec_error_entries(lines: Seq<Seq<char>>) -> Seq<(Seq<char>, Seq<char>)>
    decreases lines.len(),
{
    if lines.len() == 0 {
        Seq::empty()
    } else {
        spec_upsert(
            spec_error_entries(lines.drop_last()),
            spec_line_field(lines.last()),
            spec_line_message(lines.last()),
        )
    }
}

/// Writes one pair into the field/message list.
fn upsert_entry(map: &mut Vec<(String, String)>, key: String, value: String)
    ensures
        final(map).deep_view() == spec_upsert(old(map).deep_view(), key@, value@),
{
    let ghost m = map.deep_view();
    let mut i: usize = 0;
    while i < map.len()
        invariant
            i <= map@.len(),
            m == map.deep_view(),
            m == old(map).deep_view(),
            map@.len() == m.len(),
            forall|j: int| 0 <= j < i ==> (#[trigger] m[j]).0 != key@,
        decreases map@.len() - i,
    {
        let hit = map[i].0.eq(&key);
        proof {
            assert(m[i as int] == (map@[i as int].0@, map@[i as int].1@));
        }
        if hit {
            proof {
                lemma_key_index_is(m, key@, i as int);
            }
            let _ = map.remove(i);
            map.insert(i, (key, value));
            proof {
                assert(spec_key_index(m, key@) == i as int);
                assert(map.deep_view() =~= m.update(i as int, (key@, value@)));
            }
            return ;
        }
        i = i + 1;
    }
    proof {
        lemma_key_index_is(m, key@, m.len() as int);
    }
    map.push((key, value));
    proof {
        assert(map@[m.len() as int].deep_view() == (key@, value@));
        assert(map.deep_view() =~= m.push((key@, value@)));
    }
}

/// Splits a text into its lines, as `spec_lines` says.
fn split_lines(s: &str) -> (r: Vec<String>)
    ensures
        r.deep_view() == spec_lines(s@),
{
    let n = s.unicode_len();
    let mut lines: Vec<String> = Vec::new();
    let mut p: usize = 0;
    proof {
        assert(s@.skip(0) =~= s@);
    }
    while p < n
        invariant
            p <= n,
            n == s@.len(),
            lines.deep_view() + spec_lines(s@.skip(p as int)) == spec_lines(s@),
        decreases n - p,
    {
        let ghost rest = s@.skip(p as int);
        let ghost done = lines.deep_view();
        let mut q: usize = p;
        while q < n && s.get_char(q) != '\n'
            invariant
                p <= q <= n,
                n == s@.len(),
                forall|j: int| p <= j < q ==> s@[j] != '\n',
            decreases n - q,
        {
            q = q + 1;
        }
        proof {
            assert forall|j: int| 0 <= j < q - p implies rest[j] != '\n' by {
                assert(rest[j] == s@[p + j]);
            }
            if q < n {
                assert(rest[q - p] == s@[q as int]);
            }
            lemma_first_nl_is(rest, q - p);
        }
        let end: usize = if q > p && s.get_char(q - 1) == '\r' {
            q - 1
        } else {
            q
        };
        let line = s.substring_char(p, end);
        lines.push(line.to_owned());
        proof {
            assert(lines.deep_view() =~= done.push(s@.subrange(p as int, end as int)));
            assert(rest.take(q - p) =~= s@.subrange(p as int, q as int));
            assert(spec_strip_cr(rest.take(q - p)) =~= s@.subrange(p as int, end as int));
        }
        if q < n {
            proof {
                assert(rest.skip(q - p + 1) =~= s@.skip(q as int + 1));
                assert(spec_lines(rest) == seq![spec_strip_cr(rest.take(q - p))] + spec_lines(
                    s@.skip(q as int + 1),
                ));
                assert(lines.deep_view() + spec_lines(s@.skip(q as int + 1)) =~= spec_lines(s@));
            }
            p = q + 1;
        } else {
            proof {
                assert(rest.take(q - p) =~= rest);
                assert(spec_lines(rest) == seq![spec_strip_cr(rest)]);
                assert(s@.skip(n as int) =~= Seq::<char>::empty());
                assert(lines.deep_view() + spec_lines(s@.skip(n as int)) =~= spec_lines(s@));
            }
            p = n;
        }
    }
    proof {
        assert(s@.skip(n as int) =~= Seq::<char>::empty());
        assert(lines.deep_view() =~= spec_lines(s@));
    }
    lines
}

/// The field and the message of one report line.
fn split_line(l: &String) -> (r: (String, String))
    requires
        spec_first_sep(l@) < l@.len(),
    ensures
        r.0@ == spec_line_field(l@),
        r.1@ == spec_line_message(l@),
{
    let s = l.as_str();
    let n = s.unicode_len();
    let mut k: usize = 0;
    while n - k > 1 && !(s.get_char(k) == ':' && s.get_char(k + 1) == ' ')
        invariant
            k <= n,
            n == l@.len(),
            n == s@.len(),
            s@ == l@,
            forall|j: int| 0 <= j < k && j + 1 < n ==> !((#[trigger] l@[j]) == ':' && l@[j + 1]
                == ' '),
        decreases n - k,
    {
        k = k + 1;
    }
    proof {
        lemma_first_sep_bounds(l@);
        if k + 1 < n {
            lemma_first_sep_is(l@, k as int);
        } else {
            if spec_first_sep(l@) < k {
                assert(spec_first_sep(l@) + 1 < n);
                assert(false);
            }
            assert(spec_first_sep(l@) >= k && spec_first_sep(l@) < n);
            assert(spec_first_sep(l@) + 1 < n);
            assert(spec_first_sep(l@) == k);
        }
    }
    let field = s.substring_char(0, k).to_owned();
    proof {
        assert(field@ =~= spec_line_field(l@));
    }
    let rest = s.substring_char(k + 2, n);
    let rn = rest.unicode_len();
    let mut t: usize = 0;
    while rn - t > 1 && !(rest.get_char(t) == ':' && rest.get_char(t + 1) == ' ')
        invariant
            t <= rn,
            rn == rest@.len(),
            rest@ == l@.skip(spec_first_sep(l@) + 2),
            forall|j: int| 0 <= j < t && j + 1 < rn ==> !((#[trigger] rest@[j]) == ':'
                && rest@[j + 1] == ' '),
        decreases rn - t,
    {
        t = t + 1;
    }
    let ghost rv = rest@;
    proof {
        lemma_first_sep_bounds(rv);
        if t + 1 < rn {
            lemma_first_sep_is(rv, t as int);
        } else {
            if spec_first_sep(rv) < t {
                assert(spec_first_sep(rv) + 1 < rn);
                assert(false);
            }
            if spec_first_sep(rv) < rv.len() {
                assert(spec_first_sep(rv) + 1 < rn);
                assert(spec_first_sep(rv) == t);
            }
        }
    }
    let message = if t + 1 < rn {
        rest.substring_char(0, t).to_owned()
    } else {
        rest.to_owned()
    };
    proof {
        if t + 1 < rn {
            assert(message@ =~= spec_line_message(l@));
        } else {
            assert(spec_first_sep(rv) >= rv.len());
            assert(message@ =~= spec_line_message(l@));
        }
    }
    (field, message)
}

/// Turns a rendered validation report, one `field: message` line per
/// finding, into field/message pairs; a repeated field keeps its first
/// place and the later message. Every line must carry a `": "` separator.
pub fn parse_validation_error_message(error_message: &str) -> (r: Vec<(String, String)>)
    requires
        forall|i: int|
            0 <= i < spec_lines(error_message@).len() ==> spec_first_sep(
                #[trigger] spec_lines(error_message@)[i],
            ) < spec_lines(error_message@)[i].len(),
    ensures
        r.deep_view() == spec_error_entries(spec_lines(error_message@)),
{
    let lines = split_lines(error_message);
    let ghost lv = spec_lines(error_message@);
    let mut map: Vec<(String, String)> = Vec::new();
    let mut i: usize = 0;
    proof {
        assert(lv.subrange(0, 0) =~= Seq::<Seq<char>>::empty());
    }
    while i < lines.len()
        invariant
            i <= lines@.len(),
            lines.deep_view() == lv,
            lines@.len() == lv.len(),
            forall|j: int| 0 <= j < lv.len() ==> spec_first_sep(#[trigger] lv[j]) < lv[j].len(),
            map.deep_view() == spec_error_entries(lv.subrange(0, i as int)),
        decreases lines@.len() - i,
    {
        proof {
            assert(lines@[i as int]@ == lv[i as int]);
            assert(lv.subrange(0, i as int + 1).drop_last() =~= lv.subrange(0, i as int));
            assert(lv.subrange(0, i as int + 1).last() == lv[i as int]);
        }
        let (field, message) = split_line(&lines[i]);
        upsert_entry(&mut map, field, message);
        i = i + 1;
    }
    proof {
        assert(lv.subrange(0, lv.len() as int) =~= lv);
    }
    map
}

/// The outcome of a write statement: a row had to be touched for the write
/// to count as done.
pub fn write_outcome(rows_affected: usize) -> (r: Option<()>)
    ensures
        r is Some <==> rows_affected > 0,
{
    if rows_affected > 0 {
        Some(())
    } else {
        None
    }
}

} // verus!
