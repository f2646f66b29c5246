//! Identifier and value sanitizer for SQL text built by interpolation.
//!
//! Every field name, filter value, sort column and search term that reaches
//! the query builder goes through [`cleanse_string`] first. Sanitizing never
//! fails: a character outside the safe subset is simply dropped, leaving a
//! possibly empty but syntactically safe fragment.

use vstd::prelude::*;
use vstd::string::*;

verus! {

/// The safe subset: ASCII letters, digits, underscore, space, and the small
/// punctuation set (`-`, `.`, `@`) that legitimate values need. Quotes,
/// percent signs, semicolons and everything else are outside it.
pub open spec fn allowed_char(c: char) -> bool {
    ||| ('a' <= c && c <= 'z')
    ||| ('A' <= c && c <= 'Z')
    ||| ('0' <= c && c <= '9')
    ||| c == '_'
    ||| c == ' '
    ||| c == '-'
    ||| c == '.'
    ||| c == '@'
}

/// What [`cleanse_string`] returns: the input with every character outside
/// the safe subset dropped, in order.
pub open spec fn cleanse_seq(s: Seq<char>) -> Seq<char>
    decreases s.len(),
{
    if s.len() == 0 {
        Seq::empty()
    } else if allowed_char(s.last()) {
        cleanse_seq(s.drop_last()).push(s.last())
    } else {
        cleanse_seq(s.drop_last())
    }
}

/// Runtime test for membership in the safe subset.
pub fn allowed(c: char) -> (r: bool)
    ensures
        r == allowed_char(c),
{
    ('a' <= c && c <= 'z') || ('A' <= c && c <= 'Z') || ('0' <= c && c <= '9') || c == '_'
        || c == ' ' || c == '-' || c == '.' || c == '@'
}

/// Drops every character outside the safe subset. Never raises an error.
pub fn cleanse_string(s: &str) -> (r: String)
    ensures
        r@ == cleanse_seq(s@),
{
    let n = s.unicode_len();
    let mut out = String::new();
    let mut i: usize = 0;
    while i < n
        invariant
            n == s@.len(),
            i <= n,
            out@ == cleanse_seq(s@.subrange(0, i as int)),
        decreases n - i,
    {
        let c = s.get_char(i);
        if allowed(c) {
            let piece = s.substring_char(i, i + 1);
            out.append(piece);
        }
        proof {
            let pre = s@.subrange(0, (i + 1) as int);
            assert(pre.drop_last() =~= s@.subrange(0, i as int));
            assert(pre.last() == s@[i as int]);
            if allowed_char(s@[i as int]) {
                assert(cleanse_seq(s@.subrange(0, i as int)) + s@.subrange(i as int, (i + 1) as int)
                    =~= cleanse_seq(pre));
            }
        }
        i = i + 1;
    }
    proof {
        assert(s@.subrange(0, n as int) =~= s@);
    }
    out
}

/// Every character that survives cleansing is in the safe subset.
pub proof fn lemma_cleanse_all_allowed(s: Seq<char>)
    ensures
        forall|i: int| 0 <= i < cleanse_seq(s).len() ==> allowed_char(#[trigger] cleanse_seq(s)[i]),
    decreases s.len(),
{
    if s.len() > 0 {
        let rest = cleanse_seq(s.drop_last());
        lemma_cleanse_all_allowed(s.drop_last());
        if allowed_char(s.last()) {
            assert forall|i: int| 0 <= i < cleanse_seq(s).len() implies allowed_char(
                #[trigger] cleanse_seq(s)[i],
            ) by {
                if i < rest.len() {
                    assert(cleanse_seq(s)[i] == rest[i]);
                } else {
                    assert(cleanse_seq(s)[i] == s.last());
                }
            }
        }
    }
}

/// On input already inside the safe subset, cleansing changes nothing.
pub proof fn lemma_cleanse_fixed_point(s: Seq<char>)
    requires
        forall|i: int| 0 <= i < s.len() ==> allowed_char(#[trigger] s[i]),
    ensures
        cleanse_seq(s) == s,
    decreases s.len(),
{
    if s.len() == 0 {
        assert(cleanse_seq(s) =~= s);
    } else {
        lemma_cleanse_fixed_point(s.drop_last());
        assert(cleanse_seq(s) =~= s);
    }
}

/// The sanitizer is idempotent: cleansing a cleansed string is a no-op.
pub proof fn lemma_cleanse_idempotent(s: Seq<char>)
    ensures
        cleanse_seq(cleanse_seq(s)) == cleanse_seq(s),
{
    lemma_cleanse_all_allowed(s);
    lemma_cleanse_fixed_point(cleanse_seq(s));
}

/// A cleansed string holds no quote of either kind, so interpolating it
/// between quotes can never leave a quote unterminated.
pub proof fn lemma_cleanse_no_quote(s: Seq<char>)
    ensures
        forall|i: int| 0 <= i < cleanse_seq(s).len() ==> #[trigger] cleanse_seq(s)[i] != '\''
            && cleanse_seq(s)[i] != '"',
{
    lemma_cleanse_all_allowed(s);
}

} // verus!
