//! Case-insensitive substring matching used by directory searches.

use vstd::prelude::*;

verus! {

/// The lower-case form of a text, as `str::to_lowercase` computes it.
pub uninterp spec fn lower_of(s: Seq<char>) -> Seq<char>;

/// Relies on `str::to_lowercase`: the result depends on the characters alone,
/// and the empty text stays empty.
#[verifier::external_body]
fn fold_case(s: &str) -> (r: String)
    ensures
        r@ == lower_of(s@),
        s@.len() == 0 ==> r@.len() == 0,
{
    s.to_lowercase()
}

/// `needle` occurs in `hay` as a contiguous run starting at `i`.
pub open spec fn occurs_at(hay: Seq<char>, needle: Seq<char>, i: int) -> bool {
    0 <= i && i + needle.len() <= hay.len() && hay.subrange(i, i + needle.len()) == needle
}

/// `needle` occurs somewhere in `hay`.
pub open spec fn is_substring(needle: Seq<char>, hay: Seq<char>) -> bool {
    exists|i: int| occurs_at(hay, needle, i)
}

/// `field` contains `pattern` when both are compared in lower case.
pub open spec fn contains_ignoring_case(field: Seq<char>, pattern: Seq<char>) -> bool {
    is_substring(lower_of(pattern), lower_of(field))
}

/// An optional field matches only when present and containing the pattern.
pub open spec fn opt_contains_ignoring_case(field: Option<String>, pattern: Seq<char>) -> bool {
    match field {
        Some(f) => contains_ignoring_case(f@, pattern),
        None => false,
    }
}

fn occurs_at_exec(hay: &str, needle: &str, i: usize) -> (r: bool)
    requires
        i + needle@.len() <= hay@.len(),
    ensures
        r == occurs_at(hay@, needle@, i as int),
{
    let h = hay.unicode_len();
    let n = needle.unicode_len();
    let mut j: usize = 0;
    while j < n
        invariant
            n == needle@.len(),
            h == hay@.len(),
            i + n <= hay@.len(),
            j <= n,
            forall|k: int| 0 <= k < j ==> hay@[i + k] == needle@[k],
        decreases n - j,
    {
        if hay.get_char(i + j) != needle.get_char(j) {
            assert(hay@.subrange(i as int, i + n)[j as int] != needle@[j as int]);
            return false;
        }
        j = j + 1;
    }
    assert(hay@.subrange(i as int, i + n) =~= needle@);
    true
}

/// Whether `needle` occurs in `hay`; both are taken as already folded.
pub fn contains_folded(hay: &str, needle: &str) -> (r: bool)
    ensures
        r == is_substring(needle@, hay@),
{
    let h = hay.unicode_len();
    let n = needle.unicode_len();
    if n > h {
        assert forall|i: int| !occurs_at(hay@, needle@, i) by {}
        return false;
    }
    let last = h - n;
    let mut i: usize = 0;
    loop
        invariant
            h == hay@.len(),
            n == needle@.len(),
            last == h - n,
            i <= last,
            forall|k: int| 0 <= k < i ==> !occurs_at(hay@, needle@, k),
        decreases last - i,
    {
        if occurs_at_exec(hay, needle, i) {
            return true;
        }
        if i == last {
            assert forall|k: int| !occurs_at(hay@, needle@, k) by {
                if 0 <= k < i {
                }
            }
            return false;
        }
        i = i + 1;
    }
}

/// Whether `field` contains `pattern`, ignoring case.
pub fn field_matches(field: &str, pattern: &str) -> (r: bool)
    ensures
        r == contains_ignoring_case(field@, pattern@),
{
    let f = fold_case(field);
    let p = fold_case(pattern);
    contains_folded(f.as_str(), p.as_str())
}

/// Whether an optional `field` is present and contains `pattern`, ignoring case.
pub fn opt_field_matches(field: &Option<String>, pattern: &str) -> (r: bool)
    ensures
        r == opt_contains_ignoring_case(*field, pattern@),
{
    match field {
        Some(f) => field_matches(f.as_str(), pattern),
        None => false,
    }
}

} // verus!
