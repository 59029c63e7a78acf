//! Lexicographic order of texts by code point.

use vstd::prelude::*;

verus! {

/// `a` and `b` agree on their first `k` characters.
pub open spec fn agree_upto(a: Seq<char>, b: Seq<char>, k: int) -> bool {
    forall|i: int| 0 <= i < k ==> a[i] == b[i]
}

/// `a` comes before `b`: at the first position where they differ, `a` has
/// the smaller code point, or `a` is a proper prefix of `b`.
pub open spec fn text_lt(a: Seq<char>, b: Seq<char>) -> bool {
    exists|k: int|
        0 <= k <= a.len() && k <= b.len() && agree_upto(a, b, k) && ((k == a.len() && k
            < b.len()) || (k < a.len() && k < b.len() && (a[k] as u32) < (b[k] as u32)))
}

/// The order is transitive.
pub proof fn lemma_text_lt_transitive(a: Seq<char>, b: Seq<char>, c: Seq<char>)
    requires
        text_lt(a, b),
        text_lt(b, c),
    ensures
        text_lt(a, c),
{
    let k1 = choose|k: int|
        0 <= k <= a.len() && k <= b.len() && agree_upto(a, b, k) && ((k == a.len() && k
            < b.len()) || (k < a.len() && k < b.len() && (a[k] as u32) < (b[k] as u32)));
    let k2 = choose|k: int|
        0 <= k <= b.len() && k <= c.len() && agree_upto(b, c, k) && ((k == b.len() && k
            < c.len()) || (k < b.len() && k < c.len() && (b[k] as u32) < (c[k] as u32)));
    let k = if k1 < k2 { k1 } else { k2 };
    assert(agree_upto(a, c, k));
    if k1 < k2 {
        assert(k1 < b.len());
    } else if k2 < k1 {
        assert(k2 < a.len());
    } else {
    }
}

/// Distinct characters have distinct code points.
proof fn lemma_code_point_injective(x: char, y: char)
    requires
        (x as u32) == (y as u32),
    ensures
        x == y,
{
}

/// Two texts that agree on their first `k` characters are equal or ordered
/// one way or the other.
proof fn lemma_text_lt_total_from(a: Seq<char>, b: Seq<char>, k: int)
    requires
        0 <= k <= a.len(),
        k <= b.len(),
        agree_upto(a, b, k),
    ensures
        a == b || text_lt(a, b) || text_lt(b, a),
    decreases a.len() - k,
{
    if k == a.len() && k == b.len() {
        assert(a =~= b);
    } else if k == a.len() {
        assert(text_lt(a, b));
    } else if k == b.len() {
        assert(agree_upto(b, a, k));
        assert(text_lt(b, a));
    } else if a[k] != b[k] {
        if (a[k] as u32) < (b[k] as u32) {
            assert(text_lt(a, b));
        } else {
            if (a[k] as u32) == (b[k] as u32) {
                lemma_code_point_injective(a[k], b[k]);
            }
            assert((b[k] as u32) < (a[k] as u32));
            assert(agree_upto(b, a, k));
            assert(text_lt(b, a));
        }
    } else {
        lemma_text_lt_total_from(a, b, k + 1);
    }
}

/// Any two texts are equal or ordered one way or the other.
pub proof fn lemma_text_lt_total(a: Seq<char>, b: Seq<char>)
    ensures
        a == b || text_lt(a, b) || text_lt(b, a),
{
    lemma_text_lt_total_from(a, b, 0);
}

/// Whether `a` comes before `b`.
pub fn text_less(a: &str, b: &str) -> (r: bool)
    ensures
        r == text_lt(a@, b@),
{
    let la = a.unicode_len();
    let lb = b.unicode_len();
    let mut i: usize = 0;
    while i < la && i < lb
        invariant
            la == a@.len(),
            lb == b@.len(),
            i <= la,
            i <= lb,
            agree_upto(a@, b@, i as int),
        decreases la - i,
    {
        let ca = a.get_char(i);
        let cb = b.get_char(i);
        if ca != cb {
            let r = (ca as u32) < (cb as u32);
            assert(r ==> text_lt(a@, b@));
            assert(text_lt(a@, b@) ==> r) by {
                if text_lt(a@, b@) {
                    let k = choose|k: int|
                        0 <= k <= a@.len() && k <= b@.len() && agree_upto(a@, b@, k) && ((k
                            == a@.len() && k < b@.len()) || (k < a@.len() && k < b@.len()
                            && (a@[k] as u32) < (b@[k] as u32)));
                    assert(k >= i) by {
                        if k < i {
                            assert(a@[k] == b@[k]);
                        }
                    }
                    if k > i {
                        assert(a@[i as int] == b@[i as int]);
                    }
                }
            }
            return r;
        }
        i = i + 1;
    }
    let r = i == la && i < lb;
    assert(r ==> text_lt(a@, b@));
    assert(text_lt(a@, b@) ==> r) by {
        if text_lt(a@, b@) {
            let k = choose|k: int|
                0 <= k <= a@.len() && k <= b@.len() && agree_upto(a@, b@, k) && ((k == a@.len()
                    && k < b@.len()) || (k < a@.len() && k < b@.len() && (a@[k] as u32) < (
                b@[k] as u32)));
            assert(k <= i);
            if k < i {
                assert(a@[k] == b@[k]);
            }
        }
    }
    r
}

} // verus!
