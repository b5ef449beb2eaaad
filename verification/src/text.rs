//! Character-level string comparison and substring search, the only text
//! operations the node classifier needs.

use vstd::prelude::*;

verus! {

/// The needle `n` occurs in `h` starting at character position `i`.
pub open spec fn has_substr_at(h: Seq<char>, n: Seq<char>, i: int) -> bool {
    0 <= i && i + n.len() <= h.len() && h.subrange(i, i + n.len() as int) == n
}

/// The needle `n` occurs somewhere in `h`.
pub open spec fn has_substr(h: Seq<char>, n: Seq<char>) -> bool {
    exists|i: int| has_substr_at(h, n, i)
}

/// Character-wise string equality.
pub fn str_eq(a: &str, b: &str) -> (r: bool)
    ensures
        r == (a@ == b@),
{
    let a_len = a.unicode_len();
    let b_len = b.unicode_len();
    if a_len != b_len {
        return false;
    }
    let mut i: usize = 0;
    while i < a_len
        invariant
            a_len == a@.len(),
            b_len == b@.len(),
            a_len == b_len,
            i <= a_len,
            forall|j: int| 0 <= j < i ==> a@[j] == b@[j],
        decreases a_len - i,
    {
        if a.get_char(i) != b.get_char(i) {
            return false;
        }
        i = i + 1;
    }
    proof {
        assert(a@ =~= b@);
    }
    true
}

/// Whether `n` occurs in `h` starting exactly at position `i`.
fn matches_at(h: &str, n: &str, i: usize) -> (r: bool)
    requires
        i + n@.len() <= h@.len(),
    ensures
        r == has_substr_at(h@, n@, i as int),
{
    let h_len = h.unicode_len();
    let n_len = n.unicode_len();
    let mut j: usize = 0;
    while j < n_len
        invariant
            h_len == h@.len(),
            n_len == n@.len(),
            i + n_len <= h@.len(),
            j <= n_len,
            forall|k: int| 0 <= k < j ==> h@[i + k] == n@[k],
        decreases n_len - j,
    {
        if h.get_char(i + j) != n.get_char(j) {
            proof {
                assert(h@.subrange(i as int, i + n@.len() as int)[j as int] != n@[j as int]);
            }
            return false;
        }
        j = j + 1;
    }
    proof {
        assert(h@.subrange(i as int, i + n@.len() as int) =~= n@);
    }
    true
}

/// Substring search: whether the needle `n` occurs anywhere in `h`.
pub fn contains_substr(h: &str, n: &str) -> (r: bool)
    ensures
        r == has_substr(h@, n@),
{
    let h_len = h.unicode_len();
    let n_len = n.unicode_len();
    if n_len > h_len {
        proof {
            assert(forall|i: int| !has_substr_at(h@, n@, i));
        }
        return false;
    }
    let limit = h_len - n_len;
    let mut i: usize = 0;
    loop
        invariant
            h_len == h@.len(),
            n_len == n@.len(),
            n_len <= h_len,
            limit == h_len - n_len,
            i <= limit,
            forall|k: int| 0 <= k < i ==> !has_substr_at(h@, n@, k),
        decreases limit - i,
    {
        if matches_at(h, n, i) {
            return true;
        }
        if i == limit {
            proof {
                assert(forall|k: int| !has_substr_at(h@, n@, k));
            }
            return false;
        }
        i = i + 1;
    }
}

} // verus!
