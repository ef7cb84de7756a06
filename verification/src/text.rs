//! Case folding and substring search over character sequences.
//!
//! Unicode lowercasing is delegated to the standard library behind one
//! trusted wrapper; everything built on top of it (equality and substring
//! tests up to case) is verified.

use vstd::prelude::*;

verus! {

/// The sequence of characters that `str::to_lowercase` produces for `s`.
/// The result of that function depends on its argument alone.
pub uninterp spec fn lower_of(s: Seq<char>) -> Seq<char>;

/// Relies on `str::to_lowercase`: the Unicode lowercase form of a string,
/// a pure function of the characters of its argument.
#[verifier::external_body]
pub(crate) fn lowercase(s: &str) -> (r: String)
    ensures
        r@ == lower_of(s@),
{
    s.to_lowercase()
}

/// `n` occurs in `h` starting at position `i`.
pub open spec fn occurs_at(h: Seq<char>, n: Seq<char>, i: int) -> bool {
    0 <= i && i + n.len() <= h.len() && h.subrange(i, i + n.len()) == n
}

/// `n` is a contiguous substring of `h`.
pub open spec fn seq_contains(h: Seq<char>, n: Seq<char>) -> bool {
    exists|i: int| occurs_at(h, n, i)
}

/// `a` and `b` are equal after Unicode lowercasing.
pub open spec fn eq_ignore_case(a: Seq<char>, b: Seq<char>) -> bool {
    lower_of(a) == lower_of(b)
}

/// `n` is a substring of `h` after Unicode lowercasing of both.
pub open spec fn contains_ignore_case(h: Seq<char>, n: Seq<char>) -> bool {
    seq_contains(lower_of(h), lower_of(n))
}

/// String equality on the character level.
pub fn str_eq(a: &str, b: &str) -> (r: bool)
    ensures
        r == (a@ == b@),
{
    let sa: String = a.to_owned();
    let sb: String = b.to_owned();
    sa == sb
}

/// Does `n` occur in `h` at position `i`?
fn matches_at(h: &str, n: &str, i: usize) -> (r: bool)
    requires
        i + n@.len() <= h@.len(),
        h@.len() <= usize::MAX,
    ensures
        r == occurs_at(h@, n@, i as int),
{
    let n_len = n.unicode_len();
    let mut j: usize = 0;
    while j < n_len
        invariant
            n_len == n@.len(),
            0 <= j <= n_len,
            i + n_len <= h@.len(),
            h@.len() <= usize::MAX,
            forall|k: int| 0 <= k < j ==> h@[i + k] == n@[k],
        decreases n_len - j,
    {
        if h.get_char(i + j) != n.get_char(j) {
            assert(h@.subrange(i as int, i + n@.len())[j as int] != n@[j as int]);
            return false;
        }
        j += 1;
    }
    assert(h@.subrange(i as int, i + n@.len()) =~= n@);
    true
}

/// Substring search: does `n` occur anywhere in `h`?
pub fn str_contains(h: &str, n: &str) -> (r: bool)
    ensures
        r == seq_contains(h@, n@),
{
    let h_len = h.unicode_len();
    let n_len = n.unicode_len();
    if n_len > h_len {
        assert(forall|i: int| !occurs_at(h@, n@, i));
        return false;
    }
    let bound = h_len - n_len;
    let mut i: usize = 0;
    loop
        invariant
            h_len == h@.len(),
            n_len == n@.len(),
            n_len <= h_len,
            bound == h_len - n_len,
            0 <= i <= bound,
            forall|k: int| 0 <= k < i ==> !occurs_at(h@, n@, k),
        decreases bound - i,
    {
        if matches_at(h, n, i) {
            return true;
        }
        if i == bound {
            assert(forall|k: int| occurs_at(h@, n@, k) ==> 0 <= k <= h@.len() - n@.len());
            return false;
        }
        i += 1;
    }
}

/// Equality up to Unicode case.
pub fn eq_ci(a: &str, b: &str) -> (r: bool)
    ensures
        r == eq_ignore_case(a@, b@),
{
    let la = lowercase(a);
    let lb = lowercase(b);
    str_eq(la.as_str(), lb.as_str())
}

/// Substring test up to Unicode case.
pub fn contains_ci(h: &str, n: &str) -> (r: bool)
    ensures
        r == contains_ignore_case(h@, n@),
{
    let lh = lowercase(h);
    let ln = lowercase(n);
    str_contains(lh.as_str(), ln.as_str())
}

} // verus!
