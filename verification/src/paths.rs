//! Deriving a file name and an extension from a path string.
//!
//! Paths are plain strings with `/` as separator. The name of a path is
//! everything after its last separator; the extension is everything
//! after the last dot of the name, provided that dot is not its first
//! character.

use vstd::prelude::*;

verus! {

/// The index of the last occurrence of `c` in `s`, or `-1`.
pub open spec fn last_index_of(s: Seq<char>, c: char) -> int
    decreases s.len(),
{
    if s.len() == 0 {
        -1
    } else if s.last() == c {
        s.len() - 1
    } else {
        last_index_of(s.drop_last(), c)
    }
}

/// `last_index_of` finds the last occurrence: nothing equal to `c` lies
/// after it, and it is `-1` exactly when `c` does not occur.
pub proof fn lemma_last_index_of(s: Seq<char>, c: char)
    ensures
        -1 <= last_index_of(s, c) < s.len(),
        last_index_of(s, c) >= 0 ==> s[last_index_of(s, c)] == c,
        forall|j: int| last_index_of(s, c) < j < s.len() ==> s[j] != c,
    decreases s.len(),
{
    if s.len() > 0 && s.last() != c {
        lemma_last_index_of(s.drop_last(), c);
        assert(forall|j: int| 0 <= j < s.len() - 1 ==> s[j] == s.drop_last()[j]);
    }
}

/// The file name of a path: everything after the last separator.
pub open spec fn spec_file_name(p: Seq<char>) -> Seq<char> {
    p.subrange(last_index_of(p, '/') + 1, p.len() as int)
}

/// The extension of a file name: everything after the last dot, if that
/// dot is preceded by at least one character; otherwise empty.
pub open spec fn spec_extension(n: Seq<char>) -> Seq<char> {
    let k = last_index_of(n, '.');
    if k >= 1 {
        n.subrange(k + 1, n.len() as int)
    } else {
        Seq::empty()
    }
}

/// The index of the last occurrence of `c` in `s`, or `None`.
fn find_last(s: &str, c: char) -> (r: Option<usize>)
    ensures
        r matches Some(k) ==> k == last_index_of(s@, c),
        r is None ==> last_index_of(s@, c) == -1,
{
    let len = s.unicode_len();
    let mut j = len;
    while j > 0
        invariant
            len == s@.len(),
            0 <= j <= len,
            forall|m: int| j <= m < len ==> s@[m] != c,
        decreases j,
    {
        if s.get_char(j - 1) == c {
            proof {
                lemma_last_index_of_from_witness(s@, c, j - 1);
            }
            return Some(j - 1);
        }
        j -= 1;
    }
    proof {
        lemma_last_index_of(s@, c);
    }
    None
}

/// If `s[k] == c` and nothing equal to `c` follows, then `k` is the last
/// occurrence.
proof fn lemma_last_index_of_from_witness(s: Seq<char>, c: char, k: int)
    requires
        0 <= k < s.len(),
        s[k] == c,
        forall|j: int| k < j < s.len() ==> s[j] != c,
    ensures
        last_index_of(s, c) == k,
    decreases s.len(),
{
    if s.last() != c {
        lemma_last_index_of_from_witness(s.drop_last(), c, k);
    }
}

/// The file name of a path: everything after the last `/`.
pub fn file_name_of(p: &str) -> (r: String)
    ensures
        r@ == spec_file_name(p@),
{
    let len = p.unicode_len();
    proof {
        lemma_last_index_of(p@, '/');
    }
    match find_last(p, '/') {
        Some(k) => p.substring_char(k + 1, len).to_owned(),
        None => p.substring_char(0, len).to_owned(),
    }
}

/// The extension of a file name: everything after its last dot, empty
/// when there is no dot or the name starts with its only dot.
pub fn extension_of(n: &str) -> (r: String)
    ensures
        r@ == spec_extension(n@),
{
    let len = n.unicode_len();
    proof {
        lemma_last_index_of(n@, '.');
    }
    match find_last(n, '.') {
        Some(k) => {
            if k >= 1 {
                n.substring_char(k + 1, len).to_owned()
            } else {
                String::new()
            }
        },
        None => String::new(),
    }
}

} // verus!
