//! Small verified text utilities: equality and substring search.

use vstd::prelude::*;
use vstd::string::StrSliceExecFns;

verus! {

/// Does `hay` hold `needle` as a contiguous run of characters.
pub open spec fn contains_sub(hay: Seq<char>, needle: Seq<char>) -> bool {
    exists|k: int|
        0 <= k <= hay.len() - needle.len() && #[trigger] hay.subrange(k, k + needle.len())
            == needle
}

/// Are two texts the same sequence of characters.
pub fn str_eq(a: &str, b: &str) -> (r: bool)
    ensures
        r == (a@ == b@),
{
    let na = a.unicode_len();
    let nb = b.unicode_len();
    if na != nb {
        return false;
    }
    let mut i: usize = 0;
    while i < na
        invariant
            i <= na,
            na == a@.len(),
            nb == b@.len(),
            na == nb,
            forall|j: int| 0 <= j < i ==> a@[j] == b@[j],
        decreases na - i,
    {
        if a.get_char(i) != b.get_char(i) {
            return false;
        }
        i += 1;
    }
    proof {
        assert(a@ =~= b@);
    }
    true
}

/// Does `needle` stand in `hay` at position `k`.
fn match_at(hay: &str, needle: &str, k: usize) -> (r: bool)
    requires
        k + needle@.len() <= hay@.len(),
    ensures
        r == (hay@.subrange(k as int, k as int + needle@.len()) == needle@),
{
    let nh = hay.unicode_len();
    let nn = needle.unicode_len();
    let ghost piece = hay@.subrange(k as int, k as int + needle@.len());
    let mut j: usize = 0;
    while j < nn
        invariant
            j <= nn,
            nh == hay@.len(),
            nn == needle@.len(),
            k + nn <= nh,
            piece == hay@.subrange(k as int, k as int + needle@.len()),
            forall|m: int| 0 <= m < j ==> piece[m] == needle@[m],
        decreases nn - j,
    {
        if hay.get_char(k + j) != needle.get_char(j) {
            proof {
                assert(piece[j as int] == hay@[k + j]);
            }
            return false;
        }
        proof {
            assert(piece[j as int] == hay@[k + j]);
        }
        j += 1;
    }
    proof {
        assert(piece =~= needle@);
    }
    true
}

/// Substring search over characters.
pub fn str_contains(hay: &str, needle: &str) -> (r: bool)
    ensures
        r == contains_sub(hay@, needle@),
{
    let nh = hay.unicode_len();
    let nn = needle.unicode_len();
    if nn > nh {
        return false;
    }
    let end: usize = nh - nn;
    let mut k: usize = 0;
    let mut found = false;
    loop
        invariant_except_break
            nh == hay@.len(),
            nn == needle@.len(),
            nn <= nh,
            end == nh - nn,
            k <= end,
            !found,
            forall|m: int|
                0 <= m < k ==> #[trigger] hay@.subrange(m, m + needle@.len()) != needle@,
        ensures
            nn == needle@.len(),
            found == contains_sub(hay@, needle@),
        decreases end - k,
    {
        if match_at(hay, needle, k) {
            found = true;
            proof {
                assert(hay@.subrange(k as int, k as int + needle@.len()) == needle@);
            }
            break;
        }
        if k == end {
            proof {
                assert(forall|m: int|
                    0 <= m <= end ==> #[trigger] hay@.subrange(m, m + needle@.len()) != needle@);
            }
            break;
        }
        k += 1;
    }
    found
}

} // verus!
