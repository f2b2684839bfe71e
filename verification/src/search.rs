use crate::encoding::byte_offset;
use crate::encoding::lemma_byte_offset_bound;
use crate::encoding::lemma_byte_offset_step;
use crate::text::byte_len;
use crate::text::char_utf8_len;
use crate::text::chars_vec;
use vstd::prelude::*;

verus! {

/// The needle `n` occurs in the haystack `h` starting at code-point index
/// `k`.
pub open spec fn match_at(h: Seq<char>, n: Seq<char>, k: int) -> bool {
    0 <= k && k + n.len() <= h.len() && h.subrange(k, k + n.len() as int) == n
}

/// The needle's first occurrence in the haystack starts at code-point index
/// `k`: it matches there and nowhere earlier.
pub open spec fn first_match_at(h: Seq<char>, n: Seq<char>, k: int) -> bool {
    match_at(h, n, k) && forall|j: int| 0 <= j < k ==> !match_at(h, n, j)
}

/// Whether the needle occurs at code-point index `k` of the haystack.
pub(crate) fn match_prefix_at(h: &Vec<char>, n: &Vec<char>, k: usize) -> (r: bool)
    requires
        k + n@.len() <= h@.len(),
    ensures
        r == match_at(h@, n@, k as int),
{
    let hl = h.len();
    let mut j: usize = 0;
    while j < n.len()
        invariant
            hl == h@.len(),
            k + n@.len() <= h@.len(),
            j <= n@.len(),
            forall|m: int| 0 <= m < j ==> h@[k + m] == n@[m],
        decreases n@.len() - j,
    {
        if h[k + j] != n[j] {
            proof {
                if match_at(h@, n@, k as int) {
                    assert(h@.subrange(k as int, k + n@.len())[j as int] == n@[j as int]);
                }
            }
            return false;
        }
        j += 1;
    }
    proof {
        assert(h@.subrange(k as int, k + n@.len()) =~= n@);
    }
    true
}

/// The byte position at which the needle first occurs in the haystack, or
/// absent when it occurs nowhere. The position is a byte offset into the
/// haystack's UTF-8 storage, not a code-point index.
pub fn find(hay: &str, needle: &str) -> (r: Option<usize>)
    ensures
        match r {
            Some(b) => exists|k: int|
                #[trigger] first_match_at(hay@, needle@, k) && b == byte_offset(hay@, k),
            None => forall|k: int| !match_at(hay@, needle@, k),
        },
{
    let h = chars_vec(hay);
    let n = chars_vec(needle);
    let total = byte_len(hay);
    if n.len() > h.len() {
        return None;
    }
    let mut k: usize = 0;
    let mut off: usize = 0;
    while k <= h.len() - n.len()
        invariant
            h@ == hay@,
            n@ == needle@,
            n@.len() <= h@.len(),
            k <= h@.len() - n@.len() + 1,
            off == byte_offset(h@, k as int),
            total == vstd::utf8::encode_utf8(h@).len(),
            off <= total,
            forall|j: int| 0 <= j < k ==> !match_at(h@, n@, j),
        decreases h@.len() - n@.len() + 1 - k,
    {
        if match_prefix_at(&h, &n, k) {
            proof {
                assert(first_match_at(hay@, needle@, k as int));
            }
            return Some(off);
        }
        proof {
            if n@.len() == 0 {
                assert(h@.subrange(k as int, k as int) =~= n@);
                assert(false);
            }
            lemma_byte_offset_step(h@, k as int);
            lemma_byte_offset_bound(h@, k as int + 1);
        }
        let w = char_utf8_len(h[k]);
        off = off + w;
        k = k + 1;
    }
    proof {
        assert forall|j: int| !match_at(hay@, needle@, j) by {
            if 0 <= j && j + needle@.len() <= hay@.len() {
                assert(j < h@.len() - n@.len() + 1);
            }
        }
    }
    None
}

} // verus!
