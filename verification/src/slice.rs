use crate::encoding::byte_offset;
use crate::encoding::lemma_byte_offset_mono;
use crate::encoding::lemma_byte_offset_step;
use crate::text::char_utf8_len;
use crate::text::chars_vec;
use vstd::prelude::*;
use vstd::string::StrSliceExecFns;

verus! {

/// A byte position falls on a code-point boundary of the text: some prefix
/// of its code points occupies exactly that many bytes.
pub open spec fn is_boundary(s: Seq<char>, b: int) -> bool {
    exists|k: int| 0 <= k <= s.len() && byte_offset(s, k) == b
}

/// The code-point index whose byte position is `b`, sought from the front.
fn char_index_of_byte(s: &Vec<char>, b: usize) -> (r: Option<usize>)
    ensures
        match r {
            Some(k) => k <= s@.len() && byte_offset(s@, k as int) == b,
            None => !is_boundary(s@, b as int),
        },
{
    let mut k: usize = 0;
    let mut off: usize = 0;
    while k < s.len()
        invariant
            k <= s@.len(),
            off == byte_offset(s@, k as int),
            forall|j: int| 0 <= j < k ==> byte_offset(s@, j) != b,
        decreases s@.len() - k,
    {
        if off == b {
            return Some(k);
        }
        proof {
            lemma_byte_offset_step(s@, k as int);
        }
        let w = char_utf8_len(s[k]);
        if off > usize::MAX - w {
            proof {
                assert forall|j: int| 0 <= j <= s@.len() implies byte_offset(s@, j) != b by {
                    if j > k + 1 {
                        lemma_byte_offset_mono(s@, k as int + 1, j);
                    }
                }
            }
            return None;
        }
        off = off + w;
        k = k + 1;
    }
    if off == b {
        Some(k)
    } else {
        None
    }
}

/// The text between two byte positions of the UTF-8 storage, as a new text
/// value. Present exactly when both positions fall on code-point boundaries
/// and are in order; the code points between the two boundaries are returned.
/// A full-range slice returns the whole text.
pub fn slice_bytes(s: &str, start: usize, end: usize) -> (r: Option<String>)
    ensures
        r is Some <==> (is_boundary(s@, start as int) && is_boundary(s@, end as int) && start
            <= end),
        match r {
            Some(t) => exists|ks: int, ke: int|
                {
                    &&& 0 <= ks <= ke <= s@.len()
                    &&& #[trigger] byte_offset(s@, ks) == start
                    &&& #[trigger] byte_offset(s@, ke) == end
                    &&& t@ == s@.subrange(ks, ke)
                },
            None => true,
        },
{
    let cs = chars_vec(s);
    let ks = match char_index_of_byte(&cs, start) {
        Some(k) => k,
        None => {
            return None;
        },
    };
    let ke = match char_index_of_byte(&cs, end) {
        Some(k) => k,
        None => {
            return None;
        },
    };
    if ks > ke {
        proof {
            lemma_byte_offset_mono(s@, ke as int, ks as int);
            assert(end < start);
        }
        return None;
    }
    proof {
        assert(is_boundary(s@, start as int)) by {
            assert(0 <= ks as int <= s@.len() && byte_offset(s@, ks as int) == start);
        }
        assert(is_boundary(s@, end as int)) by {
            assert(0 <= ke as int <= s@.len() && byte_offset(s@, ke as int) == end);
        }
        if ks < ke {
            lemma_byte_offset_mono(s@, ks as int, ke as int);
        }
    }
    let sub = s.substring_char(ks, ke);
    Some(sub.to_owned())
}

} // verus!
