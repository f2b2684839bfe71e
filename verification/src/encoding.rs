use vstd::prelude::*;
use vstd::utf8::encode_scalar;
use vstd::utf8::encode_utf8;
use vstd::utf8::is_ascii_chars;

verus! {

/// The byte position, in the UTF-8 storage of the text, at which its `k`th
/// code point begins; for `k` equal to the length, the total byte count.
pub open spec fn byte_offset(s: Seq<char>, k: int) -> int
    recommends
        0 <= k <= s.len(),
{
    encode_utf8(s.subrange(0, k)).len() as int
}

/// UTF-8 encodes a concatenation piecewise.
pub proof fn lemma_encode_utf8_concat(a: Seq<char>, b: Seq<char>)
    ensures
        encode_utf8(a + b) == encode_utf8(a) + encode_utf8(b),
    decreases a.len(),
{
    if a.len() == 0 {
        assert(a + b =~= b);
        assert(encode_utf8(a) + encode_utf8(b) =~= encode_utf8(b));
    } else {
        lemma_encode_utf8_concat(a.drop_first(), b);
        assert((a + b).drop_first() =~= a.drop_first() + b);
        assert((a + b)[0] == a[0]);
        assert(encode_utf8(a + b) =~= encode_utf8(a) + encode_utf8(b));
    }
}

/// A character's order agrees with its scalar value: the ASCII range is
/// exactly the scalars below 128.
pub proof fn lemma_char_order_u32(c: char)
    ensures
        c > '\u{7f}' ==> (c as u32) >= 0x80,
        c <= '\u{7f}' ==> (c as u32) < 0x80,
        '\0' <= c,
{
}

/// Every code point takes one to four bytes of UTF-8 storage, and exactly
/// one byte precisely when it is ASCII.
pub proof fn lemma_char_width(c: char)
    ensures
        1 <= encode_scalar(c as u32).len() <= 4,
        (encode_scalar(c as u32).len() == 1) <==> (c as u32) < 0x80,
{
    vstd::utf8::char_is_scalar(c);
}

/// Stepping one code point forward moves the byte position by that code
/// point's UTF-8 width.
pub proof fn lemma_byte_offset_step(s: Seq<char>, k: int)
    requires
        0 <= k < s.len(),
    ensures
        byte_offset(s, k + 1) == byte_offset(s, k) + encode_scalar(s[k] as u32).len(),
{
    assert(s.subrange(0, k + 1) =~= s.subrange(0, k) + seq![s[k]]);
    lemma_encode_utf8_concat(s.subrange(0, k), seq![s[k]]);
    vstd::utf8::char_is_scalar(s[k]);
    let single = seq![s[k]];
    assert(single.len() == 1 && single[0] == s[k]);
    assert(single.drop_first() =~= Seq::<char>::empty());
    assert(encode_utf8(single) == encode_scalar(single[0] as u32) + encode_utf8(
        single.drop_first(),
    ));
    assert(encode_utf8(single) =~= encode_scalar(s[k] as u32));
}

/// Byte positions never pass the total byte count: the bytes before position
/// `k` and the bytes from it onward together are the whole storage.
pub proof fn lemma_byte_offset_bound(s: Seq<char>, k: int)
    requires
        0 <= k <= s.len(),
    ensures
        byte_offset(s, k) + encode_utf8(s.subrange(k, s.len() as int)).len() == encode_utf8(
            s,
        ).len(),
        byte_offset(s, k) <= encode_utf8(s).len(),
{
    assert(s =~= s.subrange(0, k) + s.subrange(k, s.len() as int));
    lemma_encode_utf8_concat(s.subrange(0, k), s.subrange(k, s.len() as int));
}

/// Byte positions grow strictly with the code-point index.
pub proof fn lemma_byte_offset_mono(s: Seq<char>, j: int, k: int)
    requires
        0 <= j < k <= s.len(),
    ensures
        byte_offset(s, j) < byte_offset(s, k),
    decreases k - j,
{
    lemma_byte_offset_step(s, j);
    lemma_char_width(s[j]);
    if j + 1 < k {
        lemma_byte_offset_mono(s, j + 1, k);
    }
}

/// The byte count of a text value never falls below its code-point count; the
/// two agree exactly when every code point is ASCII, so any non-ASCII code
/// point makes the byte count strictly larger.
pub proof fn lemma_code_point_count(s: Seq<char>)
    ensures
        encode_utf8(s).len() >= s.len(),
        is_ascii_chars(s) ==> encode_utf8(s).len() == s.len(),
        !is_ascii_chars(s) ==> encode_utf8(s).len() > s.len(),
    decreases s.len(),
{
    if s.len() == 0 {
    } else {
        lemma_code_point_count(s.drop_first());
        lemma_char_width(s[0]);
        if is_ascii_chars(s) {
            assert(is_ascii_chars(s.drop_first()));
            assert((s[0] as u32) < 0x80);
        } else {
            if '\0' <= s[0] <= '\u{7f}' {
                if is_ascii_chars(s.drop_first()) {
                    assert forall|i: int| 0 <= i < s.len() implies '\0' <= #[trigger] s[i]
                        <= '\u{7f}' by {
                        if i > 0 {
                            assert('\0' <= s.drop_first()[i - 1] <= '\u{7f}');
                        }
                    }
                    assert(is_ascii_chars(s));
                }
            } else {
                lemma_char_order_u32(s[0]);
                assert((s[0] as u32) >= 0x80);
            }
        }
    }
}

} // verus!
