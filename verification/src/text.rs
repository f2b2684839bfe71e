use vstd::prelude::*;
use vstd::std_specs::iter::IteratorSpec;
use vstd::string::StrSliceExecFns;
use vstd::string::StringExecFns;
use vstd::utf8::encode_scalar;
use vstd::utf8::encode_utf8;

verus! {

broadcast use vstd::string::group_string_axioms;

/// Relies on `String::push`: appends the given character to the end of the
/// string.
#[verifier::external_body]
pub(crate) fn push_char(s: &mut String, c: char)
    ensures
        final(s)@ == old(s)@.push(c),
{
    s.push(c)
}

/// The code points of a text value, in storage order, as a vector.
pub fn chars_vec(s: &str) -> (r: Vec<char>)
    ensures
        r@ == s@,
{
    let mut it = s.chars();
    let mut r: Vec<char> = Vec::new();
    loop
        invariant
            r@ + it.remaining() == s@,
        ensures
            r@ == s@,
        decreases s@.len() - r@.len(),
    {
        match it.next() {
            Some(c) => {
                r.push(c);
                proof {
                    assert(r@ + it.remaining() =~= s@);
                }
            },
            None => {
                proof {
                    assert(it.obeys_prophetic_iter_laws());
                    assert(r@ =~= s@);
                }
                break ;
            },
        }
    }
    r
}

/// A text value with exactly the given code points, in order.
pub fn string_from_chars(v: &Vec<char>) -> (r: String)
    ensures
        r@ == v@,
{
    let mut r = String::new();
    let mut i: usize = 0;
    while i < v.len()
        invariant
            i <= v@.len(),
            r@ == v@.subrange(0, i as int),
        decreases v@.len() - i,
    {
        push_char(&mut r, v[i]);
        proof {
            assert(r@ =~= v@.subrange(0, i + 1));
        }
        i += 1;
    }
    proof {
        assert(v@.subrange(0, v@.len() as int) =~= v@);
    }
    r
}

/// The number of Unicode code points in the text: the length of its
/// code-point sequence, not its byte length.
pub fn char_count(s: &str) -> (r: usize)
    ensures
        r == s@.len(),
{
    s.unicode_len()
}

/// Relies on `str::len`: the byte length of the UTF-8 storage, which for any
/// string held in memory fits in `usize`.
#[verifier::external_body]
pub(crate) fn byte_len(s: &str) -> (r: usize)
    ensures
        r == encode_utf8(s@).len(),
{
    s.len()
}

/// The raw bytes of the text's UTF-8 storage, in order, as a vector.
pub fn bytes_vec(s: &str) -> (r: Vec<u8>)
    ensures
        r@ == encode_utf8(s@),
{
    s.as_bytes_vec()
}

/// The number of bytes in the UTF-8 storage of the text.
pub fn byte_count(s: &str) -> (r: usize)
    ensures
        r == encode_utf8(s@).len(),
{
    byte_len(s)
}

/// Zero-based access to the nth code point; absent when the index is out of
/// range.
pub fn nth_char(s: &str, i: usize) -> (r: Option<char>)
    ensures
        match r {
            Some(c) => i < s@.len() && c == s@[i as int],
            None => i >= s@.len(),
        },
{
    if i < s.unicode_len() {
        Some(s.get_char(i))
    } else {
        None
    }
}

/// The first `n` code points of the text, or all of it when it is shorter.
pub fn prefix_chars(s: &str, n: usize) -> (r: String)
    ensures
        n <= s@.len() ==> r@ == s@.subrange(0, n as int),
        n > s@.len() ==> r@ == s@,
{
    let len = s.unicode_len();
    let end = if n <= len {
        n
    } else {
        len
    };
    let sub = s.substring_char(0, end);
    let r = sub.to_owned();
    proof {
        if n > s@.len() {
            assert(s@.subrange(0, s@.len() as int) =~= s@);
        }
    }
    r
}

/// The code points in the half-open range `[from, to)`, as a new text value.
pub fn substring_chars(s: &str, from: usize, to: usize) -> (r: String)
    requires
        from <= to <= s@.len(),
    ensures
        r@ == s@.subrange(from as int, to as int),
{
    s.substring_char(from, to).to_owned()
}

/// Appends `" sun"` to the caller's string through an exclusive reference;
/// the caller's variable holds the extended text afterwards.
pub fn change_name(name: &mut String)
    ensures
        final(name)@ == old(name)@ + " sun"@,
{
    name.append(" sun")
}

/// The byte width of one code point in UTF-8 storage: 1 for ASCII, up to 4
/// for the highest scalars.
pub fn char_utf8_len(c: char) -> (r: usize)
    ensures
        r == encode_scalar(c as u32).len(),
        1 <= r <= 4,
{
    proof {
        vstd::utf8::char_is_scalar(c);
    }
    let u = c as u32;
    if u < 0x80 {
        1
    } else if u < 0x800 {
        2
    } else if u < 0x10000 {
        3
    } else {
        4
    }
}

} // verus!
