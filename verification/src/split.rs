use crate::text::chars_vec;
use crate::text::string_from_chars;
use vstd::prelude::*;
use vstd::string::StringExecFns;

verus! {

/// The fragments of the text between occurrences of the delimiter, in
/// left-to-right order, the delimiter itself excluded. A text with no
/// delimiter is one fragment; a delimiter at either end or two adjacent
/// delimiters yield empty fragments.
pub open spec fn spec_split(s: Seq<char>, d: char) -> Seq<Seq<char>>
    decreases s.len(),
{
    if s.len() == 0 {
        seq![Seq::<char>::empty()]
    } else if s[0] == d {
        seq![Seq::<char>::empty()] + spec_split(s.drop_first(), d)
    } else {
        let rest = spec_split(s.drop_first(), d);
        seq![seq![s[0]] + rest[0]] + rest.drop_first()
    }
}

/// Splitting always yields at least one fragment.
pub proof fn lemma_spec_split_len(s: Seq<char>, d: char)
    ensures
        spec_split(s, d).len() >= 1,
    decreases s.len(),
{
    if s.len() == 0 {
    } else {
        lemma_spec_split_len(s.drop_first(), d);
    }
}

/// The ordered fragments of the text between occurrences of the delimiter.
pub fn split_char(s: &str, d: char) -> (r: Vec<String>)
    ensures
        r.deep_view() == spec_split(s@, d),
{
    let sv = chars_vec(s);
    let mut out: Vec<String> = Vec::new();
    let mut cur: Vec<char> = Vec::new();
    let mut i: usize = 0;
    proof {
        assert(s@.skip(0) =~= s@);
        lemma_spec_split_len(s@, d);
        assert(out.deep_view() + seq![cur@ + spec_split(s@, d)[0]] + spec_split(
            s@,
            d,
        ).drop_first() =~= seq![spec_split(s@, d)[0]] + spec_split(s@, d).drop_first());
        assert(seq![spec_split(s@, d)[0]] + spec_split(s@, d).drop_first() =~= spec_split(s@, d));
    }
    while i < sv.len()
        invariant
            sv@ == s@,
            i <= sv@.len(),
            spec_split(s@.skip(i as int), d).len() >= 1,
            out.deep_view() + seq![cur@ + spec_split(s@.skip(i as int), d)[0]] + spec_split(
                s@.skip(i as int),
                d,
            ).drop_first() == spec_split(s@, d),
        decreases sv@.len() - i,
    {
        let ghost tail = s@.skip(i as int);
        let ghost tail1 = s@.skip(i as int + 1);
        proof {
            assert(tail.len() > 0);
            assert(tail[0] == s@[i as int]);
            assert(tail.drop_first() =~= tail1);
            lemma_spec_split_len(tail1, d);
        }
        if sv[i] == d {
            let ghost pre_cur = cur@;
            let ghost pre_out = out.deep_view();
            let done = string_from_chars(&cur);
            out.push(done);
            cur = Vec::new();
            proof {
                assert(spec_split(tail, d) == seq![Seq::<char>::empty()] + spec_split(tail1, d));
                assert(spec_split(tail, d)[0] =~= Seq::<char>::empty());
                assert(spec_split(tail, d).drop_first() =~= spec_split(tail1, d));
                assert(out.deep_view() =~~= pre_out + seq![pre_cur]);
                assert(out.deep_view() + seq![cur@ + spec_split(tail1, d)[0]] + spec_split(
                    tail1,
                    d,
                ).drop_first() =~~= pre_out + seq![pre_cur + spec_split(tail, d)[0]] + spec_split(
                    tail,
                    d,
                ).drop_first());
            }
        } else {
            let ghost pre_cur = cur@;
            cur.push(sv[i]);
            proof {
                assert(spec_split(tail, d)[0] == seq![s@[i as int]] + spec_split(tail1, d)[0]);
                assert(spec_split(tail, d).drop_first() =~= spec_split(tail1, d).drop_first());
                assert(cur@ + spec_split(tail1, d)[0] =~= pre_cur + spec_split(tail, d)[0]);
                assert(out.deep_view() + seq![cur@ + spec_split(tail1, d)[0]] + spec_split(
                    tail1,
                    d,
                ).drop_first() =~~= out.deep_view() + seq![pre_cur + spec_split(tail, d)[0]]
                    + spec_split(tail, d).drop_first());
            }
        }
        i += 1;
    }
    let done = string_from_chars(&cur);
    let ghost pre_out = out.deep_view();
    out.push(done);
    proof {
        assert(s@.skip(sv@.len() as int) =~= Seq::<char>::empty());
        assert(spec_split(s@.skip(sv@.len() as int), d) =~= seq![Seq::<char>::empty()]);
        assert(out.deep_view() =~= pre_out + seq![cur@ + Seq::<char>::empty()]);
        assert(pre_out + seq![cur@ + Seq::<char>::empty()] =~= pre_out + seq![cur@
            + spec_split(s@.skip(sv@.len() as int), d)[0]] + spec_split(
            s@.skip(sv@.len() as int),
            d,
        ).drop_first());
    }
    out
}

/// The fragments joined into one text value, the separator standing between
/// each adjacent pair and nowhere else.
pub open spec fn spec_join(parts: Seq<Seq<char>>, sep: Seq<char>) -> Seq<char>
    decreases parts.len(),
{
    if parts.len() == 0 {
        Seq::<char>::empty()
    } else if parts.len() == 1 {
        parts[0]
    } else {
        parts[0] + sep + spec_join(parts.drop_first(), sep)
    }
}

/// Appending one more fragment extends a join by the separator and that
/// fragment, except on an empty list, where it is the fragment alone.
pub proof fn lemma_spec_join_push(parts: Seq<Seq<char>>, sep: Seq<char>, p: Seq<char>)
    ensures
        parts.len() == 0 ==> spec_join(parts.push(p), sep) == p,
        parts.len() > 0 ==> spec_join(parts.push(p), sep) == spec_join(parts, sep) + sep + p,
    decreases parts.len(),
{
    if parts.len() == 0 {
        assert(parts.push(p).len() == 1);
        assert(spec_join(parts.push(p), sep) == parts.push(p)[0]);
    } else if parts.len() == 1 {
        assert(parts.push(p).drop_first() =~= seq![p]);
        assert(spec_join(seq![p], sep) == p);
        assert(parts.push(p)[0] == parts[0]);
    } else {
        lemma_spec_join_push(parts.drop_first(), sep, p);
        assert(parts.push(p).drop_first() =~= parts.drop_first().push(p));
        assert(parts.push(p)[0] == parts[0]);
        assert(parts[0] + sep + (spec_join(parts.drop_first(), sep) + sep + p) =~= (parts[0] + sep
            + spec_join(parts.drop_first(), sep)) + sep + p);
    }
}

/// One text value holding the fragments in order with the separator between
/// each adjacent pair.
pub fn join(parts: &Vec<String>, sep: &str) -> (r: String)
    ensures
        r@ == spec_join(parts.deep_view(), sep@),
{
    let mut out = String::new();
    let mut i: usize = 0;
    while i < parts.len()
        invariant
            i <= parts@.len(),
            parts.deep_view().len() == parts@.len(),
            out@ == spec_join(parts.deep_view().subrange(0, i as int), sep@),
        decreases parts@.len() - i,
    {
        let ghost dv = parts.deep_view();
        proof {
            assert(dv.subrange(0, i as int + 1) =~= dv.subrange(0, i as int).push(dv[i as int]));
            lemma_spec_join_push(dv.subrange(0, i as int), sep@, dv[i as int]);
            assert(dv[i as int] == parts@[i as int]@);
        }
        if i > 0 {
            out.append(sep);
        }
        let part = &parts[i];
        out.append(part.as_str());
        i += 1;
    }
    proof {
        assert(parts.deep_view().subrange(0, parts@.len() as int) =~= parts.deep_view());
    }
    out
}

} // verus!
