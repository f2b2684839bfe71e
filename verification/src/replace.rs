use crate::search::match_at;
use crate::text::chars_vec;
use crate::text::push_char;
use vstd::prelude::*;
use vstd::string::StringExecFns;

verus! {

/// The text with every occurrence of `pat` replaced by `rep`, scanning left
/// to right over non-overlapping occurrences. An empty pattern matches
/// between all code points, so `rep` is then interleaved around each one.
pub open spec fn spec_replace(s: Seq<char>, pat: Seq<char>, rep: Seq<char>) -> Seq<char>
    decreases s.len(),
{
    if s.len() == 0 {
        if pat.len() == 0 {
            rep
        } else {
            Seq::<char>::empty()
        }
    } else if pat.len() == 0 {
        rep + seq![s[0]] + spec_replace(s.drop_first(), pat, rep)
    } else if pat.len() <= s.len() && s.subrange(0, pat.len() as int) == pat {
        rep + spec_replace(s.skip(pat.len() as int), pat, rep)
    } else {
        seq![s[0]] + spec_replace(s.drop_first(), pat, rep)
    }
}

/// A new text value with all occurrences of the pattern replaced; the
/// original is left unchanged.
pub fn replace(s: &str, pat: &str, rep: &str) -> (r: String)
    ensures
        r@ == spec_replace(s@, pat@, rep@),
{
    let sv = chars_vec(s);
    let pv = chars_vec(pat);
    let mut out = String::new();
    proof {
        assert(s@.skip(0) =~= s@);
        assert(Seq::<char>::empty() + spec_replace(s@, pat@, rep@) =~= spec_replace(
            s@,
            pat@,
            rep@,
        ));
    }
    if pv.len() == 0 {
        let mut i: usize = 0;
        while i < sv.len()
            invariant
                sv@ == s@,
                pat@.len() == 0,
                i <= sv@.len(),
                out@ + spec_replace(s@.skip(i as int), pat@, rep@) == spec_replace(
                    s@,
                    pat@,
                    rep@,
                ),
            decreases sv@.len() - i,
        {
            proof {
                assert(s@.skip(i as int).len() > 0);
                assert(s@.skip(i as int)[0] == s@[i as int]);
                assert(s@.skip(i as int).drop_first() =~= s@.skip(i as int + 1));
            }
            let ghost pre = out@;
            out.append(rep);
            push_char(&mut out, sv[i]);
            proof {
                assert(out@ =~= pre + rep@ + seq![s@[i as int]]);
                assert(out@ + spec_replace(s@.skip(i as int + 1), pat@, rep@) =~= pre + (rep@
                    + seq![s@[i as int]] + spec_replace(s@.skip(i as int + 1), pat@, rep@)));
            }
            i += 1;
        }
        proof {
            assert(s@.skip(sv@.len() as int) =~= Seq::<char>::empty());
        }
        let ghost pre = out@;
        out.append(rep);
        proof {
            assert(out@ =~= pre + spec_replace(s@.skip(sv@.len() as int), pat@, rep@));
        }
        out
    } else {
        let mut i: usize = 0;
        while i < sv.len()
            invariant
                sv@ == s@,
                pv@ == pat@,
                pv@.len() >= 1,
                i <= sv@.len(),
                out@ + spec_replace(s@.skip(i as int), pat@, rep@) == spec_replace(
                    s@,
                    pat@,
                    rep@,
                ),
            decreases sv@.len() - i,
        {
            proof {
                assert(s@.skip(i as int).len() > 0);
                assert(s@.skip(i as int)[0] == s@[i as int]);
                assert(s@.skip(i as int).drop_first() =~= s@.skip(i as int + 1));
            }
            if sv.len() - i >= pv.len() && crate::search::match_prefix_at(&sv, &pv, i) {
                proof {
                    assert(s@.skip(i as int).subrange(0, pat@.len() as int) =~= s@.subrange(
                        i as int,
                        i + pat@.len(),
                    ));
                    assert(s@.skip(i as int).skip(pat@.len() as int) =~= s@.skip(
                        i + pat@.len(),
                    ));
                }
                let ghost pre = out@;
                out.append(rep);
                proof {
                    assert(out@ + spec_replace(s@.skip(i + pat@.len()), pat@, rep@) =~= pre + (rep@
                        + spec_replace(s@.skip(i + pat@.len()), pat@, rep@)));
                }
                i += pv.len();
            } else {
                proof {
                    if pat@.len() <= s@.skip(i as int).len() && s@.skip(i as int).subrange(
                        0,
                        pat@.len() as int,
                    ) == pat@ {
                        assert(s@.skip(i as int).subrange(0, pat@.len() as int) =~= s@.subrange(
                            i as int,
                            i + pat@.len(),
                        ));
                        assert(match_at(s@, pat@, i as int));
                    }
                }
                let ghost pre = out@;
                push_char(&mut out, sv[i]);
                proof {
                    assert(out@ + spec_replace(s@.skip(i as int + 1), pat@, rep@) =~= pre + (seq![
                        s@[i as int],
                    ] + spec_replace(s@.skip(i as int + 1), pat@, rep@)));
                }
                i += 1;
            }
        }
        proof {
            assert(s@.skip(sv@.len() as int) =~= Seq::<char>::empty());
            assert(out@ + spec_replace(s@.skip(sv@.len() as int), pat@, rep@) =~= out@);
        }
        out
    }
}

} // verus!
