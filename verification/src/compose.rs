//! The template compositor: substitutes the rendered document fragment and
//! the index fragment into a page template at two literal placeholder
//! tokens, in one pass, so text inside a substituted fragment is never
//! re-substituted. A template missing a placeholder simply drops that
//! fragment.

use vstd::prelude::*;
use crate::text::{chars_vec, string_from_chars};

verus! {

/// The pattern occurs, character for character, at position `i` of `s`.
pub open spec fn match_exact_at(s: Seq<char>, i: int, pat: Seq<char>) -> bool {
    &&& 0 <= i
    &&& i + pat.len() <= s.len()
    &&& s.subrange(i, i + pat.len()) == pat
}

/// One left-to-right pass over the template `t`: each occurrence of the
/// pattern `pa` becomes `fa`, each occurrence of `pb` becomes `fb`, with
/// `pa` tried first at every position; all other characters are copied.
/// The substituted fragments are emitted, never rescanned.
pub open spec fn subst(
    t: Seq<char>,
    pa: Seq<char>,
    fa: Seq<char>,
    pb: Seq<char>,
    fb: Seq<char>,
) -> Seq<char>
    recommends
        pa.len() > 0,
        pb.len() > 0,
    decreases t.len() when pa.len() > 0 && pb.len() > 0
{
    if match_exact_at(t, 0, pa) {
        fa + subst(t.skip(pa.len() as int), pa, fa, pb, fb)
    } else if match_exact_at(t, 0, pb) {
        fb + subst(t.skip(pb.len() as int), pa, fa, pb, fb)
    } else if t.len() == 0 {
        Seq::empty()
    } else {
        seq![t[0]] + subst(t.skip(1), pa, fa, pb, fb)
    }
}

/// Runtime check of [`match_exact_at`] at one position.
pub(crate) fn match_at(v: &Vec<char>, i: usize, pat: &Vec<char>) -> (r: bool)
    ensures
        r == match_exact_at(v@, i as int, pat@),
{
    let n = v.len();
    if pat.len() > n || i > n - pat.len() {
        proof {
            assert(i + pat@.len() > v@.len());
        }
        return false;
    }
    let mut k: usize = 0;
    while k < pat.len()
        invariant
            k <= pat@.len(),
            n == v@.len(),
            i + pat@.len() <= v@.len(),
            forall|kk: int| 0 <= kk < k ==> v@[i + kk] == pat@[kk],
        decreases pat@.len() - k,
    {
        proof {
            assert(i + k < v@.len());
        }
        if v[i + k] != pat[k] {
            proof {
                assert(v@.subrange(i as int, i + pat@.len())[k as int] == v@[i + k]);
            }
            return false;
        }
        k = k + 1;
    }
    proof {
        assert(v@.subrange(i as int, i + pat@.len()) =~= pat@);
    }
    true
}

/// Substitutes the document fragment and the index fragment into the
/// template at their placeholder tokens, per [`subst`].
pub fn substitute_template(template: &str, adr_html: &str, list_html: &str) -> (r: String)
    ensures
        r@ == subst(template@, "{{ADR_CONTENT}}"@, adr_html@, "{{LIST_ADRS}}"@, list_html@),
{
    let t = chars_vec(template);
    let pa = chars_vec("{{ADR_CONTENT}}");
    let pb = chars_vec("{{LIST_ADRS}}");
    let fa = chars_vec(adr_html);
    let fb = chars_vec(list_html);
    proof {
        reveal_strlit("{{ADR_CONTENT}}");
        reveal_strlit("{{LIST_ADRS}}");
        assert(pa@.len() > 0);
        assert(pb@.len() > 0);
        assert(t@.skip(0) =~= t@);
    }
    let mut out: Vec<char> = Vec::new();
    let mut i: usize = 0;
    while i < t.len()
        invariant
            i <= t@.len(),
            pa@ == "{{ADR_CONTENT}}"@,
            pb@ == "{{LIST_ADRS}}"@,
            fa@ == adr_html@,
            fb@ == list_html@,
            pa@.len() > 0,
            pb@.len() > 0,
            subst(template@, pa@, fa@, pb@, fb@) == out@ + subst(
                t@.skip(i as int),
                pa@,
                fa@,
                pb@,
                fb@,
            ),
            t@ == template@,
        decreases t@.len() - i,
    {
        proof {
            lemma_skip_match(t@, i as int, pa@);
            lemma_skip_match(t@, i as int, pb@);
        }
        let ghost prev = out@;
        if match_at(&t, i, &pa) {
            append_range(&mut out, &fa, 0, fa.len());
            proof {
                assert(fa@.subrange(0, fa@.len() as int) =~= fa@);
                assert(t@.skip(i as int).skip(pa@.len() as int) =~= t@.skip(i + pa@.len()));
                let rest = subst(t@.skip(i + pa@.len()), pa@, fa@, pb@, fb@);
                assert(prev + (fa@ + rest) =~= (prev + fa@) + rest);
            }
            i = i + pa.len();
        } else if match_at(&t, i, &pb) {
            append_range(&mut out, &fb, 0, fb.len());
            proof {
                assert(fb@.subrange(0, fb@.len() as int) =~= fb@);
                assert(t@.skip(i as int).skip(pb@.len() as int) =~= t@.skip(i + pb@.len()));
                let rest = subst(t@.skip(i + pb@.len()), pa@, fa@, pb@, fb@);
                assert(prev + (fb@ + rest) =~= (prev + fb@) + rest);
            }
            i = i + pb.len();
        } else {
            out.push(t[i]);
            proof {
                assert(t@.skip(i as int)[0] == t@[i as int]);
                assert(t@.skip(i as int).skip(1) =~= t@.skip(i as int + 1));
                let rest = subst(t@.skip(i as int + 1), pa@, fa@, pb@, fb@);
                assert(prev + (seq![t@[i as int]] + rest) =~= prev.push(t@[i as int]) + rest);
            }
            i = i + 1;
        }
    }
    proof {
        assert(t@.skip(i as int).len() == 0);
        assert(out@ + subst(t@.skip(i as int), pa@, fa@, pb@, fb@) =~= out@);
    }
    string_from_chars(&out)
}

/// A pattern matches at position `i` of `s` exactly when it matches at the
/// start of `s.skip(i)`.
proof fn lemma_skip_match(s: Seq<char>, i: int, pat: Seq<char>)
    requires
        0 <= i <= s.len(),
    ensures
        match_exact_at(s, i, pat) == match_exact_at(s.skip(i), 0, pat),
{
    if i + pat.len() <= s.len() {
        assert(s.subrange(i, i + pat.len()) =~= s.skip(i).subrange(0, pat.len() as int));
    }
}

/// Appends `src[from..to]` to `dst`.
pub(crate) fn append_range(dst: &mut Vec<char>, src: &Vec<char>, from: usize, to: usize)
    requires
        from <= to <= src@.len(),
    ensures
        final(dst)@ == old(dst)@ + src@.subrange(from as int, to as int),
{
    let mut k = from;
    while k < to
        invariant
            from <= k <= to <= src@.len(),
            dst@ =~= old(dst)@ + src@.subrange(from as int, k as int),
        decreases to - k,
    {
        dst.push(src[k]);
        k = k + 1;
    }
    proof {
        assert(dst@ =~= old(dst)@ + src@.subrange(from as int, to as int));
    }
}

} // verus!
