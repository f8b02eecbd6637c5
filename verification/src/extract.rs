//! Inline metadata extraction: locates a case-insensitive `label:` occurrence
//! in free text, captures the trimmed value running to the end of the line,
//! and removes exactly that labelled occurrence from the text.

use vstd::prelude::*;
use crate::text::{
    chars_vec, copy_range, is_ws, is_ws_char, lower, lower_char, string_from_chars, trim,
    trim_chars, trim_end_idx, ws_run_end, lemma_trim_end_idx, lemma_ws_run_end, trim_end_at,
    ws_run_end_at,
};

verus! {

/// The pattern matches at position `i` of `s`, comparing characters under
/// ASCII case folding.
pub open spec fn ci_match_at(s: Seq<char>, i: int, pat: Seq<char>) -> bool {
    &&& 0 <= i
    &&& i + pat.len() <= s.len()
    &&& forall|k: int| 0 <= k < pat.len() ==> lower(s[i + k]) == lower(pat[k])
}

/// The position of the leftmost match of `pat` at or after `i`, if any.
pub open spec fn first_match_from(s: Seq<char>, pat: Seq<char>, i: int) -> Option<int>
    recommends
        0 <= i <= s.len(),
    decreases s.len() - i when 0 <= i <= s.len()
{
    if i + pat.len() > s.len() {
        None
    } else if ci_match_at(s, i, pat) {
        Some(i)
    } else {
        first_match_from(s, pat, i + 1)
    }
}

/// Index of the first line break at or after `j`, or the end of the text.
pub open spec fn line_end(s: Seq<char>, j: int) -> int
    recommends
        0 <= j <= s.len(),
    decreases s.len() - j when 0 <= j <= s.len()
{
    if j < s.len() && s[j] != '\n' {
        line_end(s, j + 1)
    } else {
        j
    }
}

/// End of the text region removed for a label match at `i`: the label, the
/// whitespace run after it, and the captured value up to its last
/// non-whitespace character before the end of the line.
pub open spec fn removal_end(s: Seq<char>, pat: Seq<char>, i: int) -> int {
    let j1 = ws_run_end(s, i + pat.len());
    if j1 == s.len() {
        j1
    } else {
        trim_end_idx(s, line_end(s, j1))
    }
}

/// The value captured for the label pattern, if the pattern occurs: the text
/// after the label and its whitespace run, cut at the end of the line and
/// stripped of trailing whitespace.
pub open spec fn extract_value(s: Seq<char>, pat: Seq<char>) -> Option<Seq<char>> {
    match first_match_from(s, pat, 0) {
        None => None,
        Some(i) => {
            let j1 = ws_run_end(s, i + pat.len());
            Some(s.subrange(j1, removal_end(s, pat, i)))
        },
    }
}

/// The text that remains after extraction: unchanged if the pattern does not
/// occur, otherwise the text with the matched region spliced out and the
/// result trimmed.
pub open spec fn extract_rest(s: Seq<char>, pat: Seq<char>) -> Seq<char> {
    match first_match_from(s, pat, 0) {
        None => s,
        Some(i) => trim(
            s.subrange(0, i) + s.subrange(removal_end(s, pat, i), s.len() as int),
        ),
    }
}

/// Basic bounds of [`line_end`]: everything before it on the line is not a
/// line break, and it stops on a line break or at the end.
pub proof fn lemma_line_end(s: Seq<char>, j: int)
    requires
        0 <= j <= s.len(),
    ensures
        j <= line_end(s, j) <= s.len(),
        forall|k: int| j <= k < line_end(s, j) ==> s[k] != '\n',
        line_end(s, j) < s.len() ==> s[line_end(s, j)] == '\n',
    decreases s.len() - j,
{
    if j < s.len() && s[j] != '\n' {
        lemma_line_end(s, j + 1);
    }
}

/// The removed region for a match at `i` extends from the label to a point
/// between the end of the whitespace run and the end of the text.
pub proof fn lemma_removal_end(s: Seq<char>, pat: Seq<char>, i: int)
    requires
        0 <= i,
        i + pat.len() <= s.len(),
    ensures
        ({
            let j1 = ws_run_end(s, i + pat.len());
            let b = removal_end(s, pat, i);
            &&& i + pat.len() <= j1 <= b <= s.len()
            &&& (j1 < s.len() ==> j1 < b)
        }),
{
    let j0 = i + pat.len();
    let j1 = ws_run_end(s, j0);
    lemma_ws_run_end(s, j0);
    if j1 < s.len() {
        let e = line_end(s, j1);
        lemma_line_end(s, j1);
        assert(is_ws('\n'));
        assert(s[j1] != '\n');
        assert(e > j1);
        lemma_trim_end_idx(s, e);
        let b = trim_end_idx(s, e);
        if b <= j1 {
            assert(is_ws(s[j1]));
            assert(false);
        }
    }
}

/// Runtime check of [`ci_match_at`] at one position.
fn ci_match_here(v: &Vec<char>, i: usize, pat: &Vec<char>) -> (r: bool)
    requires
        i + pat@.len() <= v@.len(),
    ensures
        r == ci_match_at(v@, i as int, pat@),
{
    let n = v.len();
    let mut k: usize = 0;
    while k < pat.len()
        invariant
            k <= pat@.len(),
            n == v@.len(),
            i + pat@.len() <= v@.len(),
            forall|kk: int| 0 <= kk < k ==> lower(v@[i + kk]) == lower(pat@[kk]),
        decreases pat@.len() - k,
    {
        proof {
            assert(i + k < v@.len());
        }
        let cs = lower_char(v[i + k]);
        let cp = lower_char(pat[k]);
        if cs != cp {
            return false;
        }
        k = k + 1;
    }
    true
}

/// Finds the leftmost case-insensitive occurrence of the pattern.
fn find_first_ci(v: &Vec<char>, pat: &Vec<char>) -> (r: Option<usize>)
    ensures
        match r {
            Some(i) => first_match_from(v@, pat@, 0) == Some(i as int),
            None => first_match_from(v@, pat@, 0) is None,
        },
{
    let mut i: usize = 0;
    loop
        invariant
            i <= v@.len(),
            first_match_from(v@, pat@, 0) == first_match_from(v@, pat@, i as int),
        decreases v@.len() - i,
    {
        if pat.len() > v.len() || i > v.len() - pat.len() {
            proof {
                assert(i + pat@.len() > v@.len());
            }
            return None;
        }
        if ci_match_here(v, i, pat) {
            return Some(i);
        }
        i = i + 1;
    }
}

/// Extracts a labelled value from a character vector and removes the matched
/// region, per [`extract_value`] and [`extract_rest`].
fn extract_labelled(v: &Vec<char>, pat: &Vec<char>) -> (r: (Option<Vec<char>>, Vec<char>))
    ensures
        (r.0 is Some) == (extract_value(v@, pat@) is Some),
        r.0 matches Some(val) ==> extract_value(v@, pat@) == Some(val@),
        r.1@ == extract_rest(v@, pat@),
{
    match find_first_ci(v, pat) {
        None => (None, copy_range(v, 0, v.len())),
        Some(i) => {
            let n = v.len();
            proof {
                lemma_first_match_props(v@, pat@, 0);
                lemma_removal_end(v@, pat@, i as int);
            }
            let j1 = ws_run_end_at(v, i + pat.len());
            let b = if j1 == n {
                j1
            } else {
                let e = line_end_at(v, j1);
                trim_end_at(v, e)
            };
            proof {
                assert(b == removal_end(v@, pat@, i as int));
            }
            let value = copy_range(v, j1, b);
            let mut spliced = copy_range(v, 0, i);
            let mut k = b;
            while k < v.len()
                invariant
                    b <= k <= v@.len(),
                    spliced@ =~= v@.subrange(0, i as int) + v@.subrange(b as int, k as int),
                decreases v@.len() - k,
            {
                spliced.push(v[k]);
                k = k + 1;
            }
            proof {
                assert(spliced@ =~= v@.subrange(0, i as int) + v@.subrange(
                    b as int,
                    v@.len() as int,
                ));
            }
            let rest = trim_chars(&spliced);
            (Some(value), rest)
        },
    }
}

/// Finds the first line break at or after `from`.
fn line_end_at(v: &Vec<char>, from: usize) -> (r: usize)
    requires
        from <= v@.len(),
    ensures
        r == line_end(v@, from as int),
        from <= r <= v@.len(),
{
    proof {
        lemma_line_end(v@, from as int);
    }
    let mut j = from;
    while j < v.len() && v[j] != '\n'
        invariant
            from <= j <= v@.len(),
            line_end(v@, from as int) == line_end(v@, j as int),
        decreases v@.len() - j,
    {
        j = j + 1;
    }
    j
}

/// Extracts the `status:` declaration from a document's raw text, returning
/// the captured value, if any, and the text with the matched occurrence
/// removed and trimmed.
pub fn extract_status_from_adr_content(content: &str) -> (r: (Option<String>, String))
    ensures
        (r.0 is Some) == (extract_value(content@, "status:"@) is Some),
        r.0 matches Some(s) ==> extract_value(content@, "status:"@) == Some(s@),
        r.1@ == extract_rest(content@, "status:"@),
{
    let cs = chars_vec(content);
    let pat = chars_vec("status:");
    let (value, rest) = extract_labelled(&cs, &pat);
    let value_s = match value {
        Some(vc) => Some(string_from_chars(&vc)),
        None => None,
    };
    (value_s, string_from_chars(&rest))
}

/// Extracts the `date:` declaration from a document's raw text, in the same
/// way as the status extraction.
pub fn extract_date_from_adr_content(content: &str) -> (r: (Option<String>, String))
    ensures
        (r.0 is Some) == (extract_value(content@, "date:"@) is Some),
        r.0 matches Some(s) ==> extract_value(content@, "date:"@) == Some(s@),
        r.1@ == extract_rest(content@, "date:"@),
{
    let cs = chars_vec(content);
    let pat = chars_vec("date:");
    let (value, rest) = extract_labelled(&cs, &pat);
    let value_s = match value {
        Some(vc) => Some(string_from_chars(&vc)),
        None => None,
    };
    (value_s, string_from_chars(&rest))
}

/// Law: when a document contains no occurrence of the label, extraction
/// captures nothing and hands the text back unchanged.
pub proof fn lemma_extract_absent(s: Seq<char>, pat: Seq<char>)
    requires
        forall|i: int| !ci_match_at(s, i, pat),
    ensures
        extract_value(s, pat) is None,
        extract_rest(s, pat) == s,
{
    lemma_no_match_from(s, pat, 0);
}

proof fn lemma_no_match_from(s: Seq<char>, pat: Seq<char>, i: int)
    requires
        0 <= i <= s.len(),
        forall|j: int| !ci_match_at(s, j, pat),
    ensures
        first_match_from(s, pat, i) is None,
    decreases s.len() - i,
{
    if i + pat.len() <= s.len() {
        lemma_no_match_from(s, pat, i + 1);
    }
}

/// Law: when the label occurs, with its leftmost occurrence at `i`, the
/// captured value is exactly the trimmed remainder of that line, and the
/// remaining text is the input with exactly the region from the label to
/// the end of the value spliced out, then trimmed. In particular, whatever
/// characters the value holds, nothing outside that single region is removed.
pub proof fn lemma_extract_found(s: Seq<char>, pat: Seq<char>, i: int)
    requires
        ci_match_at(s, i, pat),
        forall|j: int| 0 <= j < i ==> !ci_match_at(s, j, pat),
    ensures
        first_match_from(s, pat, 0) == Some(i),
        ({
            let j1 = ws_run_end(s, i + pat.len());
            let b = removal_end(s, pat, i);
            let value = s.subrange(j1, b);
            &&& extract_value(s, pat) == Some(value)
            &&& extract_rest(s, pat) == trim(
                s.subrange(0, i) + s.subrange(b, s.len() as int),
            )
            &&& (value.len() > 0 ==> !is_ws(value[0]) && !is_ws(value[value.len() - 1]))
        }),
{
    lemma_first_match_found(s, pat, 0, i);
    let j0 = i + pat.len();
    let j1 = ws_run_end(s, j0);
    let b = removal_end(s, pat, i);
    lemma_removal_end(s, pat, i);
    lemma_ws_run_end(s, j0);
    let value = s.subrange(j1, b);
    if value.len() > 0 {
        assert(j1 < s.len());
        let e = line_end(s, j1);
        lemma_line_end(s, j1);
        lemma_trim_end_idx(s, e);
        assert(!is_ws(value[0]));
        assert(value[value.len() - 1] == s[b - 1]);
        assert(!is_ws(s[b - 1]));
    }
}

/// A found leftmost match lies inside the text and satisfies the match
/// predicate there.
pub proof fn lemma_first_match_props(s: Seq<char>, pat: Seq<char>, from: int)
    requires
        0 <= from <= s.len(),
    ensures
        first_match_from(s, pat, from) matches Some(i) ==> from <= i && ci_match_at(s, i, pat),
    decreases s.len() - from,
{
    if from + pat.len() <= s.len() && !ci_match_at(s, from, pat) {
        lemma_first_match_props(s, pat, from + 1);
    }
}

proof fn lemma_first_match_found(s: Seq<char>, pat: Seq<char>, from: int, i: int)
    requires
        0 <= from <= i,
        i <= s.len(),
        ci_match_at(s, i, pat),
        forall|j: int| from <= j < i ==> !ci_match_at(s, j, pat),
    ensures
        first_match_from(s, pat, from) == Some(i),
    decreases i - from,
{
    if from < i {
        lemma_first_match_found(s, pat, from + 1, i);
    }
}

} // verus!
