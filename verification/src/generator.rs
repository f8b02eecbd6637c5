//! The document pipeline: parses raw documents into records with their
//! extracted metadata, sorts them by name, builds the navigation index, and
//! composes each document's final output from the page template.

use vstd::prelude::*;
use crate::compose::{append_range, match_at, subst, substitute_template};
use crate::extract::{
    extract_date_from_adr_content, extract_rest, extract_status_from_adr_content, extract_value,
};
use crate::files::File;
use crate::parse::{generate_adr_html, md_tree};
use crate::render::render_doc;
use crate::text::{
    chars_vec, copy_range, lemma_lex_le_total, lemma_lex_le_trans, lex_le, name_le,
    string_from_chars,
};
use vstd::string::StringExecFns;

verus! {

/// One document after metadata extraction: its name, the body with the
/// metadata lines removed, and the extracted status and date ("" if absent).
pub struct ParsedFile {
    pub name: String,
    pub content: String,
    pub status: String,
    pub date: String,
}

/// The mathematical content of a [`ParsedFile`].
pub struct DocInfo {
    pub name: Seq<char>,
    pub body: Seq<char>,
    pub status: Seq<char>,
    pub date: Seq<char>,
}

impl View for ParsedFile {
    type V = DocInfo;

    open spec fn view(&self) -> DocInfo {
        DocInfo {
            name: self.name@,
            body: self.content@,
            status: self.status@,
            date: self.date@,
        }
    }
}

/// The record that metadata extraction derives from one raw document: the
/// status pass runs first, the date pass runs over the remaining text.
pub open spec fn parse_doc(name: Seq<char>, content: Seq<char>) -> DocInfo {
    let rest1 = extract_rest(content, "status:"@);
    DocInfo {
        name: name,
        body: extract_rest(rest1, "date:"@),
        status: match extract_value(content, "status:"@) {
            Some(v) => v,
            None => Seq::empty(),
        },
        date: match extract_value(rest1, "date:"@) {
            Some(v) => v,
            None => Seq::empty(),
        },
    }
}

/// The views of a sequence of parsed documents.
pub open spec fn doc_views(s: Seq<ParsedFile>) -> Seq<DocInfo> {
    s.map_values(|p: ParsedFile| p@)
}

/// The records that extraction derives from a sequence of raw documents.
pub open spec fn file_docs(s: Seq<File>) -> Seq<DocInfo> {
    s.map_values(|f: File| parse_doc(f.name@, f.content@))
}

/// Stable insertion of a record into a sorted run: the record lands after
/// every earlier record whose name does not exceed its own.
pub open spec fn insert_doc(t: Seq<DocInfo>, x: DocInfo) -> Seq<DocInfo>
    decreases t.len(),
{
    if t.len() == 0 {
        seq![x]
    } else if lex_le(t.last().name, x.name) {
        t.push(x)
    } else {
        insert_doc(t.drop_last(), x).push(t.last())
    }
}

/// Insertion sort of document records by name, in the case-sensitive
/// lexicographic order; the comparator is total, so the sort is defined for
/// every input.
pub open spec fn sort_docs(s: Seq<DocInfo>) -> Seq<DocInfo>
    decreases s.len(),
{
    if s.len() == 0 {
        Seq::empty()
    } else {
        insert_doc(sort_docs(s.drop_last()), s.last())
    }
}

/// Every adjacent pair of a sorted run is ordered by name.
pub open spec fn sorted_by_name(s: Seq<DocInfo>) -> bool {
    forall|i: int, j: int| 0 <= i < j < s.len() ==> lex_le(#[trigger] s[i].name, #[trigger] s[j].name)
}

/// Inserting one record grows the run by one.
pub proof fn lemma_insert_doc_len(t: Seq<DocInfo>, x: DocInfo)
    ensures
        insert_doc(t, x).len() == t.len() + 1,
    decreases t.len(),
{
    if t.len() > 0 && !lex_le(t.last().name, x.name) {
        lemma_insert_doc_len(t.drop_last(), x);
    }
}

/// Sorting keeps the number of records.
pub proof fn lemma_sort_docs_len(s: Seq<DocInfo>)
    ensures
        sort_docs(s).len() == s.len(),
    decreases s.len(),
{
    if s.len() > 0 {
        lemma_sort_docs_len(s.drop_last());
        lemma_insert_doc_len(sort_docs(s.drop_last()), s.last());
    }
}

/// Every record of an insertion result is the inserted record or one of the
/// run it was inserted into.
pub proof fn lemma_insert_doc_elems(t: Seq<DocInfo>, x: DocInfo)
    ensures
        forall|i: int|
            0 <= i < insert_doc(t, x).len() ==> insert_doc(t, x)[i] == x || t.contains(
                #[trigger] insert_doc(t, x)[i],
            ),
    decreases t.len(),
{
    lemma_insert_doc_len(t, x);
    if t.len() == 0 {
    } else if lex_le(t.last().name, x.name) {
        assert forall|i: int| 0 <= i < insert_doc(t, x).len() implies insert_doc(t, x)[i] == x
            || t.contains(insert_doc(t, x)[i]) by {
            if i < t.len() {
                assert(insert_doc(t, x)[i] == t[i]);
            }
        }
    } else {
        lemma_insert_doc_elems(t.drop_last(), x);
        let r = insert_doc(t.drop_last(), x);
        assert forall|i: int| 0 <= i < insert_doc(t, x).len() implies insert_doc(t, x)[i] == x
            || t.contains(insert_doc(t, x)[i]) by {
            if i < r.len() {
                assert(insert_doc(t, x)[i] == r[i]);
                if r[i] != x {
                    let j = choose|j: int| 0 <= j < t.drop_last().len() && t.drop_last()[j] == r[i];
                    assert(t[j] == r[i]);
                }
            } else {
                assert(insert_doc(t, x)[i] == t.last());
                assert(t[t.len() - 1] == t.last());
            }
        }
    }
}

/// Law: inserting into a sorted run keeps it sorted.
pub proof fn lemma_insert_doc_sorted(t: Seq<DocInfo>, x: DocInfo)
    requires
        sorted_by_name(t),
    ensures
        sorted_by_name(insert_doc(t, x)),
    decreases t.len(),
{
    lemma_insert_doc_len(t, x);
    if t.len() == 0 {
    } else if lex_le(t.last().name, x.name) {
        let r = t.push(x);
        assert forall|i: int, j: int| 0 <= i < j < r.len() implies lex_le(r[i].name, r[j].name) by {
            if j == r.len() - 1 {
                if i < t.len() - 1 {
                    assert(lex_le(t[i].name, t.last().name));
                    lemma_lex_le_trans(t[i].name, t.last().name, x.name);
                }
            }
        }
    } else {
        lemma_lex_le_total(t.last().name, x.name);
        assert(lex_le(x.name, t.last().name));
        let dl = t.drop_last();
        assert(sorted_by_name(dl)) by {
            assert forall|i: int, j: int| 0 <= i < j < dl.len() implies lex_le(
                dl[i].name,
                dl[j].name,
            ) by {
                assert(dl[i] == t[i] && dl[j] == t[j]);
            }
        }
        lemma_insert_doc_sorted(dl, x);
        lemma_insert_doc_elems(dl, x);
        lemma_insert_doc_len(dl, x);
        let r0 = insert_doc(dl, x);
        let r = r0.push(t.last());
        assert forall|i: int, j: int| 0 <= i < j < r.len() implies lex_le(r[i].name, r[j].name) by {
            if j == r.len() - 1 {
                assert(r[i] == r0[i]);
                if r0[i] == x {
                    assert(lex_le(x.name, t.last().name));
                } else {
                    let k = choose|k: int| 0 <= k < dl.len() && dl[k] == r0[i];
                    if k < t.len() - 1 {
                        assert(dl[k] == t[k]);
                        assert(lex_le(t[k].name, t.last().name));
                    }
                }
            } else {
                assert(r[i] == r0[i] && r[j] == r0[j]);
            }
        }
    }
}

/// Law: the sort leaves every run of records sorted by name.
pub proof fn lemma_sort_docs_sorted(s: Seq<DocInfo>)
    ensures
        sorted_by_name(sort_docs(s)),
    decreases s.len(),
{
    if s.len() > 0 {
        lemma_sort_docs_sorted(s.drop_last());
        lemma_insert_doc_sorted(sort_docs(s.drop_last()), s.last());
    }
}

/// Law: the sort is a permutation; it keeps exactly the records it was
/// given.
pub proof fn lemma_sort_docs_permutes(s: Seq<DocInfo>)
    ensures
        sort_docs(s).to_multiset() == s.to_multiset(),
    decreases s.len(),
{
    broadcast use vstd::seq_lib::group_to_multiset_ensures;

    if s.len() > 0 {
        lemma_sort_docs_permutes(s.drop_last());
        lemma_insert_doc_multiset(sort_docs(s.drop_last()), s.last());
        assert(s =~= s.drop_last().push(s.last()));
        assert(s.to_multiset() =~= s.drop_last().to_multiset().insert(s.last()));
    }
}

proof fn lemma_insert_doc_multiset(t: Seq<DocInfo>, x: DocInfo)
    ensures
        insert_doc(t, x).to_multiset() == t.to_multiset().insert(x),
    decreases t.len(),
{
    broadcast use vstd::seq_lib::group_to_multiset_ensures;

    if t.len() == 0 {
        assert(insert_doc(t, x) =~= Seq::<DocInfo>::empty().push(x));
        assert(t =~= Seq::<DocInfo>::empty());
    } else if lex_le(t.last().name, x.name) {
    } else {
        lemma_insert_doc_multiset(t.drop_last(), x);
        assert(t =~= t.drop_last().push(t.last()));
        assert(t.to_multiset() =~= t.drop_last().to_multiset().insert(t.last()));
        assert(insert_doc(t, x).to_multiset() =~= t.drop_last().to_multiset().insert(
            x,
        ).insert(t.last()));
        assert(t.drop_last().to_multiset().insert(x).insert(t.last())
            =~= t.drop_last().to_multiset().insert(t.last()).insert(x));
    }
}

/// Where an insertion lands, the result is the run split at that point with
/// the record between the halves.
proof fn lemma_insert_doc_at(t: Seq<DocInfo>, x: DocInfo, idx: int)
    requires
        0 <= idx <= t.len(),
        idx == 0 || lex_le(t[idx - 1].name, x.name),
        forall|j: int| idx <= j < t.len() ==> !lex_le(#[trigger] t[j].name, x.name),
    ensures
        insert_doc(t, x) == t.subrange(0, idx) + seq![x] + t.subrange(idx, t.len() as int),
    decreases t.len(),
{
    if t.len() == 0 {
        assert(insert_doc(t, x) =~= t.subrange(0, idx) + seq![x] + t.subrange(idx, t.len() as int));
    } else if lex_le(t.last().name, x.name) {
        assert(idx == t.len());
        assert(insert_doc(t, x) =~= t.subrange(0, idx) + seq![x] + t.subrange(idx, t.len() as int));
    } else {
        assert(idx < t.len());
        let dl = t.drop_last();
        assert(forall|j: int| idx <= j < dl.len() ==> !lex_le(#[trigger] dl[j].name, x.name));
        lemma_insert_doc_at(dl, x, idx);
        assert(insert_doc(t, x) =~= t.subrange(0, idx) + seq![x] + t.subrange(idx, t.len() as int));
    }
}

/// Inserts a parsed document into the output at its sorted position.
fn insert_parsed(out: &mut Vec<ParsedFile>, x: ParsedFile)
    ensures
        doc_views(final(out)@) == insert_doc(doc_views(old(out)@), x@),
{
    let ghost t = doc_views(old(out)@);
    let xn = chars_vec(x.name.as_str());
    let mut idx: usize = out.len();
    loop
        invariant
            idx <= out@.len(),
            out@ == old(out)@,
            t == doc_views(old(out)@),
            xn@ == x.name@,
            forall|j: int| idx <= j < out@.len() ==> !lex_le((#[trigger] t[j]).name, x@.name),
        ensures
            idx <= out@.len(),
            out@ == old(out)@,
            t == doc_views(old(out)@),
            idx == 0 || lex_le(t[idx - 1].name, x@.name),
            forall|j: int| idx <= j < out@.len() ==> !lex_le((#[trigger] t[j]).name, x@.name),
        decreases idx,
    {
        if idx == 0 {
            break;
        }
        let prev = chars_vec(out[idx - 1].name.as_str());
        proof {
            assert(t[idx as int - 1] == out@[idx as int - 1]@);
            assert(t[idx as int - 1].name == out@[idx as int - 1].name@);
            assert(prev@ == out@[idx as int - 1].name@);
        }
        if name_le(&prev, &xn) {
            break;
        }
        idx = idx - 1;
    }
    proof {
        lemma_insert_doc_at(t, x@, idx as int);
    }
    out.insert(idx, x);
    proof {
        assert(doc_views(out@) =~= t.subrange(0, idx as int) + seq![x@] + t.subrange(
            idx as int,
            t.len() as int,
        ));
    }
}

/// Parses every raw document: extracts status and date from its content,
/// keeps its name, and hands the records back sorted by name.
pub fn parse_files(files: &Vec<File>) -> (r: Vec<ParsedFile>)
    ensures
        doc_views(r@) == sort_docs(file_docs(files@)),
{
    let ghost target = file_docs(files@);
    let mut out: Vec<ParsedFile> = Vec::new();
    proof {
        assert(target.take(0) =~= Seq::<DocInfo>::empty());
        assert(doc_views(out@) =~= Seq::<DocInfo>::empty());
    }
    let mut k: usize = 0;
    while k < files.len()
        invariant
            k <= files@.len(),
            target == file_docs(files@),
            doc_views(out@) == sort_docs(target.take(k as int)),
        decreases files@.len() - k,
    {
        let f = &files[k];
        let (status, c1) = extract_status_from_adr_content(f.content.as_str());
        let (date, c2) = extract_date_from_adr_content(c1.as_str());
        let pf = ParsedFile {
            name: f.name.clone(),
            content: c2,
            status: match status {
                Some(s) => s,
                None => String::new(),
            },
            date: match date {
                Some(s) => s,
                None => String::new(),
            },
        };
        proof {
            assert(pf@ == parse_doc(f.name@, f.content@));
            assert(target[k as int] == parse_doc(f.name@, f.content@));
        }
        insert_parsed(&mut out, pf);
        proof {
            assert(target.take(k as int + 1).drop_last() =~= target.take(k as int));
            assert(target.take(k as int + 1).last() == target[k as int]);
        }
        k = k + 1;
    }
    proof {
        assert(target.take(files@.len() as int) =~= target);
    }
    out
}

/// A sequence ends with the given suffix.
pub open spec fn ends_with(s: Seq<char>, suffix: Seq<char>) -> bool {
    s.len() >= suffix.len() && s.subrange(s.len() - suffix.len(), s.len() as int) == suffix
}

/// A document's output name: the source extension replaced by the output
/// extension; a name without the source extension is kept as it is.
pub open spec fn html_name(name: Seq<char>) -> Seq<char> {
    if ends_with(name, ".md"@) {
        name.subrange(0, name.len() - ".md"@.len()) + ".html"@
    } else {
        name
    }
}

/// A document's display label: the name with the source extension stripped.
pub open spec fn display_name(name: Seq<char>) -> Seq<char> {
    if ends_with(name, ".md"@) {
        name.subrange(0, name.len() - ".md"@.len())
    } else {
        name
    }
}

/// Converts a document name to its output name, per [`html_name`].
fn to_html_name(name: &str) -> (r: String)
    ensures
        r@ == html_name(name@),
{
    let v = chars_vec(name);
    let suf = chars_vec(".md");
    let n = v.len();
    if suf.len() <= n && match_at(&v, n - suf.len(), &suf) {
        proof {
            assert(v@.subrange(n - suf@.len(), n - suf@.len() + suf@.len()) =~= v@.subrange(
                v@.len() - suf@.len(),
                v@.len() as int,
            ));
        }
        let mut out = copy_range(&v, 0, n - suf.len());
        let ext = chars_vec(".html");
        append_range(&mut out, &ext, 0, ext.len());
        proof {
            assert(ext@.subrange(0, ext@.len() as int) =~= ext@);
            assert(out@ =~= html_name(name@));
        }
        string_from_chars(&out)
    } else {
        proof {
            if ends_with(name@, ".md"@) {
                assert(v@.subrange(n - suf@.len(), n - suf@.len() + suf@.len()) =~= v@.subrange(
                    v@.len() - suf@.len(),
                    v@.len() as int,
                ));
            }
        }
        String::from_str(name)
    }
}

/// Strips the source extension from a document name, per [`display_name`].
fn to_display_name(name: &str) -> (r: String)
    ensures
        r@ == display_name(name@),
{
    let v = chars_vec(name);
    let suf = chars_vec(".md");
    let n = v.len();
    if suf.len() <= n && match_at(&v, n - suf.len(), &suf) {
        proof {
            assert(v@.subrange(n - suf@.len(), n - suf@.len() + suf@.len()) =~= v@.subrange(
                v@.len() - suf@.len(),
                v@.len() as int,
            ));
        }
        let out = copy_range(&v, 0, n - suf.len());
        string_from_chars(&out)
    } else {
        proof {
            if ends_with(name@, ".md"@) {
                assert(v@.subrange(n - suf@.len(), n - suf@.len() + suf@.len()) =~= v@.subrange(
                    v@.len() - suf@.len(),
                    v@.len() as int,
                ));
            }
        }
        String::from_str(name)
    }
}

/// The reserved name of the index document, which the navigation index
/// never lists.
pub open spec fn index_doc_name() -> Seq<char> {
    "index.md"@
}

/// The list item one record contributes to the navigation index: a link to
/// its output name labelled `[status]display-name` — or nothing at all for
/// the index document itself.
pub open spec fn entry_html(d: DocInfo) -> Seq<char> {
    if d.name == index_doc_name() {
        Seq::empty()
    } else {
        "<li><a href=\""@ + html_name(d.name) + "\">["@ + d.status + "]"@ + display_name(d.name)
            + "</a></li>"@
    }
}

/// The items of the navigation index for a run of records, in order.
pub open spec fn list_items(s: Seq<DocInfo>) -> Seq<char>
    decreases s.len(),
{
    if s.len() == 0 {
        Seq::empty()
    } else {
        entry_html(s[0]) + list_items(s.drop_first())
    }
}

/// The whole navigation index fragment.
pub open spec fn list_adrs_html(s: Seq<DocInfo>) -> Seq<char> {
    "<ul>"@ + list_items(s) + "</ul>"@
}

/// Index items distribute over concatenation of record runs.
pub proof fn lemma_list_items_app(a: Seq<DocInfo>, b: Seq<DocInfo>)
    ensures
        list_items(a + b) == list_items(a) + list_items(b),
    decreases a.len(),
{
    if a.len() == 0 {
        assert(a + b =~= b);
        assert(list_items(a) + list_items(b) =~= list_items(b));
    } else {
        assert((a + b).drop_first() =~= a.drop_first() + b);
        lemma_list_items_app(a.drop_first(), b);
        assert((a + b)[0] == a[0]);
        assert(entry_html(a[0]) + (list_items(a.drop_first()) + list_items(b)) =~= (entry_html(
            a[0],
        ) + list_items(a.drop_first())) + list_items(b));
    }
}

/// Extending a record run by one record appends that record's item.
pub proof fn lemma_list_items_snoc(s: Seq<DocInfo>, i: int)
    requires
        0 <= i < s.len(),
    ensures
        list_items(s.take(i + 1)) == list_items(s.take(i)) + entry_html(s[i]),
{
    assert(s.take(i + 1) =~= s.take(i) + seq![s[i]]);
    lemma_list_items_app(s.take(i), seq![s[i]]);
    assert(seq![s[i]].drop_first() =~= Seq::<DocInfo>::empty());
    assert(list_items(Seq::<DocInfo>::empty()) == Seq::<char>::empty());
    assert(list_items(seq![s[i]]) == entry_html(s[i]) + Seq::<char>::empty());
    assert(entry_html(s[i]) + Seq::<char>::empty() =~= entry_html(s[i]));
}

/// The records of a run that are not the index document, in order.
pub open spec fn non_index_docs(s: Seq<DocInfo>) -> Seq<DocInfo>
    decreases s.len(),
{
    if s.len() == 0 {
        Seq::empty()
    } else if s[0].name == index_doc_name() {
        non_index_docs(s.drop_first())
    } else {
        seq![s[0]] + non_index_docs(s.drop_first())
    }
}

/// Law: the navigation index of any record run equals the index of that run
/// with every record named as the index document removed — whatever its
/// position, the index document never contributes an item.
pub proof fn lemma_index_excluded(s: Seq<DocInfo>)
    ensures
        list_items(s) == list_items(non_index_docs(s)),
        forall|i: int|
            0 <= i < non_index_docs(s).len() ==> (#[trigger] non_index_docs(s)[i]).name
                != index_doc_name(),
    decreases s.len(),
{
    if s.len() == 0 {
    } else {
        lemma_index_excluded(s.drop_first());
        if s[0].name == index_doc_name() {
            assert(entry_html(s[0]) =~= Seq::<char>::empty());
            assert(entry_html(s[0]) + list_items(s.drop_first()) =~= list_items(s.drop_first()));
        } else {
            let r = seq![s[0]] + non_index_docs(s.drop_first());
            assert(r[0] == s[0]);
            assert(r.drop_first() =~= non_index_docs(s.drop_first()));
            assert(list_items(r) == entry_html(s[0]) + list_items(non_index_docs(s.drop_first())));
            assert forall|i: int| 0 <= i < r.len() implies (#[trigger] r[i]).name
                != index_doc_name() by {
                if i > 0 {
                    assert(r[i] == non_index_docs(s.drop_first())[i - 1]);
                }
            }
        }
    }
}

/// Builds the navigation index fragment for the given records: one linked
/// item per record, in the given order, skipping the index document.
pub fn generate_list_adrs(adrs: &Vec<ParsedFile>) -> (r: String)
    ensures
        r@ == list_adrs_html(doc_views(adrs@)),
{
    let ghost docs = doc_views(adrs@);
    let mut result = String::from_str("<ul>");
    proof {
        assert(docs.take(0) =~= Seq::<DocInfo>::empty());
        assert(result@ =~= "<ul>"@ + list_items(docs.take(0)));
    }
    let mut k: usize = 0;
    while k < adrs.len()
        invariant
            k <= adrs@.len(),
            docs == doc_views(adrs@),
            result@ == "<ul>"@ + list_items(docs.take(k as int)),
        decreases adrs@.len() - k,
    {
        let p = &adrs[k];
        proof {
            assert(docs[k as int] == adrs@[k as int]@);
        }
        let namev = chars_vec(p.name.as_str());
        let idxname = chars_vec("index.md");
        let is_index = namev.len() == idxname.len() && match_at(&namev, 0, &idxname);
        proof {
            if namev@.len() == idxname@.len() {
                assert(namev@.subrange(0, idxname@.len() as int) =~= namev@);
            }
            assert(is_index == (p.name@ == index_doc_name()));
        }
        let ghost prev = result@;
        if !is_index {
            result.append("<li><a href=\"");
            let href = to_html_name(p.name.as_str());
            result.append(href.as_str());
            result.append("\">[");
            result.append(p.status.as_str());
            result.append("]");
            let disp = to_display_name(p.name.as_str());
            result.append(disp.as_str());
            result.append("</a></li>");
            proof {
                assert(result@ =~= prev + entry_html(docs[k as int]));
            }
        } else {
            proof {
                assert(entry_html(docs[k as int]) =~= Seq::<char>::empty());
                assert(result@ =~= prev + entry_html(docs[k as int]));
            }
        }
        proof {
            lemma_list_items_snoc(docs, k as int);
            assert(result@ =~= "<ul>"@ + list_items(docs.take(k as int + 1)));
        }
        k = k + 1;
    }
    proof {
        assert(docs.take(adrs@.len() as int) =~= docs);
    }
    result.append("</ul>");
    proof {
        assert(result@ =~= list_adrs_html(docs));
    }
    result
}

/// Runs the whole pipeline over a set of raw documents: extraction, a sort
/// by name, rendering through the external markup parser, the shared
/// navigation index, and template composition. One output document per
/// input document, its name converted to the output extension.
pub fn process_files(files: &Vec<File>, template: &str) -> (out: Vec<File>)
    ensures
        out@.len() == files@.len(),
        forall|k: int|
            0 <= k < out@.len() ==> {
                let docs = sort_docs(file_docs(files@));
                (#[trigger] out@[k]).name@ == html_name(docs[k].name) && out@[k].content@
                    == subst(
                    template@,
                    "{{ADR_CONTENT}}"@,
                    render_doc(md_tree(docs[k].body)),
                    "{{LIST_ADRS}}"@,
                    list_adrs_html(docs),
                )
            },
{
    let parsed = parse_files(files);
    let ghost docs = sort_docs(file_docs(files@));
    let list = generate_list_adrs(&parsed);
    let mut out: Vec<File> = Vec::new();
    let mut k: usize = 0;
    while k < parsed.len()
        invariant
            k <= parsed@.len(),
            docs == sort_docs(file_docs(files@)),
            doc_views(parsed@) == docs,
            list@ == list_adrs_html(docs),
            out@.len() == k,
            forall|j: int|
                0 <= j < k ==> (#[trigger] out@[j]).name@ == html_name(docs[j].name)
                    && out@[j].content@ == subst(
                    template@,
                    "{{ADR_CONTENT}}"@,
                    render_doc(md_tree(docs[j].body)),
                    "{{LIST_ADRS}}"@,
                    list_adrs_html(docs),
                ),
        decreases parsed@.len() - k,
    {
        let p = &parsed[k];
        proof {
            assert(docs[k as int] == parsed@[k as int]@);
        }
        let html = match generate_adr_html(p.content.as_str()) {
            Ok(h) => h,
            Err(_) => {
                proof {
                    assert(false);
                }
                String::new()
            },
        };
        let composed = substitute_template(template, html.as_str(), list.as_str());
        let name = to_html_name(p.name.as_str());
        out.push(File { name, content: composed });
        k = k + 1;
    }
    proof {
        assert(doc_views(parsed@).len() == parsed@.len());
        lemma_sort_docs_len(file_docs(files@));
        assert(file_docs(files@).len() == files@.len());
    }
    out
}

} // verus!
