//! The rules that turn a scanned Sphinx HTML tree into a [`DocsIndex`]:
//! which versions exist and which comes first, which files are pages, what a
//! page's slug and title are, and in what order a language's pages are listed.
//!
//! Reading the directory tree is left to the caller, which hands over plain
//! values: the parsed `versions.json`, each HTML file's relative path and
//! contents, and the raw text of each language's `toc.json`.
use vstd::prelude::*;

use crate::docs::{
    no_slash, page_key, pages_slash_free, summary_views, toc_key, DocPage, DocPageView, DocsIndex,
    VersionsManifest,
};
use crate::models::{DocPageSummary, SummaryView};
use crate::text::{
    chars_of, has_substring, has_suffix, lemma_lex_le_total, lemma_lex_le_transitive, lex_le, owned, push_char,
    str_eq, str_le, str_views, string_from_range,
};

verus! {

broadcast use vstd::seq_lib::group_to_multiset_ensures;

// ---------------------------------------------------------------------------
// Versions
// ---------------------------------------------------------------------------

/// The entries of `s` that are not empty, in order.
pub open spec fn non_empty_only(s: Seq<Seq<char>>) -> Seq<Seq<char>>
    decreases s.len(),
{
    if s.len() == 0 {
        s
    } else if s.last().len() > 0 {
        non_empty_only(s.drop_last()).push(s.last())
    } else {
        non_empty_only(s.drop_last())
    }
}

/// The first index at which `x` occurs in `s`, if any.
pub open spec fn first_index_of(s: Seq<Seq<char>>, x: Seq<char>) -> Option<int>
    decreases s.len(),
{
    if s.len() == 0 {
        None
    } else if s[0] == x {
        Some(0)
    } else {
        match first_index_of(s.drop_first(), x) {
            Some(i) => Some(i + 1),
            None => None,
        }
    }
}

proof fn lemma_first_index_of(s: Seq<Seq<char>>, x: Seq<char>)
    ensures
        match first_index_of(s, x) {
            Some(i) => 0 <= i < s.len() && s[i] == x && forall|j: int| 0 <= j < i ==> s[j] != x,
            None => forall|j: int| 0 <= j < s.len() ==> s[j] != x,
        },
    decreases s.len(),
{
    if s.len() > 0 && s[0] != x {
        lemma_first_index_of(s.drop_first(), x);
        assert forall|j: int| 1 <= j < s.len() implies s[j] == s.drop_first()[j - 1] by {}
    }
}

/// The versions list of a manifest: empty names dropped and, when `latest`
/// names one of the remaining entries, its first occurrence moved to the front.
pub open spec fn spec_order_versions(versions: Seq<Seq<char>>, latest: Option<Seq<char>>) -> Seq<
    Seq<char>,
> {
    let f = non_empty_only(versions);
    match latest {
        Some(l) => match first_index_of(f, l) {
            Some(p) => seq![f[p]] + f.remove(p),
            None => f,
        },
        None => f,
    }
}

/// `j` is the first index of `x` in `s`.
proof fn lemma_first_index_of_is(s: Seq<Seq<char>>, x: Seq<char>, j: int)
    requires
        0 <= j < s.len(),
        s[j] == x,
        forall|k: int| 0 <= k < j ==> s[k] != x,
    ensures
        first_index_of(s, x) == Some(j),
{
    lemma_first_index_of(s, x);
    match first_index_of(s, x) {
        Some(i) => {
            if i < j {
                assert(s[i] != x);
            }
            if j < i {
                assert(s[j] != x);
            }
        },
        None => {
            assert(s[j] != x);
        },
    }
}

/// Orders the versions listed by a manifest, the default version first.
pub fn order_versions(versions: Vec<String>, latest: Option<String>) -> (r: Vec<String>)
    ensures
        str_views(r@) == spec_order_versions(str_views(versions@), latest.deep_view()),
{
    let ghost vv = str_views(versions@);
    let mut f: Vec<String> = Vec::new();
    let mut i: usize = 0;
    while i < versions.len()
        invariant
            i <= versions.len(),
            vv == str_views(versions@),
            str_views(f@) == non_empty_only(vv.take(i as int)),
        decreases versions.len() - i,
    {
        let ghost before = f@;
        assert(vv.take(i + 1).drop_last() =~= vv.take(i as int));
        if !versions[i].as_str().is_empty() {
            f.push(versions[i].clone());
            assert(str_views(f@) =~= str_views(before).push(vv[i as int]));
        }
        i = i + 1;
    }
    assert(vv.take(i as int) =~= vv);
    let ghost fv = str_views(f@);
    match latest {
        None => f,
        Some(l) => {
            let mut p: usize = 0;
            while p < f.len() && !(f[p] == l)
                invariant
                    p <= f.len(),
                    fv == str_views(f@),
                    forall|k: int| 0 <= k < p ==> fv[k] != l@,
                decreases f.len() - p,
            {
                p = p + 1;
            }
            if p < f.len() {
                proof {
                    lemma_first_index_of_is(fv, l@, p as int);
                }
                let x = f.remove(p);
                f.insert(0, x);
                assert(str_views(f@) =~= seq![fv[p as int]] + fv.remove(p as int));
            } else {
                proof {
                    lemma_first_index_of(fv, l@);
                }
            }
            f
        },
    }
}

/// The name of the version that a tree without `versions.json` holds.
pub open spec fn legacy_version() -> Seq<char> {
    "latest"@
}

/// Which versions a docs tree holds, the default first, and whether they sit
/// in per-version directories (`false`) or the legacy single-version layout
/// with language directories at the root (`true`).
pub fn versions_to_scan(manifest: Option<VersionsManifest>) -> (r: (Vec<String>, bool))
    ensures
        match manifest {
            Some(m) => str_views(r.0@) == spec_order_versions(
                str_views(m.versions@),
                m.latest.deep_view(),
            ) && !r.1,
            None => str_views(r.0@) == seq![legacy_version()] && r.1,
        },
{
    match manifest {
        Some(m) => (order_versions(m.versions, m.latest), false),
        None => {
            let mut v: Vec<String> = Vec::new();
            v.push(String::from_str("latest"));
            assert(str_views(v@) =~= seq![legacy_version()]);
            (v, true)
        },
    }
}

/// The language directories scanned under each version, in scan order.
pub fn doc_languages() -> (r: Vec<String>)
    ensures
        str_views(r@) == seq!["zh"@, "en"@],
{
    let mut v: Vec<String> = Vec::new();
    v.push(String::from_str("zh"));
    v.push(String::from_str("en"));
    assert(str_views(v@) =~= seq!["zh"@, "en"@]);
    v
}

// ---------------------------------------------------------------------------
// Slugs
// ---------------------------------------------------------------------------

/// The index of the last `/` in `s`, or -1.
pub open spec fn last_slash(s: Seq<char>) -> int
    decreases s.len(),
{
    if s.len() == 0 {
        -1
    } else if s.last() == '/' {
        s.len() - 1
    } else {
        last_slash(s.drop_last())
    }
}

/// The last component of a `/`-separated relative path.
pub open spec fn file_name_of(rel: Seq<char>) -> Seq<char> {
    rel.subrange(last_slash(rel) + 1, rel.len() as int)
}

/// The directory part of a `/`-separated relative path (empty at the top).
pub open spec fn parent_of(rel: Seq<char>) -> Seq<char> {
    if last_slash(rel) < 0 {
        Seq::empty()
    } else {
        rel.subrange(0, last_slash(rel))
    }
}

/// A file name whose extension is `html`: it ends in `.html` after a non-empty stem.
pub open spec fn is_html_name(name: Seq<char>) -> bool {
    name.len() > 5 && has_suffix(name, ".html"@)
}

/// `s` with every backslash turned into a slash.
pub open spec fn forward_slashes(s: Seq<char>) -> Seq<char> {
    s.map_values(|c: char| if c == '\\' { '/' } else { c })
}

/// The slug of an HTML file at relative path `rel`: its path without the
/// `.html` extension, directories joined by `/`. `None` for files that are not HTML.
pub open spec fn spec_html_file_slug(rel: Seq<char>) -> Option<Seq<char>> {
    let name = file_name_of(rel);
    if !is_html_name(name) {
        None
    } else {
        let stem = name.subrange(0, name.len() - 5);
        let parent = parent_of(rel);
        let joined = if parent.len() == 0 || parent == "."@ {
            stem
        } else {
            parent + "/"@ + stem
        };
        Some(forward_slashes(joined))
    }
}

/// The slug of the file at relative path `rel` (directory components joined
/// by `/`, as produced by walking a language directory), or `None` when the
/// file is not an HTML page.
pub fn html_file_slug(rel: &str) -> (r: Option<String>)
    ensures
        r.deep_view() == spec_html_file_slug(rel@),
{
    let cs = chars_of(rel);
    let mut i: usize = cs.len();
    assert(cs@.take(cs.len() as int) =~= cs@);
    while i > 0 && cs[i - 1] != '/'
        invariant
            i <= cs.len(),
            cs@ == rel@,
            last_slash(rel@) == last_slash(cs@.take(i as int)),
        decreases i,
    {
        assert(cs@.take(i as int).drop_last() =~= cs@.take(i - 1));
        i = i - 1;
    }
    proof {
        if i > 0 {
            assert(cs@.take(i as int).last() == '/');
        }
        assert(last_slash(rel@) == i - 1);
        assert(file_name_of(rel@) =~= cs@.subrange(i as int, cs.len() as int));
    }
    let name_len = cs.len() - i;
    proof {
        reveal_strlit(".html");
    }
    if name_len <= 5 {
        return None;
    }
    let tail = string_from_range(&cs, cs.len() - 5, cs.len());
    if !str_eq(tail.as_str(), ".html") {
        proof {
            let name = file_name_of(rel@);
            assert(name =~= cs@.subrange(i as int, cs.len() as int));
            assert(name.subrange(name.len() - 5, name.len() as int) =~= tail@);
        }
        return None;
    }
    proof {
        let name = file_name_of(rel@);
        assert(name =~= cs@.subrange(i as int, cs.len() as int));
        assert(name.subrange(name.len() - 5, name.len() as int) =~= tail@);
    }
    let stem_end = cs.len() - 5;
    let mut joined: Vec<char> = Vec::new();
    let parent_is_dot = i == 2 && cs[0] == '.';
    let mut from = i;
    if i > 1 && !parent_is_dot {
        from = 0;
    }
    // `from..stem_end` covers `parent/stem` when there is a parent, `stem` otherwise.
    let mut k = from;
    while k < stem_end
        invariant
            from <= k <= stem_end,
            stem_end <= cs.len(),
            joined@ == forward_slashes(cs@.subrange(from as int, k as int)),
        decreases stem_end - k,
    {
        let c = cs[k];
        let mapped = if c == '\\' { '/' } else { c };
        joined.push(mapped);
        assert(forward_slashes(cs@.subrange(from as int, k + 1)) =~= forward_slashes(
            cs@.subrange(from as int, k as int),
        ).push(mapped));
        k = k + 1;
    }
    proof {
        reveal_strlit(".");
        reveal_strlit("/");
        let name = file_name_of(rel@);
        let stem = name.subrange(0, name.len() - 5);
        let parent = parent_of(rel@);
        assert(stem =~= cs@.subrange(i as int, stem_end as int));
        assert(is_html_name(name));
        if i <= 1 {
            assert(parent.len() == 0);
            assert(from == i);
        } else {
            assert(parent =~= cs@.subrange(0, i - 1));
            if parent_is_dot {
                assert(parent =~= "."@);
                assert(from == i);
            } else {
                if parent == "."@ {
                    assert(parent.len() == 1);
                    assert(parent[0] == cs@[0]);
                }
                assert(parent != "."@);
                assert(from == 0);
                assert(cs@.subrange(0, stem_end as int) =~= parent + "/"@ + stem);
            }
        }
        let joined_spec = if parent.len() == 0 || parent == "."@ {
            stem
        } else {
            parent + "/"@ + stem
        };
        assert(joined_spec =~= cs@.subrange(from as int, stem_end as int));
        assert(spec_html_file_slug(rel@) == Some(forward_slashes(joined_spec)));
    }
    Some(crate::text::string_from_chars(&joined))
}

// ---------------------------------------------------------------------------
// Titles
// ---------------------------------------------------------------------------

/// The pattern whose first group is a page's title.
pub open spec fn title_pattern() -> Seq<char> {
    "<title>(.*?)</title>"@
}

/// What `regex::Regex::new(pattern)` followed by `captures(text)` gives as the
/// text of capture group 1 (`None` when the pattern does not compile, nothing
/// matches, or the group did not take part in the match).
pub uninterp spec fn regex_first_group(pattern: Seq<char>, text: Seq<char>) -> Option<Seq<char>>;

/// What `html_escape::decode_html_entities` returns for `text`.
pub uninterp spec fn html_entities_decoded(text: Seq<char>) -> Seq<char>;

/// The title of a page: the entity-decoded text of its `<title>` element, or
/// `"Untitled"` when it has none.
pub open spec fn spec_page_title(html: Seq<char>) -> Seq<char> {
    match regex_first_group(title_pattern(), html) {
        Some(t) => html_entities_decoded(t),
        None => "Untitled"@,
    }
}

/// Compiles `pattern` with `regex::Regex::new` and returns the text of capture
/// group 1 of the leftmost-first match in `text`. The contract ties the
/// result to the two arguments and states one fact: a match of the title
/// pattern holds the text `<title>`, so text without it has none. The
/// regex semantics are not restated.
#[verifier::external_body]
fn regex_capture_first_group(pattern: &str, text: &str) -> (r: Option<String>)
    ensures
        r.deep_view() == regex_first_group(pattern@, text@),
        pattern@ == title_pattern() && !has_substring(text@, "<title>"@) ==> r is None,
{
    match regex::Regex::new(pattern) {
        Ok(re) => re.captures(text).and_then(|c| c.get(1)).map(|m| m.as_str().to_string()),
        Err(_) => None,
    }
}

/// `html_escape::decode_html_entities`: named and numeric character references
/// decoded. Text without any `&` comes back unchanged (the function only
/// starts a reference at `&`).
#[verifier::external_body]
fn decode_html_entities(text: &str) -> (r: String)
    ensures
        r@ == html_entities_decoded(text@),
        !text@.contains('&') ==> r@ == text@,
{
    html_escape::decode_html_entities(text).to_string()
}

/// The title shown for a page, given its decoded `<title>` text if it has one.
pub fn title_or_untitled(decoded: Option<String>) -> (r: String)
    ensures
        r@ == match decoded {
            Some(t) => t@,
            None => "Untitled"@,
        },
{
    match decoded {
        Some(t) => t,
        None => String::from_str("Untitled"),
    }
}

/// The title of a page, taken from its `<title>` element.
pub fn page_title(html: &str) -> (r: String)
    ensures
        r@ == spec_page_title(html@),
{
    let captured = regex_capture_first_group("<title>(.*?)</title>", html);
    let decoded = match captured {
        Some(t) => Some(decode_html_entities(t.as_str())),
        None => None,
    };
    title_or_untitled(decoded)
}

// ---------------------------------------------------------------------------
// Table-of-contents order
// ---------------------------------------------------------------------------

/// What `serde_json::from_str::<Vec<String>>` gives for `raw` (`None` on a parse error).
pub uninterp spec fn json_string_list(raw: Seq<char>) -> Option<Seq<Seq<char>>>;

/// Parses a JSON array of strings with `serde_json::from_str`; `None` when
/// `raw` is not such an array. The contract only ties the result to `raw`.
#[verifier::external_body]
pub(crate) fn parse_json_string_list(raw: &str) -> (r: Option<Vec<String>>)
    ensures
        r.deep_view() == json_string_list(raw@),
{
    serde_json::from_str::<Vec<String>>(raw).ok()
}

/// The first index whose entry has slug `slug`, if any.
pub open spec fn first_slug_index(s: Seq<SummaryView>, slug: Seq<char>) -> Option<int>
    decreases s.len(),
{
    if s.len() == 0 {
        None
    } else if s[0].slug == slug {
        Some(0)
    } else {
        match first_slug_index(s.drop_first(), slug) {
            Some(i) => Some(i + 1),
            None => None,
        }
    }
}

proof fn lemma_first_slug_index(s: Seq<SummaryView>, slug: Seq<char>)
    ensures
        match first_slug_index(s, slug) {
            Some(i) => 0 <= i < s.len() && s[i].slug == slug && forall|j: int|
                0 <= j < i ==> s[j].slug != slug,
            None => forall|j: int| 0 <= j < s.len() ==> s[j].slug != slug,
        },
    decreases s.len(),
{
    if s.len() > 0 && s[0].slug != slug {
        lemma_first_slug_index(s.drop_first(), slug);
        assert forall|j: int| 1 <= j < s.len() implies s[j] == s.drop_first()[j - 1] by {}
    }
}

/// Walks the TOC list: each slug moves the first remaining entry with that
/// slug to the end of `ordered`; slugs with no remaining entry are passed over.
pub open spec fn toc_pick(ordered: Seq<SummaryView>, rest: Seq<SummaryView>, toc: Seq<Seq<char>>) -> (
    Seq<SummaryView>,
    Seq<SummaryView>,
)
    decreases toc.len(),
{
    if toc.len() == 0 {
        (ordered, rest)
    } else {
        match first_slug_index(rest, toc[0]) {
            Some(i) => toc_pick(ordered.push(rest[i]), rest.remove(i), toc.drop_first()),
            None => toc_pick(ordered, rest, toc.drop_first()),
        }
    }
}

/// Entries in non-decreasing slug order.
pub open spec fn slug_sorted(s: Seq<SummaryView>) -> bool {
    forall|i: int, j: int| 0 <= i < j < s.len() ==> lex_le(s[i].slug, s[j].slug)
}

/// `output` lists `input` in TOC order: first the entries that the TOC names,
/// in its order, then every other entry in slug order (entries with equal
/// slugs in their input order).
pub open spec fn is_toc_order(input: Seq<SummaryView>, toc: Seq<Seq<char>>, output: Seq<SummaryView>) -> bool {
    let picked = toc_pick(Seq::empty(), input, toc);
    let n = picked.0.len() as int;
    &&& output.len() == input.len()
    &&& output.subrange(0, n) == picked.0
    &&& stably_sorted_by_slug(picked.1, output.subrange(n, output.len() as int))
}

proof fn lemma_first_slug_index_is(s: Seq<SummaryView>, slug: Seq<char>, j: int)
    requires
        0 <= j < s.len(),
        s[j].slug == slug,
        forall|k: int| 0 <= k < j ==> s[k].slug != slug,
    ensures
        first_slug_index(s, slug) == Some(j),
{
    lemma_first_slug_index(s, slug);
    match first_slug_index(s, slug) {
        Some(i) => {
            if i < j {
                assert(s[i].slug != slug);
            }
            if j < i {
                assert(s[j].slug != slug);
            }
        },
        None => {
            assert(s[j].slug != slug);
        },
    }
}

/// Walking the TOC moves entries between the two lists and loses none.
proof fn lemma_toc_pick_multiset(ordered: Seq<SummaryView>, rest: Seq<SummaryView>, toc: Seq<Seq<char>>)
    ensures
        (toc_pick(ordered, rest, toc).0 + toc_pick(ordered, rest, toc).1).to_multiset() == (
        ordered + rest).to_multiset(),
        toc_pick(ordered, rest, toc).0.len() + toc_pick(ordered, rest, toc).1.len() == ordered.len()
            + rest.len(),
    decreases toc.len(),
{
    broadcast use vstd::seq_lib::lemma_multiset_commutative;
    broadcast use vstd::multiset::group_multiset_axioms;

    if toc.len() > 0 {
        lemma_first_slug_index(rest, toc[0]);
        match first_slug_index(rest, toc[0]) {
            Some(i) => {
                lemma_toc_pick_multiset(ordered.push(rest[i]), rest.remove(i), toc.drop_first());
                assert((ordered.push(rest[i]) + rest.remove(i)).to_multiset() =~= (ordered
                    + rest).to_multiset());
            },
            None => {
                lemma_toc_pick_multiset(ordered, rest, toc.drop_first());
            },
        }
    }
}

/// `output[k]` is `input[p[k]]` for a one-to-one `p`, and entries with equal
/// slugs keep their relative order.
pub open spec fn stable_arrangement(input: Seq<SummaryView>, output: Seq<SummaryView>, p: Seq<int>) -> bool {
    &&& p.len() == output.len() == input.len()
    &&& forall|k: int| 0 <= k < p.len() ==> 0 <= #[trigger] p[k] < input.len() && output[k] == input[p[k]]
    &&& forall|k1: int, k2: int| 0 <= k1 < k2 < p.len() ==> #[trigger] p[k1] != #[trigger] p[k2]
    &&& forall|k1: int, k2: int|
        0 <= k1 < k2 < p.len() && #[trigger] output[k1].slug == #[trigger] output[k2].slug ==> p[k1]
            < p[k2]
}

/// `output` is `input` sorted by slug, entries with equal slugs in their input order.
pub open spec fn stably_sorted_by_slug(input: Seq<SummaryView>, output: Seq<SummaryView>) -> bool {
    &&& slug_sorted(output)
    &&& exists|p: Seq<int>| stable_arrangement(input, output, p)
}

/// Sorts entries by slug; entries with equal slugs keep their relative order.
pub fn sort_by_slug(items: &Vec<DocPageSummary>) -> (r: Vec<DocPageSummary>)
    ensures
        stably_sorted_by_slug(summary_views(items@), summary_views(r@)),
        summary_views(r@).to_multiset() == summary_views(items@).to_multiset(),
{
    let ghost iv = summary_views(items@);
    let mut sorted: Vec<DocPageSummary> = Vec::new();
    let mut i: usize = 0;
    let ghost mut perm: Seq<int> = Seq::empty();
    assert(summary_views(sorted@) =~= iv.take(0));
    while i < items.len()
        invariant
            i <= items.len(),
            iv == summary_views(items@),
            slug_sorted(summary_views(sorted@)),
            summary_views(sorted@).to_multiset() == iv.take(i as int).to_multiset(),
            stable_arrangement(iv.take(i as int), summary_views(sorted@), perm),
        decreases items.len() - i,
    {
        let x = crate::docs::duplicate_summary(&items[i]);
        let ghost sv = summary_views(sorted@);
        let mut pos: usize = 0;
        while pos < sorted.len() && str_le(sorted[pos].slug.as_str(), x.slug.as_str())
            invariant
                pos <= sorted.len(),
                sv == summary_views(sorted@),
                forall|k: int| 0 <= k < pos ==> lex_le(sv[k].slug, x.slug@),
            decreases sorted.len() - pos,
        {
            pos = pos + 1;
        }
        let ghost xv = x@;
        sorted.insert(pos, x);
        proof {
            let t = summary_views(sorted@);
            assert(t =~= sv.insert(pos as int, xv));
            if pos < sv.len() {
                lemma_lex_le_total(sv[pos as int].slug, xv.slug);
            }
            assert forall|a: int, b: int| 0 <= a < b < t.len() implies lex_le(
                t[a].slug,
                t[b].slug,
            ) by {
                if b < pos {
                } else if b == pos {
                } else if a < pos {
                } else if a == pos {
                    // x before an entry that was at or after `pos`
                    if b - 1 == pos {
                    } else {
                        assert(lex_le(sv[pos as int].slug, sv[b - 1].slug));
                        lemma_lex_le_transitive(xv.slug, sv[pos as int].slug, sv[b - 1].slug);
                    }
                } else {
                }
            }
            assert(iv.take(i + 1) =~= iv.take(i as int).push(iv[i as int]));
            let np = perm.insert(pos as int, i as int);
            let it = iv.take(i + 1);
            assert forall|k: int| 0 <= k < np.len() implies 0 <= #[trigger] np[k] < it.len()
                && t[k] == it[np[k]] by {
                if k < pos {
                    assert(np[k] == perm[k]);
                } else if k > pos {
                    assert(np[k] == perm[k - 1]);
                }
            }
            assert forall|k1: int, k2: int| 0 <= k1 < k2 < np.len() implies #[trigger] np[k1]
                != #[trigger] np[k2] by {
                if k1 != pos && k2 != pos {
                    let a = if k1 < pos { k1 } else { k1 - 1 };
                    let b = if k2 < pos { k2 } else { k2 - 1 };
                    assert(np[k1] == perm[a] && np[k2] == perm[b]);
                } else if k1 == pos {
                    assert(np[k2] == perm[k2 - 1]);
                } else {
                    assert(np[k1] == perm[k1]);
                }
            }
            assert forall|k1: int, k2: int|
                0 <= k1 < k2 < np.len() && #[trigger] t[k1].slug == #[trigger] t[k2].slug implies np[k1]
                < np[k2] by {
                if k1 != pos && k2 != pos {
                    let a = if k1 < pos { k1 } else { k1 - 1 };
                    let b = if k2 < pos { k2 } else { k2 - 1 };
                    assert(np[k1] == perm[a] && np[k2] == perm[b]);
                    assert(t[k1] == sv[a] && t[k2] == sv[b]);
                } else if k2 == pos {
                    assert(np[k1] == perm[k1]);
                } else {
                    // x is placed before every entry whose slug orders strictly after it
                    assert(t[k2] == sv[k2 - 1]);
                    assert(lex_le(sv[pos as int].slug, sv[k2 - 1].slug));
                    if sv[k2 - 1].slug == xv.slug {
                        assert(lex_le(sv[pos as int].slug, xv.slug));
                    }
                }
            }
            perm = np;
        }
        i = i + 1;
    }
    assert(iv.take(i as int) =~= iv);
    assert(stable_arrangement(iv, summary_views(sorted@), perm));
    sorted
}

/// The TOC list to apply for a `toc.json` text: the parsed list, or none when
/// the file is absent or is not a JSON array of strings.
pub open spec fn toc_slugs(toc_raw: Option<Seq<char>>) -> Seq<Seq<char>> {
    match toc_raw {
        Some(raw) => match json_string_list(raw) {
            Some(l) => l,
            None => Seq::empty(),
        },
        None => Seq::empty(),
    }
}

/// Orders a language's pages: the slugs listed by the TOC first, in TOC order,
/// then the remaining pages alphabetically by slug. Without a TOC every page
/// is listed alphabetically.
pub fn order_by_toc(summaries: Vec<DocPageSummary>, toc: Option<Vec<String>>) -> (r: Vec<
    DocPageSummary,
>)
    ensures
        is_toc_order(
            summary_views(summaries@),
            match toc {
                Some(t) => str_views(t@),
                None => Seq::empty(),
            },
            summary_views(r@),
        ),
        summary_views(r@).to_multiset() == summary_views(summaries@).to_multiset(),
{
    let toc_list = match toc {
        Some(t) => t,
        None => Vec::new(),
    };
    let ghost tv = str_views(toc_list@);
    let ghost input = summary_views(summaries@);
    let mut ordered: Vec<DocPageSummary> = Vec::new();
    let mut rest = summaries;
    assert(tv.skip(0) =~= tv);
    assert(summary_views(ordered@) =~= Seq::<SummaryView>::empty());
    let mut k: usize = 0;
    while k < toc_list.len()
        invariant
            k <= toc_list.len(),
            tv == str_views(toc_list@),
            toc_pick(summary_views(ordered@), summary_views(rest@), tv.skip(k as int)) == toc_pick(
                Seq::empty(),
                input,
                tv,
            ),
        decreases toc_list.len() - k,
    {
        let ghost ov = summary_views(ordered@);
        let ghost rv = summary_views(rest@);
        let mut j: usize = 0;
        while j < rest.len() && !str_eq(rest[j].slug.as_str(), toc_list[k].as_str())
            invariant
                j <= rest.len(),
                rv == summary_views(rest@),
                tv == str_views(toc_list@),
                k < toc_list.len(),
                forall|q: int| 0 <= q < j ==> rv[q].slug != tv[k as int],
            decreases rest.len() - j,
        {
            j = j + 1;
        }
        assert(tv.skip(k as int)[0] == tv[k as int]);
        assert(tv.skip(k as int).drop_first() =~= tv.skip(k + 1));
        if j < rest.len() {
            proof {
                lemma_first_slug_index_is(rv, tv[k as int], j as int);
            }
            let x = rest.remove(j);
            ordered.push(x);
            assert(summary_views(ordered@) =~= ov.push(rv[j as int]));
            assert(summary_views(rest@) =~= rv.remove(j as int));
        } else {
            proof {
                lemma_first_slug_index(rv, tv[k as int]);
            }
        }
        k = k + 1;
    }
    assert(tv.skip(k as int) =~= Seq::<Seq<char>>::empty());
    let ghost picked = toc_pick(Seq::empty(), input, tv);
    assert(picked == (summary_views(ordered@), summary_views(rest@)));
    let sorted = sort_by_slug(&rest);
    let ghost ov = summary_views(ordered@);
    let ghost sv = summary_views(sorted@);
    let mut r = ordered;
    let mut tail = sorted;
    r.append(&mut tail);
    proof {
        let rv = summary_views(r@);
        assert(rv =~= ov + sv);
        assert(rv.subrange(0, ov.len() as int) =~= ov);
        assert(rv.subrange(ov.len() as int, rv.len() as int) =~= sv);
        lemma_toc_pick_multiset(Seq::empty(), input, tv);
        assert(Seq::<SummaryView>::empty() + input =~= input);
        vstd::seq_lib::lemma_multiset_commutative(ov, sv);
        vstd::seq_lib::lemma_multiset_commutative(ov, picked.1);
        assert(sv.len() == picked.1.len()) by {
            assert(sv.to_multiset().len() == picked.1.to_multiset().len());
        }
    }
    r
}

// ---------------------------------------------------------------------------
// Pages of one language
// ---------------------------------------------------------------------------

/// Sphinx's generated index and search pages are not documentation pages.
pub open spec fn is_listed_slug(slug: Seq<char>) -> bool {
    slug != "genindex"@ && slug != "search"@
}

/// The TOC entries of a language's files (slug and HTML), in file order.
pub open spec fn file_summaries(files: Seq<(Seq<char>, Seq<char>)>, lang: Seq<char>) -> Seq<
    SummaryView,
>
    decreases files.len(),
{
    if files.len() == 0 {
        Seq::empty()
    } else {
        let prev = file_summaries(files.drop_last(), lang);
        let f = files.last();
        if is_listed_slug(f.0) {
            prev.push(SummaryView { slug: f.0, title: spec_page_title(f.1), lang })
        } else {
            prev
        }
    }
}

/// The page map after recording every listed file of one version's language.
pub open spec fn with_file_pages(
    m: Map<Seq<char>, DocPageView>,
    version: Seq<char>,
    lang: Seq<char>,
    files: Seq<(Seq<char>, Seq<char>)>,
) -> Map<Seq<char>, DocPageView>
    decreases files.len(),
{
    if files.len() == 0 {
        m
    } else {
        let prev = with_file_pages(m, version, lang, files.drop_last());
        let f = files.last();
        if is_listed_slug(f.0) {
            prev.insert(
                page_key(version, lang, f.0),
                DocPageView { slug: f.0, title: spec_page_title(f.1), lang, version, html: f.1 },
            )
        } else {
            prev
        }
    }
}

/// The slug-and-HTML pairs of a list of files.
pub open spec fn file_views(files: Seq<(String, String)>) -> Seq<(Seq<char>, Seq<char>)> {
    files.map_values(|f: (String, String)| (f.0@, f.1@))
}

impl DocsIndex {
    /// Records the pages of one version's language and its table of contents.
    ///
    /// `files` holds each HTML file's slug and contents, in the order the
    /// directory walk found them; `toc_raw` is the text of the language's
    /// `toc.json`, if it has one.
    pub fn add_language(
        &mut self,
        version: &str,
        lang: &str,
        files: Vec<(String, String)>,
        toc_raw: Option<&str>,
    )
        ensures
            final(self).pages_view() == with_file_pages(
                old(self).pages_view(),
                version@,
                lang@,
                file_views(files@),
            ),
            final(self).toc_view() == old(self).toc_view().insert(
                toc_key(version@, lang@),
                final(self).toc_view()[toc_key(version@, lang@)],
            ),
            is_toc_order(
                file_summaries(file_views(files@), lang@),
                toc_slugs(
                    match toc_raw {
                        Some(t) => Some(t@),
                        None => None,
                    },
                ),
                final(self).toc_view()[toc_key(version@, lang@)],
            ),
            final(self).versions_view() == old(self).versions_view(),
            pages_slash_free(old(self).pages_view()) && no_slash(version@) && no_slash(lang@)
                ==> pages_slash_free(final(self).pages_view()),
            distinct_file_slugs(file_views(files@)) ==> {
                let listed = final(self).toc_view()[toc_key(version@, lang@)];
                &&& forall|k: int|
                    0 <= k < listed.len() ==> entry_names_page(
                        final(self).pages_view(),
                        version@,
                        lang@,
                        #[trigger] listed[k],
                    )
                &&& forall|k1: int, k2: int|
                    0 <= k1 < k2 < listed.len() ==> #[trigger] listed[k1].slug
                        != #[trigger] listed[k2].slug
            },
    {
        let ghost fv = file_views(files@);
        let ghost start_pages = self.pages_view();
        let mut summaries: Vec<DocPageSummary> = Vec::new();
        let mut i: usize = 0;
        proof {
            assert(fv.take(0) =~= Seq::<(Seq<char>, Seq<char>)>::empty());
            assert(summary_views(summaries@) =~= Seq::<SummaryView>::empty());
        }
        while i < files.len()
            invariant
                i <= files.len(),
                fv == file_views(files@),
                summary_views(summaries@) == file_summaries(fv.take(i as int), lang@),
                self.pages_view() == with_file_pages(start_pages, version@, lang@, fv.take(i as int)),
                self.toc_view() == old(self).toc_view(),
                self.versions_view() == old(self).versions_view(),
            decreases files.len() - i,
        {
            assert(fv.take(i + 1).drop_last() =~= fv.take(i as int));
            assert(fv.take(i + 1).last() == fv[i as int]);
            let slug = files[i].0.as_str();
            proof {
                reveal_strlit("genindex");
                reveal_strlit("search");
            }
            if !str_eq(slug, "genindex") && !str_eq(slug, "search") {
                let html = files[i].1.as_str();
                let title = page_title(html);
                let ghost before = summaries@;
                summaries.push(
                    DocPageSummary { slug: owned(slug), title: title.clone(), lang: owned(lang) },
                );
                assert(summary_views(summaries@) =~= summary_views(before).push(
                    SummaryView { slug: slug@, title: spec_page_title(html@), lang: lang@ },
                ));
                self.insert_page(
                    DocPage {
                        slug: owned(slug),
                        title,
                        lang: owned(lang),
                        version: owned(version),
                        html: owned(html),
                    },
                );
            }
            i = i + 1;
        }
        assert(fv.take(i as int) =~= fv);
        let toc = match toc_raw {
            Some(raw) => parse_json_string_list(raw),
            None => None,
        };
        proof {
            match toc {
                Some(ref t) => {
                    assert(t.deep_view() =~= str_views(t@));
                },
                None => {},
            }
        }
        let ordered = order_by_toc(summaries, toc);
        self.set_toc(version, lang, ordered);
        proof {
            if pages_slash_free(start_pages) && no_slash(version@) && no_slash(lang@) {
                law_language_keeps_pages_slash_free(start_pages, version@, lang@, fv);
            }
            if distinct_file_slugs(fv) {
                law_listed_entries_name_pages(
                    start_pages,
                    version@,
                    lang@,
                    fv,
                    toc_slugs(
                        match toc_raw {
                            Some(t) => Some(t@),
                            None => None,
                        },
                    ),
                    self.toc_view()[toc_key(version@, lang@)],
                );
            }
        }
    }
}

} // verus!

verus! {

/// The page recorded for a listed file of one version's language.
pub open spec fn file_page(version: Seq<char>, lang: Seq<char>, f: (Seq<char>, Seq<char>)) -> DocPageView {
    DocPageView { slug: f.0, title: spec_page_title(f.1), lang, version, html: f.1 }
}

/// The `i`-th file is listed and its page goes under key `k`.
pub open spec fn file_hits(
    files: Seq<(Seq<char>, Seq<char>)>,
    version: Seq<char>,
    lang: Seq<char>,
    k: Seq<char>,
    i: int,
) -> bool {
    0 <= i < files.len() && is_listed_slug(files[i].0) && page_key(version, lang, files[i].0) == k
}

/// Reading back what loading a language wrote: under the key of the last
/// listed file with a given slug stands the page recorded for that file.
pub proof fn law_language_page_read_back(
    m: Map<Seq<char>, DocPageView>,
    version: Seq<char>,
    lang: Seq<char>,
    files: Seq<(Seq<char>, Seq<char>)>,
    i: int,
)
    requires
        0 <= i < files.len(),
        is_listed_slug(files[i].0),
        forall|j: int|
            i < j < files.len() ==> !file_hits(
                files,
                version,
                lang,
                page_key(version, lang, files[i].0),
                j,
            ),
    ensures
        with_file_pages(m, version, lang, files).contains_key(page_key(version, lang, files[i].0)),
        with_file_pages(m, version, lang, files)[page_key(version, lang, files[i].0)] == file_page(
            version,
            lang,
            files[i],
        ),
    decreases files.len(),
{
    let k = page_key(version, lang, files[i].0);
    let prev = files.drop_last();
    if i < files.len() - 1 {
        assert(prev[i] == files[i]);
        assert forall|j: int| i < j < prev.len() implies !file_hits(prev, version, lang, k, j) by {
            assert(prev[j] == files[j]);
            assert(!file_hits(files, version, lang, k, j));
        }
        law_language_page_read_back(m, version, lang, prev, i);
        assert(!file_hits(files, version, lang, k, files.len() - 1));
    }
}

/// Loading a language leaves every key that none of its listed files leads to as it was.
pub proof fn law_language_leaves_other_keys(
    m: Map<Seq<char>, DocPageView>,
    version: Seq<char>,
    lang: Seq<char>,
    files: Seq<(Seq<char>, Seq<char>)>,
    k: Seq<char>,
)
    requires
        forall|j: int| 0 <= j < files.len() ==> !file_hits(files, version, lang, k, j),
    ensures
        with_file_pages(m, version, lang, files).contains_key(k) == m.contains_key(k),
        m.contains_key(k) ==> with_file_pages(m, version, lang, files)[k] == m[k],
    decreases files.len(),
{
    if files.len() > 0 {
        let prev = files.drop_last();
        assert forall|j: int| 0 <= j < prev.len() implies !file_hits(prev, version, lang, k, j) by {
            assert(prev[j] == files[j]);
            assert(!file_hits(files, version, lang, k, j));
        }
        law_language_leaves_other_keys(m, version, lang, prev, k);
        assert(!file_hits(files, version, lang, k, files.len() - 1));
    }
}

/// The manifest's `latest` version, when it is listed (and not empty), becomes
/// the default: it comes first.
pub proof fn law_latest_becomes_default(versions: Seq<Seq<char>>, latest: Seq<char>)
    requires
        non_empty_only(versions).contains(latest),
    ensures
        spec_order_versions(versions, Some(latest)).len() > 0,
        spec_order_versions(versions, Some(latest))[0] == latest,
{
    let f = non_empty_only(versions);
    lemma_first_index_of(f, latest);
    let w = choose|i: int| 0 <= i < f.len() && f[i] == latest;
    assert(f[w] == latest);
}

/// Without a `latest` entry, the first listed (non-empty) version is the default.
pub proof fn law_first_listed_is_default(versions: Seq<Seq<char>>)
    requires
        non_empty_only(versions).len() > 0,
    ensures
        spec_order_versions(versions, None)[0] == non_empty_only(versions)[0],
{
}

/// Ordering the manifest's versions keeps every non-empty version and adds none.
pub proof fn law_order_versions_keeps_versions(versions: Seq<Seq<char>>, latest: Option<Seq<char>>)
    ensures
        spec_order_versions(versions, latest).to_multiset() == non_empty_only(
            versions,
        ).to_multiset(),
{
    broadcast use vstd::seq_lib::lemma_multiset_commutative;
    broadcast use vstd::multiset::group_multiset_axioms;

    let f = non_empty_only(versions);
    match latest {
        Some(l) => {
            lemma_first_index_of(f, l);
            match first_index_of(f, l) {
                Some(p) => {
                    assert((seq![f[p]] + f.remove(p)).to_multiset() =~= f.to_multiset());
                },
                None => {},
            }
        },
        None => {},
    }
}

/// No version in the ordered list is empty.
pub proof fn law_ordered_versions_not_empty(versions: Seq<Seq<char>>, latest: Option<Seq<char>>)
    ensures
        forall|i: int|
            0 <= i < spec_order_versions(versions, latest).len() ==> #[trigger] spec_order_versions(
                versions,
                latest,
            )[i].len() > 0,
{
    lemma_non_empty_only(versions);
    let f = non_empty_only(versions);
    match latest {
        Some(l) => {
            lemma_first_index_of(f, l);
            match first_index_of(f, l) {
                Some(p) => {
                    let r = seq![f[p]] + f.remove(p);
                    assert forall|i: int| 0 <= i < r.len() implies #[trigger] r[i].len() > 0 by {
                        if i > 0 {
                            assert(r[i] == f.remove(p)[i - 1]);
                        }
                    }
                },
                None => {},
            }
        },
        None => {},
    }
}

proof fn lemma_non_empty_only(s: Seq<Seq<char>>)
    ensures
        forall|i: int| 0 <= i < non_empty_only(s).len() ==> #[trigger] non_empty_only(s)[i].len() > 0,
    decreases s.len(),
{
    if s.len() > 0 {
        let prev = s.drop_last();
        lemma_non_empty_only(prev);
        assert forall|i: int| 0 <= i < non_empty_only(s).len() implies #[trigger] non_empty_only(
            s,
        )[i].len() > 0 by {
            if i < non_empty_only(prev).len() {
                assert(non_empty_only(s)[i] == non_empty_only(prev)[i]);
            }
        }
    }
}

// ---------------------------------------------------------------------------
// What a language's table of contents lists, and the pages behind it
// ---------------------------------------------------------------------------

/// `output[k]` is `input[p[k]]` for a one-to-one `p`.
pub open spec fn arrangement(input: Seq<SummaryView>, output: Seq<SummaryView>, p: Seq<int>) -> bool {
    &&& p.len() == output.len() == input.len()
    &&& forall|k: int| 0 <= k < p.len() ==> 0 <= #[trigger] p[k] < input.len() && output[k] == input[p[k]]
    &&& forall|k1: int, k2: int| 0 <= k1 < k2 < p.len() ==> #[trigger] p[k1] != #[trigger] p[k2]
}

/// The summary recorded for a file of a language.
pub open spec fn file_summary(lang: Seq<char>, f: (Seq<char>, Seq<char>)) -> SummaryView {
    SummaryView { slug: f.0, title: spec_page_title(f.1), lang }
}

/// Keys of one version and language differ when the slugs differ.
proof fn lemma_page_key_injective(version: Seq<char>, lang: Seq<char>, a: Seq<char>, b: Seq<char>)
    requires
        page_key(version, lang, a) == page_key(version, lang, b),
    ensures
        a == b,
{
    let pre = version + "/"@ + lang + "/"@;
    assert(page_key(version, lang, a) =~= pre + a);
    assert(page_key(version, lang, b) =~= pre + b);
    assert(a =~= (pre + a).subrange(pre.len() as int, (pre + a).len() as int));
    assert(b =~= (pre + b).subrange(pre.len() as int, (pre + b).len() as int));
}

/// Each summary of a language comes from a listed file; the files it comes
/// from are in increasing order.
proof fn lemma_file_summaries_sources(files: Seq<(Seq<char>, Seq<char>)>, lang: Seq<char>) -> (idx:
    Seq<int>)
    ensures
        idx.len() == file_summaries(files, lang).len(),
        forall|k: int|
            0 <= k < idx.len() ==> 0 <= #[trigger] idx[k] < files.len() && is_listed_slug(
                files[idx[k]].0,
            ) && file_summaries(files, lang)[k] == file_summary(lang, files[idx[k]]),
        forall|k1: int, k2: int| 0 <= k1 < k2 < idx.len() ==> #[trigger] idx[k1] < #[trigger] idx[k2],
    decreases files.len(),
{
    if files.len() == 0 {
        Seq::empty()
    } else {
        let prev = files.drop_last();
        let pidx = lemma_file_summaries_sources(prev, lang);
        let n = files.len() - 1;
        assert forall|k: int| 0 <= k < pidx.len() implies files[pidx[k]] == prev[pidx[k]] by {}
        if is_listed_slug(files.last().0) {
            let idx = pidx.push(n);
            assert forall|k: int| 0 <= k < idx.len() implies 0 <= #[trigger] idx[k] < files.len()
                && is_listed_slug(files[idx[k]].0) && file_summaries(files, lang)[k]
                == file_summary(lang, files[idx[k]]) by {
                if k < pidx.len() {
                    assert(idx[k] == pidx[k]);
                    assert(files[pidx[k]] == prev[pidx[k]]);
                }
            }
            idx
        } else {
            pidx
        }
    }
}

/// Walking the TOC only rearranges the entries.
proof fn lemma_toc_pick_arrangement(
    input: Seq<SummaryView>,
    ordered: Seq<SummaryView>,
    rest: Seq<SummaryView>,
    toc: Seq<Seq<char>>,
    q: Seq<int>,
) -> (q2: Seq<int>)
    requires
        arrangement(input, ordered + rest, q),
    ensures
        arrangement(input, toc_pick(ordered, rest, toc).0 + toc_pick(ordered, rest, toc).1, q2),
    decreases toc.len(),
{
    if toc.len() == 0 {
        q
    } else {
        lemma_first_slug_index(rest, toc[0]);
        match first_slug_index(rest, toc[0]) {
            Some(i) => {
                let o = ordered.len() as int;
                let old_seq = ordered + rest;
                let new_seq = ordered.push(rest[i]) + rest.remove(i);
                let qn = Seq::new(
                    q.len(),
                    |k: int|
                        if k < o {
                            q[k]
                        } else if k == o {
                            q[o + i]
                        } else if k <= o + i {
                            q[k - 1]
                        } else {
                            q[k]
                        },
                );
                assert(new_seq.len() == old_seq.len());
                assert forall|k: int| 0 <= k < qn.len() implies 0 <= #[trigger] qn[k] < input.len()
                    && new_seq[k] == input[qn[k]] by {
                    if k < o {
                        assert(new_seq[k] == old_seq[k]);
                    } else if k == o {
                        assert(new_seq[k] == rest[i]);
                        assert(old_seq[o + i] == rest[i]);
                    } else if k <= o + i {
                        assert(new_seq[k] == rest.remove(i)[k - o - 1]);
                        assert(old_seq[k - 1] == rest[k - 1 - o]);
                    } else {
                        assert(new_seq[k] == rest.remove(i)[k - o - 1]);
                        assert(old_seq[k] == rest[k - o]);
                    }
                }
                assert forall|k1: int, k2: int| 0 <= k1 < k2 < qn.len() implies #[trigger] qn[k1]
                    != #[trigger] qn[k2] by {
                    let a = if k1 < o { k1 } else if k1 == o { o + i } else if k1 <= o + i { k1 - 1 } else { k1 };
                    let b = if k2 < o { k2 } else if k2 == o { o + i } else if k2 <= o + i { k2 - 1 } else { k2 };
                    assert(qn[k1] == q[a] && qn[k2] == q[b]);
                    assert(a != b);
                    if a < b {
                        assert(q[a] != q[b]);
                    } else {
                        assert(q[b] != q[a]);
                    }
                }
                lemma_toc_pick_arrangement(input, ordered.push(rest[i]), rest.remove(i), toc.drop_first(), qn)
            },
            None => lemma_toc_pick_arrangement(input, ordered, rest, toc.drop_first(), q),
        }
    }
}

/// A list in TOC order rearranges its input.
proof fn lemma_toc_order_arrangement(input: Seq<SummaryView>, toc: Seq<Seq<char>>, output: Seq<SummaryView>) -> (p: Seq<int>)
    requires
        is_toc_order(input, toc, output),
    ensures
        arrangement(input, output, p),
{
    let id = Seq::new(input.len(), |k: int| k);
    assert(Seq::<SummaryView>::empty() + input =~= input);
    let picked = toc_pick(Seq::empty(), input, toc);
    let q = lemma_toc_pick_arrangement(input, Seq::empty(), input, toc, id);
    let n = picked.0.len() as int;
    let tail = output.subrange(n, output.len() as int);
    let t = choose|t: Seq<int>| stable_arrangement(picked.1, tail, t);
    let both = picked.0 + picked.1;
    let p = Seq::new(output.len(), |k: int| if k < n { q[k] } else { q[n + t[k - n]] });
    assert forall|k: int| 0 <= k < p.len() implies 0 <= #[trigger] p[k] < input.len()
        && output[k] == input[p[k]] by {
        if k < n {
            assert(output[k] == output.subrange(0, n)[k]);
            assert(both[k] == picked.0[k]);
        } else {
            assert(output[k] == tail[k - n]);
            assert(tail[k - n] == picked.1[t[k - n]]);
            assert(both[n + t[k - n]] == picked.1[t[k - n]]);
        }
    }
    assert forall|k1: int, k2: int| 0 <= k1 < k2 < p.len() implies #[trigger] p[k1]
        != #[trigger] p[k2] by {
        let a = if k1 < n { k1 } else { n + t[k1 - n] };
        let b = if k2 < n { k2 } else { n + t[k2 - n] };
        assert(p[k1] == q[a] && p[k2] == q[b]);
        if k1 >= n && k2 >= n {
            assert(t[k1 - n] != t[k2 - n]);
        }
        assert(a != b);
        if a < b {
            assert(q[a] != q[b]);
        } else {
            assert(q[b] != q[a]);
        }
    }
    p
}

/// No two files have the same slug.
pub open spec fn distinct_file_slugs(files: Seq<(Seq<char>, Seq<char>)>) -> bool {
    forall|i: int, j: int| 0 <= i < j < files.len() ==> files[i].0 != files[j].0
}

/// The entry has the language's name and names a page held under its key
/// with the same slug, title and language, of the given version.
pub open spec fn entry_names_page(
    pages: Map<Seq<char>, DocPageView>,
    version: Seq<char>,
    lang: Seq<char>,
    e: SummaryView,
) -> bool {
    let key = page_key(version, lang, e.slug);
    &&& e.lang == lang
    &&& pages.contains_key(key)
    &&& pages[key].slug == e.slug
    &&& pages[key].title == e.title
    &&& pages[key].lang == lang
    &&& pages[key].version == version
}

/// Reading back what a language's table of contents lists: when the files'
/// slugs are distinct, every listed entry has the language's name and names
/// a page recorded under its slug with the same slug, title and language,
/// and no slug is listed twice.
pub proof fn law_listed_entries_name_pages(
    m: Map<Seq<char>, DocPageView>,
    version: Seq<char>,
    lang: Seq<char>,
    files: Seq<(Seq<char>, Seq<char>)>,
    toc: Seq<Seq<char>>,
    listed: Seq<SummaryView>,
)
    requires
        distinct_file_slugs(files),
        is_toc_order(file_summaries(files, lang), toc, listed),
    ensures
        forall|k: int|
            0 <= k < listed.len() ==> entry_names_page(
                with_file_pages(m, version, lang, files),
                version,
                lang,
                #[trigger] listed[k],
            ),
        forall|k1: int, k2: int|
            0 <= k1 < k2 < listed.len() ==> #[trigger] listed[k1].slug != #[trigger] listed[k2].slug,
{
    let fs = file_summaries(files, lang);
    let p = lemma_toc_order_arrangement(fs, toc, listed);
    let idx = lemma_file_summaries_sources(files, lang);
    assert forall|k: int| 0 <= k < listed.len() implies entry_names_page(
        with_file_pages(m, version, lang, files),
        version,
        lang,
        #[trigger] listed[k],
    ) by {
        let i = idx[p[k]];
        assert(listed[k] == fs[p[k]]);
        assert(fs[p[k]] == file_summary(lang, files[i]));
        let key = page_key(version, lang, files[i].0);
        assert forall|j: int| i < j < files.len() implies !file_hits(files, version, lang, key, j) by {
            if file_hits(files, version, lang, key, j) {
                lemma_page_key_injective(version, lang, files[j].0, files[i].0);
            }
        }
        law_language_page_read_back(m, version, lang, files, i);
    }
    assert forall|k1: int, k2: int| 0 <= k1 < k2 < listed.len() implies #[trigger] listed[k1].slug
        != #[trigger] listed[k2].slug by {
        let i1 = idx[p[k1]];
        let i2 = idx[p[k2]];
        assert(listed[k1] == fs[p[k1]] && listed[k2] == fs[p[k2]]);
        assert(p[k1] != p[k2]);
        if p[k1] < p[k2] {
            assert(i1 < i2);
        } else {
            assert(i2 < i1);
        }
    }
}

/// Loading a language whose version and language name hold no `/` keeps
/// every page of the index free of `/` in its version and language.
pub proof fn law_language_keeps_pages_slash_free(
    m: Map<Seq<char>, DocPageView>,
    version: Seq<char>,
    lang: Seq<char>,
    files: Seq<(Seq<char>, Seq<char>)>,
)
    requires
        pages_slash_free(m),
        no_slash(version),
        no_slash(lang),
    ensures
        pages_slash_free(with_file_pages(m, version, lang, files)),
    decreases files.len(),
{
    if files.len() > 0 {
        law_language_keeps_pages_slash_free(m, version, lang, files.drop_last());
    }
}

/// The summary of a listed file is among a language's summaries.
proof fn lemma_file_summaries_contains(files: Seq<(Seq<char>, Seq<char>)>, lang: Seq<char>, i: int)
    requires
        0 <= i < files.len(),
        is_listed_slug(files[i].0),
    ensures
        file_summaries(files, lang).contains(file_summary(lang, files[i])),
    decreases files.len(),
{
    let prev = files.drop_last();
    let fs = file_summaries(files, lang);
    if i == files.len() - 1 {
        assert(fs[fs.len() - 1] == file_summary(lang, files[i]));
    } else {
        assert(prev[i] == files[i]);
        lemma_file_summaries_contains(prev, lang, i);
        let ps = file_summaries(prev, lang);
        let k = choose|k: int| 0 <= k < ps.len() && ps[k] == file_summary(lang, files[i]);
        if is_listed_slug(files.last().0) {
            assert(fs[k] == ps[k]);
        }
    }
}

/// Only Sphinx's `genindex` and `search` pages are left out when a language
/// is loaded: every other file (Sphinx's `index` landing page too) becomes a
/// page under its slug, with its title and HTML, and appears among the
/// language's table-of-contents entries, unless a later file has the same slug.
pub proof fn law_only_genindex_and_search_are_left_out(
    m: Map<Seq<char>, DocPageView>,
    version: Seq<char>,
    lang: Seq<char>,
    files: Seq<(Seq<char>, Seq<char>)>,
    i: int,
)
    requires
        0 <= i < files.len(),
        files[i].0 != "genindex"@,
        files[i].0 != "search"@,
        forall|j: int| i < j < files.len() ==> files[j].0 != files[i].0,
    ensures
        with_file_pages(m, version, lang, files).contains_key(page_key(version, lang, files[i].0)),
        with_file_pages(m, version, lang, files)[page_key(version, lang, files[i].0)]
            == (DocPageView {
            slug: files[i].0,
            title: spec_page_title(files[i].1),
            lang,
            version,
            html: files[i].1,
        }),
        file_summaries(files, lang).contains(
            (SummaryView { slug: files[i].0, title: spec_page_title(files[i].1), lang }),
        ),
{
    let key = page_key(version, lang, files[i].0);
    assert forall|j: int| i < j < files.len() implies !file_hits(files, version, lang, key, j) by {
        if file_hits(files, version, lang, key, j) {
            lemma_page_key_injective(version, lang, files[j].0, files[i].0);
        }
    }
    law_language_page_read_back(m, version, lang, files, i);
    lemma_file_summaries_contains(files, lang, i);
}

} // verus!
