//! The in-memory documentation index and the rules that build it from a
//! scanned tree of Sphinx HTML output.
use vstd::prelude::*;

use crate::models::{DocPageSummary, SummaryView};
use crate::text::{str_concat, str_views};

verus! {

/// A single documentation page loaded from Sphinx HTML output.
#[derive(Debug, Clone)]
pub struct DocPage {
    pub slug: String,
    pub title: String,
    pub lang: String,
    pub version: String,
    pub html: String,
}

/// The plain-value view of a [`DocPage`].
pub struct DocPageView {
    pub slug: Seq<char>,
    pub title: Seq<char>,
    pub lang: Seq<char>,
    pub version: Seq<char>,
    pub html: Seq<char>,
}

impl View for DocPage {
    type V = DocPageView;

    open spec fn view(&self) -> DocPageView {
        DocPageView {
            slug: self.slug@,
            title: self.title@,
            lang: self.lang@,
            version: self.version@,
            html: self.html@,
        }
    }
}

impl DocPage {
    /// A field-by-field copy of the page.
    pub fn duplicate(&self) -> (r: DocPage)
        ensures
            r@ == self@,
    {
        DocPage {
            slug: self.slug.clone(),
            title: self.title.clone(),
            lang: self.lang.clone(),
            version: self.version.clone(),
            html: self.html.clone(),
        }
    }
}

/// A field-by-field copy of a table-of-contents entry.
pub fn duplicate_summary(s: &DocPageSummary) -> (r: DocPageSummary)
    ensures
        r@ == s@,
{
    DocPageSummary { slug: s.slug.clone(), title: s.title.clone(), lang: s.lang.clone() }
}

/// The contents of `versions.json` at the root of a versioned docs tree.
#[derive(Debug, Clone)]
pub struct VersionsManifest {
    pub versions: Vec<String>,
    pub latest: Option<String>,
}

/// The map that a list of keyed entries describes: later entries win.
pub open spec fn entries_map<V>(entries: Seq<(Seq<char>, V)>) -> Map<Seq<char>, V>
    decreases entries.len(),
{
    if entries.len() == 0 {
        Map::empty()
    } else {
        entries_map(entries.drop_last()).insert(entries.last().0, entries.last().1)
    }
}

/// The entry at `j` is the last one with key `k`, so it is what the map holds for `k`.
proof fn lemma_entries_map_last<V>(entries: Seq<(Seq<char>, V)>, k: Seq<char>, j: int)
    requires
        0 <= j < entries.len(),
        entries[j].0 == k,
        forall|i: int| j < i < entries.len() ==> entries[i].0 != k,
    ensures
        entries_map(entries).contains_key(k),
        entries_map(entries)[k] == entries[j].1,
    decreases entries.len(),
{
    if j < entries.len() - 1 {
        lemma_entries_map_last(entries.drop_last(), k, j);
    }
}

/// No entry has key `k`, so the map does not hold `k`.
proof fn lemma_entries_map_absent<V>(entries: Seq<(Seq<char>, V)>, k: Seq<char>)
    requires
        forall|i: int| 0 <= i < entries.len() ==> entries[i].0 != k,
    ensures
        !entries_map(entries).contains_key(k),
    decreases entries.len(),
{
    if entries.len() > 0 {
        lemma_entries_map_absent(entries.drop_last(), k);
    }
}

/// The key of a page: `"{version}/{lang}/{slug}"`.
pub open spec fn page_key(version: Seq<char>, lang: Seq<char>, slug: Seq<char>) -> Seq<char> {
    version + "/"@ + lang + "/"@ + slug
}

/// The key of a language's table of contents: `"{version}/{lang}"`.
pub open spec fn toc_key(version: Seq<char>, lang: Seq<char>) -> Seq<char> {
    version + "/"@ + lang
}

/// The text holds no `/`.
pub open spec fn no_slash(s: Seq<char>) -> bool {
    !s.contains('/')
}

/// Every page of the map has a version and a language without `/`.
pub open spec fn pages_slash_free(pages: Map<Seq<char>, DocPageView>) -> bool {
    forall|k: Seq<char>|
        #[trigger] pages.contains_key(k) ==> no_slash(pages[k].version) && no_slash(pages[k].lang)
}

/// When versions and languages hold no `/`, a page key names one version,
/// one language and one slug.
pub proof fn lemma_page_key_parts(
    v1: Seq<char>,
    l1: Seq<char>,
    s1: Seq<char>,
    v2: Seq<char>,
    l2: Seq<char>,
    s2: Seq<char>,
)
    requires
        no_slash(v1),
        no_slash(l1),
        no_slash(v2),
        no_slash(l2),
        page_key(v1, l1, s1) == page_key(v2, l2, s2),
    ensures
        v1 == v2,
        l1 == l2,
        s1 == s2,
{
    let r1 = l1 + "/"@ + s1;
    let r2 = l2 + "/"@ + s2;
    assert(page_key(v1, l1, s1) =~= v1 + "/"@ + r1);
    assert(page_key(v2, l2, s2) =~= v2 + "/"@ + r2);
    lemma_split_at_slash(v1, r1, v2, r2);
    lemma_split_at_slash(l1, s1, l2, s2);
}

/// `a + "/" + b == c + "/" + d` with `a` and `c` free of `/` splits alike.
proof fn lemma_split_at_slash(a: Seq<char>, b: Seq<char>, c: Seq<char>, d: Seq<char>)
    requires
        no_slash(a),
        no_slash(c),
        a + "/"@ + b == c + "/"@ + d,
    ensures
        a == c,
        b == d,
{
    reveal_strlit("/");
    let k = a + "/"@ + b;
    let k2 = c + "/"@ + d;
    if a.len() < c.len() {
        assert(k[a.len() as int] == '/');
        assert(k2[a.len() as int] == c[a.len() as int]);
        assert(c.contains('/'));
    }
    if c.len() < a.len() {
        assert(k2[c.len() as int] == '/');
        assert(k[c.len() as int] == a[c.len() as int]);
        assert(a.contains('/'));
    }
    assert(a =~= k.subrange(0, a.len() as int));
    assert(c =~= k2.subrange(0, c.len() as int));
    assert(b =~= k.subrange(a.len() as int + 1, k.len() as int));
    assert(d =~= k2.subrange(c.len() as int + 1, k2.len() as int));
}

fn make_page_key(version: &str, lang: &str, slug: &str) -> (r: String)
    ensures
        r@ == page_key(version@, lang@, slug@),
{
    let mut r = str_concat(version, "/");
    r.append(lang);
    r.append("/");
    r.append(slug);
    r
}

fn make_toc_key(version: &str, lang: &str) -> (r: String)
    ensures
        r@ == toc_key(version@, lang@),
{
    let mut r = str_concat(version, "/");
    r.append(lang);
    r
}

/// The views of a sequence of table-of-contents entries.
pub open spec fn summary_views(s: Seq<DocPageSummary>) -> Seq<SummaryView> {
    s.map_values(|x: DocPageSummary| x@)
}

/// In-memory index of all documentation pages.
///
/// Pages are keyed by `"{version}/{lang}/{slug}"` and per-language TOCs by
/// `"{version}/{lang}"`. `versions` lists every known version ordered with the
/// default version first.
pub struct DocsIndex {
    pages: Vec<(String, DocPage)>,
    toc: Vec<(String, Vec<DocPageSummary>)>,
    versions: Vec<String>,
}

impl DocsIndex {
    /// Every page is held under the key made of its own version, language and slug.
    #[verifier::type_invariant]
    closed spec fn pages_keyed(self) -> bool {
        forall|i: int|
            0 <= i < self.pages@.len() ==> #[trigger] self.pages@[i].0@ == page_key(
                self.pages@[i].1.version@,
                self.pages@[i].1.lang@,
                self.pages@[i].1.slug@,
            )
    }

    closed spec fn page_entries(&self) -> Seq<(Seq<char>, DocPageView)> {
        self.pages@.map_values(|e: (String, DocPage)| (e.0@, e.1@))
    }

    closed spec fn toc_entries(&self) -> Seq<(Seq<char>, Seq<SummaryView>)> {
        self.toc@.map_values(|e: (String, Vec<DocPageSummary>)| (e.0@, summary_views(e.1@)))
    }

    /// The pages of the index, by key.
    pub closed spec fn pages_view(&self) -> Map<Seq<char>, DocPageView> {
        entries_map(self.page_entries())
    }

    /// The tables of contents of the index, by key.
    pub closed spec fn toc_view(&self) -> Map<Seq<char>, Seq<SummaryView>> {
        entries_map(self.toc_entries())
    }

    /// The known versions, the default one first.
    pub closed spec fn versions_view(&self) -> Seq<Seq<char>> {
        str_views(self.versions@)
    }

    /// An empty index: no pages, no tables of contents, no versions.
    pub fn new() -> (r: DocsIndex)
        ensures
            r.pages_view() == Map::<Seq<char>, DocPageView>::empty(),
            r.toc_view() == Map::<Seq<char>, Seq<SummaryView>>::empty(),
            r.versions_view() == Seq::<Seq<char>>::empty(),
            pages_slash_free(r.pages_view()),
    {
        let r = DocsIndex { pages: Vec::new(), toc: Vec::new(), versions: Vec::new() };
        assert(r.page_entries() =~= Seq::empty());
        assert(r.toc_entries() =~= Seq::empty());
        assert(r.versions_view() =~= Seq::<Seq<char>>::empty());
        r
    }

    /// Records the page under its key; a page already held under that key is replaced.
    pub fn insert_page(&mut self, page: DocPage)
        ensures
            final(self).pages_view() == old(self).pages_view().insert(
                page_key(page.version@, page.lang@, page.slug@),
                page@,
            ),
            final(self).toc_view() == old(self).toc_view(),
            final(self).versions_view() == old(self).versions_view(),
    {
        proof {
            use_type_invariant(&*self);
        }
        let key = make_page_key(page.version.as_str(), page.lang.as_str(), page.slug.as_str());
        let ghost old_entries = self.page_entries();
        let mut pages: Vec<(String, DocPage)> = Vec::new();
        std::mem::swap(&mut pages, &mut self.pages);
        let ghost before = pages@;
        pages.push((key, page));
        proof {
            assert forall|i: int| 0 <= i < pages@.len() implies #[trigger] pages@[i].0@ == page_key(
                pages@[i].1.version@,
                pages@[i].1.lang@,
                pages@[i].1.slug@,
            ) by {
                if i < before.len() {
                    assert(pages@[i] == before[i]);
                }
            }
        }
        std::mem::swap(&mut pages, &mut self.pages);
        proof {
            assert(self.page_entries().drop_last() =~= old_entries);
        }
    }

    /// Records the table of contents of one version's language; an earlier one
    /// under the same key is replaced.
    pub fn set_toc(&mut self, version: &str, lang: &str, summaries: Vec<DocPageSummary>)
        ensures
            final(self).toc_view() == old(self).toc_view().insert(
                toc_key(version@, lang@),
                summary_views(summaries@),
            ),
            final(self).pages_view() == old(self).pages_view(),
            final(self).versions_view() == old(self).versions_view(),
    {
        proof {
            use_type_invariant(&*self);
        }
        let key = make_toc_key(version, lang);
        let ghost old_entries = self.toc_entries();
        let mut toc: Vec<(String, Vec<DocPageSummary>)> = Vec::new();
        std::mem::swap(&mut toc, &mut self.toc);
        toc.push((key, summaries));
        std::mem::swap(&mut toc, &mut self.toc);
        proof {
            assert(self.toc_entries().drop_last() =~= old_entries);
        }
    }

    /// Replaces the list of known versions (default first).
    pub fn set_versions(&mut self, versions: Vec<String>)
        ensures
            final(self).versions_view() == str_views(versions@),
            final(self).pages_view() == old(self).pages_view(),
            final(self).toc_view() == old(self).toc_view(),
    {
        proof {
            use_type_invariant(&*self);
        }
        self.versions = versions;
    }

    /// Returns the default version (the first entry of the versions list).
    pub fn default_version(&self) -> (r: Option<String>)
        ensures
            r.deep_view() == (if self.versions_view().len() > 0 {
                Some(self.versions_view()[0])
            } else {
                None
            }),
    {
        if self.versions.len() > 0 {
            Some(self.versions[0].clone())
        } else {
            None
        }
    }

    /// Returns all known versions, ordered with the default version first.
    pub fn versions(&self) -> (r: Vec<String>)
        ensures
            str_views(r@) == self.versions_view(),
    {
        let mut r: Vec<String> = Vec::new();
        let mut i: usize = 0;
        while i < self.versions.len()
            invariant
                i <= self.versions.len(),
                str_views(r@) == self.versions_view().take(i as int),
            decreases self.versions.len() - i,
        {
            r.push(self.versions[i].clone());
            proof {
                assert(self.versions_view().take(i + 1) =~= self.versions_view().take(
                    i as int,
                ).push(self.versions[i as int]@));
                assert(str_views(r@) =~= self.versions_view().take(i + 1));
            }
            i = i + 1;
        }
        assert(self.versions_view().take(i as int) =~= self.versions_view());
        r
    }

    /// Returns whether the given version exists in the index.
    pub fn has_version(&self, version: &str) -> (r: bool)
        ensures
            r == self.versions_view().contains(version@),
    {
        let mut i: usize = 0;
        while i < self.versions.len()
            invariant
                i <= self.versions.len(),
                forall|k: int| 0 <= k < i ==> self.versions_view()[k] != version@,
            decreases self.versions.len() - i,
        {
            if crate::text::str_eq(self.versions[i].as_str(), version) {
                assert(self.versions_view()[i as int] == version@);
                return true;
            }
            i = i + 1;
        }
        false
    }

    /// Retrieves a single documentation page by version, language and slug.
    pub fn get(&self, version: &str, lang: &str, slug: &str) -> (r: Option<DocPage>)
        ensures
            ({
                let k = page_key(version@, lang@, slug@);
                match r {
                    Some(p) => self.pages_view().contains_key(k) && p@ == self.pages_view()[k],
                    None => !self.pages_view().contains_key(k),
                }
            }),
            r matches Some(p) ==> page_key(p.version@, p.lang@, p.slug@) == page_key(
                version@,
                lang@,
                slug@,
            ),
            pages_slash_free(self.pages_view()) && no_slash(version@) && no_slash(lang@) ==> (
            r matches Some(p) ==> p.version@ == version@ && p.lang@ == lang@ && p.slug@ == slug@),
    {
        proof {
            use_type_invariant(self);
        }
        let key = make_page_key(version, lang, slug);
        let ghost entries = self.page_entries();
        let mut i: usize = self.pages.len();
        while i > 0
            invariant
                i <= self.pages.len(),
                entries == self.page_entries(),
                key@ == page_key(version@, lang@, slug@),
                forall|j: int| i <= j < self.pages.len() ==> entries[j].0 != key@,
            decreases i,
        {
            if self.pages[i - 1].0 == key {
                proof {
                    assert(entries[i - 1] == (self.pages@[i - 1].0@, self.pages@[i - 1].1@));
                    assert(entries[i - 1].0 == key@);
                    lemma_entries_map_last(entries, key@, i - 1);

                }
                let p = self.pages[i - 1].1.duplicate();
                proof {
                    use_type_invariant(self);
                    assert(self.pages@[i - 1].0@ == page_key(
                        self.pages@[i - 1].1.version@,
                        self.pages@[i - 1].1.lang@,
                        self.pages@[i - 1].1.slug@,
                    ));
                    let pv = p@;
                    if pages_slash_free(self.pages_view()) && no_slash(version@) && no_slash(
                        lang@,
                    ) {
                        assert(self.pages_view().contains_key(key@));
                        lemma_page_key_parts(
                            pv.version,
                            pv.lang,
                            pv.slug,
                            version@,
                            lang@,
                            slug@,
                        );
                    }
                }
                return Some(p);
            }
            i = i - 1;
        }
        proof {
            lemma_entries_map_absent(entries, key@);
        }
        None
    }

    /// Lists all documentation pages for a version and language.
    pub fn list(&self, version: &str, lang: &str) -> (r: Vec<DocPageSummary>)
        ensures
            ({
                let k = toc_key(version@, lang@);
                summary_views(r@) == (if self.toc_view().contains_key(k) {
                    self.toc_view()[k]
                } else {
                    Seq::empty()
                })
            }),
    {
        let key = make_toc_key(version, lang);
        let ghost entries = self.toc_entries();
        let mut i: usize = self.toc.len();
        while i > 0
            invariant
                i <= self.toc.len(),
                entries == self.toc_entries(),
                key@ == toc_key(version@, lang@),
                forall|j: int| i <= j < self.toc.len() ==> entries[j].0 != key@,
            decreases i,
        {
            if self.toc[i - 1].0 == key {
                proof {
                    assert(entries[i - 1] == (
                        self.toc@[i - 1].0@,
                        summary_views(self.toc@[i - 1].1@),
                    ));
                    lemma_entries_map_last(entries, key@, i - 1);
                }
                return copy_summaries(&self.toc[i - 1].1);
            }
            i = i - 1;
        }
        proof {
            lemma_entries_map_absent(entries, key@);
        }
        let r: Vec<DocPageSummary> = Vec::new();
        assert(summary_views(r@) =~= Seq::empty());
        r
    }
}

/// A copy of a list of table-of-contents entries.
pub fn copy_summaries(s: &Vec<DocPageSummary>) -> (r: Vec<DocPageSummary>)
    ensures
        summary_views(r@) == summary_views(s@),
{
    let mut r: Vec<DocPageSummary> = Vec::new();
    let mut i: usize = 0;
    while i < s.len()
        invariant
            i <= s.len(),
            summary_views(r@) == summary_views(s@).take(i as int),
        decreases s.len() - i,
    {
        let ghost before = r@;
        r.push(duplicate_summary(&s[i]));
        assert(summary_views(r@) =~= summary_views(before).push(s@[i as int]@));
        assert(summary_views(s@).take(i + 1) =~= summary_views(s@).take(i as int).push(
            s@[i as int]@,
        ));
        i = i + 1;
    }
    assert(summary_views(s@).take(i as int) =~= summary_views(s@));
    r
}

} // verus!
