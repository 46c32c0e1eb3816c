//! What the documentation endpoints answer, given the current index.
use vstd::prelude::*;

use crate::docs::{no_slash, page_key, pages_slash_free, summary_views, toc_key, DocPageView, DocsIndex};
use crate::error::AppError;
use crate::models::{
    DocPageResponse, DocsIndexQuery, DocsIndexResponse, DocsVersionsResponse, SummaryView,
};
use crate::text::{str_concat, str_views};

verus! {

/// The default version of the index, or the empty string when it has none.
pub open spec fn default_or_empty(docs: &DocsIndex) -> Seq<char> {
    if docs.versions_view().len() > 0 {
        docs.versions_view()[0]
    } else {
        Seq::empty()
    }
}

/// The table of contents held under `key`, or an empty one.
pub open spec fn toc_or_empty(docs: &DocsIndex, key: Seq<char>) -> Seq<SummaryView> {
    if docs.toc_view().contains_key(key) {
        docs.toc_view()[key]
    } else {
        Seq::empty()
    }
}

/// The message of the answer for a version the index does not hold.
pub open spec fn unknown_version_message(version: Seq<char>) -> Seq<char> {
    "unknown docs version '"@ + version + "'"@
}

/// The message of the answer for a page the index does not hold.
pub open spec fn missing_doc_message(version: Seq<char>, lang: Seq<char>, slug: Seq<char>) -> Seq<
    char,
> {
    "doc "@ + version + "/"@ + lang + "/"@ + slug + " not found"@
}

/// A response answers a request for `version`, `lang` and `slug`: its key is
/// the requested one, and when neither the request nor the index holds a
/// version or language with `/` in it, its version, language and slug are
/// the requested ones.
pub open spec fn answers_request(
    resp: DocPageResponse,
    docs: &DocsIndex,
    version: Seq<char>,
    lang: Seq<char>,
    slug: Seq<char>,
) -> bool {
    &&& page_key(resp.version@, resp.lang@, resp.slug@) == page_key(version, lang, slug)
    &&& pages_slash_free(docs.pages_view()) && no_slash(version) && no_slash(lang) ==> (
    resp.version@ == version && resp.lang@ == lang && resp.slug@ == slug)
}

/// A response holds exactly the fields of a page.
pub open spec fn response_is_page(r: DocPageResponse, p: DocPageView) -> bool {
    &&& r.slug@ == p.slug
    &&& r.title@ == p.title
    &&& r.lang@ == p.lang
    &&& r.version@ == p.version
    &&& r.html@ == p.html
}

fn resolve_default(docs: &DocsIndex) -> (r: String)
    ensures
        r@ == default_or_empty(docs),
{
    match docs.default_version() {
        Some(v) => v,
        None => String::new(),
    }
}

fn unknown_version(version: &str) -> (r: AppError)
    ensures
        r matches AppError::NotFound(m) && m@ == unknown_version_message(version@),
{
    let mut m = str_concat("unknown docs version '", version);
    m.append("'");
    AppError::NotFound(m)
}

fn missing_doc(version: &str, lang: &str, slug: &str) -> (r: AppError)
    ensures
        r matches AppError::NotFound(m) && m@ == missing_doc_message(version@, lang@, slug@),
{
    let mut m = str_concat("doc ", version);
    m.append("/");
    m.append(lang);
    m.append("/");
    m.append(slug);
    m.append(" not found");
    AppError::NotFound(m)
}

/// Lists both languages' tables of contents for the requested version, or for
/// the default version when none is requested. A requested version that the
/// index does not hold is answered with `NotFound`.
pub fn list_docs(docs: &DocsIndex, query: DocsIndexQuery) -> (r: Result<DocsIndexResponse, AppError>)
    ensures
        match query.version {
            Some(v) if !docs.versions_view().contains(v@) => r matches Err(AppError::NotFound(m))
                && m@ == unknown_version_message(v@),
            _ => {
                let version = match query.version {
                    Some(v) => v@,
                    None => default_or_empty(docs),
                };
                r matches Ok(resp) && resp.version@ == version && summary_views(resp.zh@)
                    == toc_or_empty(docs, toc_key(version, "zh"@)) && summary_views(resp.en@)
                    == toc_or_empty(docs, toc_key(version, "en"@))
            },
        },
{
    let version = match query.version {
        Some(v) => {
            if !docs.has_version(v.as_str()) {
                return Err(unknown_version(v.as_str()));
            }
            v
        },
        None => resolve_default(docs),
    };
    let zh = docs.list(version.as_str(), "zh");
    let en = docs.list(version.as_str(), "en");
    Ok(DocsIndexResponse { version, zh, en })
}

fn page_response(version: &str, lang: &str, slug: &str, docs: &DocsIndex) -> (r: Result<
    DocPageResponse,
    AppError,
>)
    ensures
        ({
            let k = page_key(version@, lang@, slug@);
            if docs.pages_view().contains_key(k) {
                r matches Ok(resp) && response_is_page(resp, docs.pages_view()[k])
            } else {
                r matches Err(AppError::NotFound(m)) && m@ == missing_doc_message(
                    version@,
                    lang@,
                    slug@,
                )
            }
        }),
        r matches Ok(resp) ==> answers_request(resp, docs, version@, lang@, slug@),
{
    match docs.get(version, lang, slug) {
        Some(page) => Ok(
            DocPageResponse {
                slug: page.slug,
                title: page.title,
                lang: page.lang,
                version: page.version,
                html: page.html,
            },
        ),
        None => Err(missing_doc(version, lang, slug)),
    }
}

/// Answers a page of the default version.
pub fn get_doc(docs: &DocsIndex, lang: &str, slug: &str) -> (r: Result<DocPageResponse, AppError>)
    ensures
        ({
            let v = default_or_empty(docs);
            let k = page_key(v, lang@, slug@);
            if docs.pages_view().contains_key(k) {
                r matches Ok(resp) && response_is_page(resp, docs.pages_view()[k])
            } else {
                r matches Err(AppError::NotFound(m)) && m@ == missing_doc_message(v, lang@, slug@)
            }
        }),
        r matches Ok(resp) ==> answers_request(resp, docs, default_or_empty(docs), lang@, slug@),
{
    let version = resolve_default(docs);
    page_response(version.as_str(), lang, slug, docs)
}

/// Answers a page of the requested version; a version the index does not hold
/// is answered with `NotFound` before the page is looked up.
pub fn get_versioned_doc(docs: &DocsIndex, version: &str, lang: &str, slug: &str) -> (r: Result<
    DocPageResponse,
    AppError,
>)
    ensures
        ({
            let k = page_key(version@, lang@, slug@);
            if !docs.versions_view().contains(version@) {
                r matches Err(AppError::NotFound(m)) && m@ == unknown_version_message(version@)
            } else if docs.pages_view().contains_key(k) {
                r matches Ok(resp) && response_is_page(resp, docs.pages_view()[k])
            } else {
                r matches Err(AppError::NotFound(m)) && m@ == missing_doc_message(
                    version@,
                    lang@,
                    slug@,
                )
            }
        }),
        r matches Ok(resp) ==> answers_request(resp, docs, version@, lang@, slug@),
{
    if !docs.has_version(version) {
        return Err(unknown_version(version));
    }
    page_response(version, lang, slug, docs)
}

/// Lists every version, the default one first, and names the default.
pub fn list_versions(docs: &DocsIndex) -> (r: DocsVersionsResponse)
    ensures
        str_views(r.versions@) == docs.versions_view(),
        r.latest@ == default_or_empty(docs),
{
    DocsVersionsResponse { versions: docs.versions(), latest: resolve_default(docs) }
}

} // verus!
