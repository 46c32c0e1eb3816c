//! Request and response shapes of the HTTP API that carry only plain values.
use vstd::prelude::*;

verus! {

#[derive(Debug, Clone)]
pub struct HealthResponse {
    pub status: String,
    pub version: String,
}

#[derive(Debug, Clone)]
pub struct UpdateQuery {
    pub platform: Option<String>,
    pub arch: Option<String>,
}

#[derive(Debug, Clone)]
pub struct SyncReleaseRequest {
    pub tag: Option<String>,
}

#[derive(Debug, Clone)]
pub struct SyncResponse {
    pub synced: usize,
    pub message: String,
}

/// One entry of a documentation table of contents.
#[derive(Debug, Clone)]
pub struct DocPageSummary {
    pub slug: String,
    pub title: String,
    pub lang: String,
}

/// The plain-value view of a [`DocPageSummary`].
pub struct SummaryView {
    pub slug: Seq<char>,
    pub title: Seq<char>,
    pub lang: Seq<char>,
}

impl View for DocPageSummary {
    type V = SummaryView;

    open spec fn view(&self) -> SummaryView {
        SummaryView { slug: self.slug@, title: self.title@, lang: self.lang@ }
    }
}

#[derive(Debug, Clone)]
pub struct DocPageResponse {
    pub slug: String,
    pub title: String,
    pub lang: String,
    pub version: String,
    pub html: String,
}

#[derive(Debug, Clone)]
pub struct DocsIndexResponse {
    /// The documentation version these TOCs belong to.
    pub version: String,
    pub zh: Vec<DocPageSummary>,
    pub en: Vec<DocPageSummary>,
}

#[derive(Debug, Clone)]
pub struct DocsVersionsResponse {
    pub versions: Vec<String>,
    pub latest: String,
}

#[derive(Debug, Clone)]
pub struct DocsIndexQuery {
    /// Documentation version to list. Defaults to the index's default version.
    pub version: Option<String>,
}

} // verus!
