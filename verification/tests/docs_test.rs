use oak_website_backend::docs::{DocsIndex, VersionsManifest};
use oak_website_backend::docs_api::{get_doc, get_versioned_doc, list_docs, list_versions};
use oak_website_backend::docs_build::{
    doc_languages, html_file_slug, order_by_toc, order_versions, page_title, sort_by_slug,
    title_or_untitled, versions_to_scan,
};
use oak_website_backend::error::AppError;
use oak_website_backend::models::{DocPageSummary, DocsIndexQuery};

/// One HTML file of a docs tree: the directory that holds the language
/// directories ("" for the tree root), the language, the path below the
/// language directory, and the page title.
struct TreeFile {
    root: &'static str,
    lang: &'static str,
    rel: &'static str,
    title: &'static str,
}

/// A `toc.json` of a docs tree.
struct TreeToc {
    root: &'static str,
    lang: &'static str,
    raw: &'static str,
}

fn doc_html(title: &str) -> String {
    format!(
        "<!DOCTYPE html><html><head><title>{}</title></head><body><h1>{}</h1></body></html>",
        title, title
    )
}

fn file(root: &'static str, lang: &'static str, rel: &'static str, title: &'static str) -> TreeFile {
    TreeFile { root, lang, rel, title }
}

fn manifest(versions: &[&str], latest: Option<&str>) -> VersionsManifest {
    VersionsManifest {
        versions: versions.iter().map(|v| v.to_string()).collect(),
        latest: latest.map(|l| l.to_string()),
    }
}

/// Builds an index from an in-memory docs tree the way loading a directory does.
fn load(manifest: Option<VersionsManifest>, files: &[TreeFile], tocs: &[TreeToc]) -> DocsIndex {
    let (versions, legacy) = versions_to_scan(manifest);
    let mut index = DocsIndex::new();
    for version in &versions {
        let root = if legacy { "" } else { version.as_str() };
        for lang in doc_languages() {
            let in_lang: Vec<&TreeFile> =
                files.iter().filter(|f| f.root == root && f.lang == lang).collect();
            let toc = tocs.iter().find(|t| t.root == root && t.lang == lang);
            if in_lang.is_empty() && toc.is_none() {
                continue;
            }
            let pages: Vec<(String, String)> = in_lang
                .iter()
                .filter_map(|f| html_file_slug(f.rel).map(|slug| (slug, doc_html(f.title))))
                .collect();
            index.add_language(version, &lang, pages, toc.map(|t| t.raw));
        }
    }
    index.set_versions(versions);
    index
}

fn slugs(list: &[DocPageSummary]) -> Vec<&str> {
    list.iter().map(|p| p.slug.as_str()).collect()
}

fn versioned_fixture() -> DocsIndex {
    load(
        Some(manifest(&["0.2.0", "0.1.0"], Some("0.2.0"))),
        &[
            file("0.2.0", "en", "intro.html", "Intro v2"),
            file("0.1.0", "en", "intro.html", "Intro v1"),
        ],
        &[],
    )
}

fn api_fixture() -> DocsIndex {
    load(
        Some(manifest(&["0.2.0", "0.1.0"], Some("0.2.0"))),
        &[
            file("0.2.0", "en", "quick_start.html", "Quick Start v2"),
            file("0.2.0", "zh", "quick_start.html", "Quick Start v2 zh"),
            file("0.1.0", "en", "quick_start.html", "Quick Start v1"),
        ],
        &[],
    )
}

#[test]
fn loads_docs_index() {
    let index = load(
        None,
        &[
            file("", "zh", "quick_start.html", "Quick Start"),
            file("", "zh", "basic.html", "Basic Features"),
        ],
        &[],
    );
    let zh = index.list("latest", "zh");
    assert_eq!(zh.len(), 2);
    assert!(zh.iter().any(|p| p.slug == "quick_start"));

    let page = index.get("latest", "zh", "quick_start").unwrap();
    assert_eq!(page.title, "Quick Start");
    assert_eq!(page.version, "latest");
    assert!(page.html.contains("<h1>Quick Start"));
}

#[test]
fn legacy_layout_is_loaded_as_latest_version() {
    let index = load(None, &[file("", "zh", "quick_start.html", "Quick Start")], &[]);
    assert_eq!(index.versions(), vec!["latest".to_string()]);
    assert_eq!(index.default_version().as_deref(), Some("latest"));
    assert!(index.has_version("latest"));
    assert!(!index.has_version("0.1.0"));
}

#[test]
fn loads_versioned_docs_index() {
    let index = versioned_fixture();
    assert_eq!(index.versions(), vec!["0.2.0".to_string(), "0.1.0".to_string()]);
    assert_eq!(index.default_version().as_deref(), Some("0.2.0"));
    assert!(index.has_version("0.1.0"));
    assert!(!index.has_version("9.9.9"));

    let v2 = index.get("0.2.0", "en", "intro").unwrap();
    assert_eq!(v2.title, "Intro v2");
    assert_eq!(v2.version, "0.2.0");
    let v1 = index.get("0.1.0", "en", "intro").unwrap();
    assert_eq!(v1.title, "Intro v1");
    assert_eq!(v1.version, "0.1.0");

    assert!(index.get("9.9.9", "en", "intro").is_none());
    assert_eq!(index.list("0.1.0", "en").len(), 1);
    assert!(index.list("9.9.9", "en").is_empty());
}

#[test]
fn versions_manifest_latest_becomes_default() {
    let index = load(
        Some(manifest(&["0.2.0", "0.1.0"], Some("0.1.0"))),
        &[file("0.1.0", "en", "intro.html", "Intro")],
        &[],
    );
    assert_eq!(index.default_version().as_deref(), Some("0.1.0"));
    assert_eq!(index.versions(), vec!["0.1.0".to_string(), "0.2.0".to_string()]);
}

#[test]
fn versions_manifest_without_latest_defaults_to_first_entry() {
    let index = load(Some(manifest(&["0.2.0", "0.1.0"], None)), &[], &[]);
    assert_eq!(index.default_version().as_deref(), Some("0.2.0"));
}

#[test]
fn invalid_versions_json_falls_back_to_legacy_layout() {
    // A manifest that does not parse is treated as absent.
    let index = load(None, &[file("", "en", "intro.html", "Intro")], &[]);
    assert_eq!(index.versions(), vec!["latest".to_string()]);
    assert!(index.get("latest", "en", "intro").is_some());
}

#[test]
fn skips_genindex_and_search() {
    let index = load(
        None,
        &[
            file("", "zh", "quick_start.html", "Quick Start"),
            file("", "zh", "genindex.html", "Index"),
            file("", "zh", "search.html", "Search"),
        ],
        &[],
    );
    assert_eq!(index.list("latest", "zh").len(), 1);
}

#[test]
fn missing_dir_returns_empty_index() {
    let index = DocsIndex::new();
    assert!(index.list("latest", "zh").is_empty());
    assert!(index.list("latest", "en").is_empty());
    assert!(index.versions().is_empty());
    assert_eq!(index.default_version(), None);
}

#[test]
fn loads_nested_docs() {
    let index = load(None, &[file("", "en", "guide/intro.html", "Intro")], &[]);
    let en = index.list("latest", "en");
    assert!(en.iter().any(|p| p.slug == "guide/intro"));
    assert!(index.get("latest", "en", "guide/intro").is_some());
}

#[test]
fn sorts_docs_by_toctree_and_appends_unknown_alphabetically() {
    let index = load(
        None,
        &[
            file("", "en", "basic.html", "Basic"),
            file("", "en", "quick_start.html", "Quick Start"),
            file("", "en", "advanced.html", "Advanced"),
        ],
        &[TreeToc { root: "", lang: "en", raw: r#"["quick_start", "basic"]"# }],
    );
    let en = index.list("latest", "en");
    assert_eq!(slugs(&en), vec!["quick_start", "basic", "advanced"]);
}

#[test]
fn falls_back_to_alphabetical_when_toc_json_is_missing() {
    let index = load(
        None,
        &[file("", "zh", "zzz.html", "Zzz"), file("", "zh", "aaa.html", "Aaa")],
        &[],
    );
    let zh = index.list("latest", "zh");
    assert_eq!(slugs(&zh), vec!["aaa", "zzz"]);
}

#[test]
fn toc_json_that_does_not_parse_leaves_alphabetical_order() {
    let index = load(
        None,
        &[file("", "en", "b.html", "B"), file("", "en", "a.html", "A")],
        &[TreeToc { root: "", lang: "en", raw: "not json" }],
    );
    assert_eq!(slugs(&index.list("latest", "en")), vec!["a", "b"]);
}

#[test]
fn toc_entries_without_pages_are_ignored() {
    let index = load(
        None,
        &[file("", "en", "b.html", "B"), file("", "en", "a.html", "A")],
        &[TreeToc { root: "", lang: "en", raw: r#"["missing", "b"]"# }],
    );
    assert_eq!(slugs(&index.list("latest", "en")), vec!["b", "a"]);
}

#[test]
fn later_language_load_replaces_page_and_toc() {
    let mut index = DocsIndex::new();
    index.add_language("v", "en", vec![("p".to_string(), doc_html("One"))], None);
    index.add_language("v", "en", vec![("p".to_string(), doc_html("Two"))], None);
    assert_eq!(index.get("v", "en", "p").unwrap().title, "Two");
    assert_eq!(index.list("v", "en").len(), 1);
    assert!(index.get("v", "zh", "p").is_none());
}

#[test]
fn order_versions_drops_empty_names_and_moves_latest_first() {
    let v = |xs: &[&str]| xs.iter().map(|x| x.to_string()).collect::<Vec<String>>();
    assert_eq!(
        order_versions(v(&["a", "", "b", "c"]), Some("c".to_string())),
        v(&["c", "a", "b"])
    );
    assert_eq!(order_versions(v(&["a", "b"]), Some("zzz".to_string())), v(&["a", "b"]));
    assert_eq!(order_versions(v(&["", ""]), None), Vec::<String>::new());
    assert_eq!(order_versions(v(&["a", "b", "b"]), Some("b".to_string())), v(&["b", "a", "b"]));
}

#[test]
fn html_file_slug_strips_extension_and_keeps_directories() {
    assert_eq!(html_file_slug("intro.html").as_deref(), Some("intro"));
    assert_eq!(html_file_slug("guide/intro.html").as_deref(), Some("guide/intro"));
    assert_eq!(html_file_slug("a/b/c.html").as_deref(), Some("a/b/c"));
    assert_eq!(html_file_slug("toc.json"), None);
    assert_eq!(html_file_slug("notes.htm"), None);
}

#[test]
fn page_title_reads_and_decodes_title_element() {
    assert_eq!(page_title(&doc_html("Quick Start")), "Quick Start");
    assert_eq!(page_title("<title>A &amp; B</title>"), "A & B");
    assert_eq!(page_title("<html><body>no title</body></html>"), "Untitled");
    assert_eq!(title_or_untitled(None), "Untitled");
    assert_eq!(title_or_untitled(Some("T".to_string())), "T");
}

#[test]
fn sort_by_slug_orders_alphabetically() {
    let s = |slug: &str| DocPageSummary {
        slug: slug.to_string(),
        title: String::new(),
        lang: "en".to_string(),
    };
    let sorted = sort_by_slug(&vec![s("c"), s("a"), s("b")]);
    assert_eq!(slugs(&sorted), vec!["a", "b", "c"]);
    let ordered = order_by_toc(vec![s("c"), s("a"), s("b")], Some(vec!["b".to_string()]));
    assert_eq!(slugs(&ordered), vec!["b", "a", "c"]);
}

#[test]
fn list_docs_returns_empty_when_no_docs() {
    let index = DocsIndex::new();
    let resp = list_docs(&index, DocsIndexQuery { version: None }).unwrap();
    assert!(resp.zh.is_empty());
    assert!(resp.en.is_empty());
    assert_eq!(resp.version, "");
}

#[test]
fn get_doc_returns_html() {
    let index = load(None, &[file("", "zh", "quick_start.html", "Quick Start")], &[]);
    let resp = get_doc(&index, "zh", "quick_start").unwrap();
    assert!(resp.html.contains("Quick Start"));
    assert_eq!(resp.version, "latest");
}

#[test]
fn list_docs_uses_default_version() {
    let index = api_fixture();
    let resp = list_docs(&index, DocsIndexQuery { version: None }).unwrap();
    assert_eq!(resp.version, "0.2.0");
    assert_eq!(resp.en.len(), 1);
    assert_eq!(resp.en[0].title, "Quick Start v2");
    assert_eq!(resp.zh.len(), 1);
}

#[test]
fn list_docs_with_version_query() {
    let index = api_fixture();
    let resp = list_docs(&index, DocsIndexQuery { version: Some("0.1.0".to_string()) }).unwrap();
    assert_eq!(resp.version, "0.1.0");
    assert_eq!(resp.en[0].title, "Quick Start v1");
}

#[test]
fn list_docs_with_unknown_version_returns_404() {
    let index = api_fixture();
    let err = list_docs(&index, DocsIndexQuery { version: Some("9.9.9".to_string()) }).unwrap_err();
    assert_eq!(err.status_code(), 404);
    assert_eq!(err, AppError::NotFound("unknown docs version '9.9.9'".to_string()));
}

#[test]
fn list_versions_returns_all_versions() {
    let index = api_fixture();
    let resp = list_versions(&index);
    assert_eq!(resp.versions, vec!["0.2.0".to_string(), "0.1.0".to_string()]);
    assert_eq!(resp.latest, "0.2.0");
}

#[test]
fn get_doc_uses_default_version() {
    let index = api_fixture();
    let resp = get_doc(&index, "en", "quick_start").unwrap();
    assert_eq!(resp.version, "0.2.0");
    assert_eq!(resp.title, "Quick Start v2");
}

#[test]
fn get_versioned_doc_returns_requested_version() {
    let index = api_fixture();
    let resp = get_versioned_doc(&index, "0.1.0", "en", "quick_start").unwrap();
    assert_eq!(resp.version, "0.1.0");
    assert_eq!(resp.title, "Quick Start v1");
}

#[test]
fn get_versioned_doc_unknown_version_returns_404() {
    let index = api_fixture();
    let err = get_versioned_doc(&index, "9.9.9", "en", "quick_start").unwrap_err();
    assert_eq!(err.status_code(), 404);
}

#[test]
fn get_versioned_doc_unknown_doc_returns_404() {
    let index = api_fixture();
    let err = get_versioned_doc(&index, "0.2.0", "en", "nonexistent").unwrap_err();
    assert_eq!(err.status_code(), 404);
    assert_eq!(err, AppError::NotFound("doc 0.2.0/en/nonexistent not found".to_string()));
}

#[test]
fn sort_by_slug_keeps_order_of_equal_slugs() {
    let s = |slug: &str, title: &str| DocPageSummary {
        slug: slug.to_string(),
        title: title.to_string(),
        lang: "en".to_string(),
    };
    let sorted = sort_by_slug(&vec![s("b", "first"), s("a", "x"), s("b", "second")]);
    let titles: Vec<&str> = sorted.iter().map(|p| p.title.as_str()).collect();
    assert_eq!(titles, vec!["x", "first", "second"]);
}

#[test]
fn every_listed_entry_names_a_readable_page() {
    let index = versioned_fixture();
    for version in index.versions() {
        for lang in ["en", "zh"] {
            let listed = index.list(&version, lang);
            for (k, entry) in listed.iter().enumerate() {
                let page = index.get(&version, lang, &entry.slug).unwrap();
                assert_eq!(page.title, entry.title);
                assert_eq!(page.lang, lang);
                assert_eq!(entry.lang, lang);
                assert!(listed[k + 1..].iter().all(|other| other.slug != entry.slug));
            }
        }
    }
    assert!(index.list("9.9.9", "en").is_empty());
    assert_eq!(index.list("0.1.0", "en").len(), 1);
}
