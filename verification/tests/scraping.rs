use xwdoc::babel::{BabelScraper, MAX_PAGES};
use xwdoc::images::{ImagesFilter, MAX_IMAGE_SIZE};
use xwdoc::url_scraper::UrlScraper;
use xwdoc::validation::{is_content_entry, validate_index, validate_output, EntriesField};
use xwdoc::error::Error;
use xwdoc::parser::HtmlParser;
use xwdoc::scraper_filter::{EntryDefinitionProvider, Filter, FilterContext, GenericEntriesFilter};

const BASE: &str = "https://example.com/docs";

fn page() -> &'static str {
    "<html><body><a href=\"/docs/a\">A</a><a href=\"https://other.com/x\">X</a><a href=\"#top\">T</a><a href=\"mailto:me@example.com\">M</a><a href=\"b\">B</a><a href=\"/docs/a#part\">A again</a><a href=\"/docs/private/p\">P</a></body></html>"
}

#[test]
fn internal_links_are_joined_filtered_and_unique() {
    let s = UrlScraper::new("Test", "1.0", BASE, "out");
    let links = s.find_internal_links(page(), BASE);
    assert_eq!(links, vec!["https://example.com/docs/a".to_string(), "https://example.com/docs/private/p".to_string()]);
}

#[test]
fn skip_patterns_remove_links_and_paths() {
    let s = UrlScraper::new("Test", "1.0", BASE, "out").with_skip_patterns(vec!["private"]);
    let links = s.find_internal_links(page(), BASE);
    assert_eq!(links, vec!["https://example.com/docs/a".to_string()]);
    assert!(s.should_skip_link("https://example.com/docs/private/x"));
    assert!(!s.should_skip_link("https://example.com/docs/public"));
    assert!(s.should_skip_path("https://example.com/docs/private/x"));
    assert!(!s.should_skip_path("https://example.com/docs/privately"));
    assert!(s.should_skip_path("private/y"));
}

#[test]
fn trailing_slash_is_added_to_directory_links() {
    let s = UrlScraper::new("Test", "1.0", "http://localhost/docs", "out").with_trailing_slash(true);
    let html = "<a href=\"/docs/guide\">G</a><a href=\"/docs/file.html\">F</a>";
    let links = s.find_internal_links(html, "http://localhost/docs");
    assert_eq!(links, vec!["http://localhost/docs/guide/".to_string(), "http://localhost/docs/file.html".to_string()]);
    // A link whose text holds a dot anywhere, the host included, is left as it is.
    let dotted = UrlScraper::new("Test", "1.0", BASE, "out").with_trailing_slash(true);
    let links = dotted.find_internal_links("<a href=\"/docs/guide\">G</a>", BASE);
    assert_eq!(links, vec!["https://example.com/docs/guide".to_string()]);
}

#[test]
fn urls_for_paths_and_fetches() {
    let s = UrlScraper::new("Test", "1.0", "https://example.com/docs/", "out");
    assert_eq!(s.url_for(""), "https://example.com/docs/");
    assert_eq!(s.url_for("/"), "https://example.com/docs/");
    assert_eq!(s.url_for("intro"), "https://example.com/docs/intro");
    assert_eq!(s.url_for("/intro"), "https://example.com/docs/intro");
    assert_eq!(s.url_for("https://x.org/a"), "https://x.org/a");
    assert_eq!(s.fetch_url("/x"), "https://example.com/docs/x");
    assert_eq!(s.fetch_url("http://y.org"), "http://y.org");
}

#[test]
fn page_paths_under_the_base() {
    let s = UrlScraper::new("Test", "1.0", BASE, "out");
    assert_eq!(s.page_path(BASE), "index");
    assert_eq!(s.page_path("https://example.com/docs/"), "index");
    assert_eq!(s.page_path("https://example.com/docs/a/b"), "a/b");
    assert_eq!(s.page_path("https://other.com/z"), "https://other.com/z");
}

#[test]
fn crawl_visits_each_page_once() {
    let s = UrlScraper::new("Test", "1.0", BASE, "out").with_initial_paths(vec!["/".to_string(), "extra".to_string()]);
    let mut st = s.start_crawl();
    assert_eq!(st.queue, vec![BASE.to_string(), "https://example.com/docs/extra".to_string()]);
    assert!(st.processed.is_empty());

    let first = s.next_url(&mut st).unwrap();
    assert_eq!(first, "https://example.com/docs/extra");
    s.handle_page(&mut st, &first, "<p>extra</p>").unwrap();
    assert_eq!(st.page_db.get("extra").unwrap(), "<p>extra</p>");

    let second = s.next_url(&mut st).unwrap();
    assert_eq!(second, BASE);
    s.handle_page(&mut st, &second, page()).unwrap();
    assert_eq!(st.page_db.get("index").unwrap(), page());
    assert_eq!(st.queue.len(), 2);

    let third = s.next_url(&mut st).unwrap();
    assert_eq!(third, "https://example.com/docs/private/p");
    let fourth = s.next_url(&mut st).unwrap();
    assert_eq!(fourth, "https://example.com/docs/a");
    // Handling the root page again queues nothing already visited.
    s.handle_page(&mut st, &second, page()).unwrap();
    assert!(st.queue.is_empty());
    assert!(s.next_url(&mut st).is_none());
    assert_eq!(st.processed.len(), 4);
}

#[test]
fn slugs_and_meta_record() {
    let s = UrlScraper::new("Test Docs", "1.0+beta#2", BASE, "out");
    assert_eq!(s.version_slug(), "1.0pbetas2");
    assert_eq!(s.meta_slug(), "test docs~1.0pbetas2");
    let m = s.meta_record("abcd");
    assert_eq!(m.name, "Test Docs");
    assert_eq!(m.doc_type, "simple");
    assert_eq!(m.links, Some(vec![("home".to_string(), BASE.to_string())]));
    assert_eq!(m.version, Some("1.0+beta#2".to_string()));
    assert_eq!(m.db_size, 4);

    let unversioned = UrlScraper::new("Plain", "", BASE, "out")
        .with_string_links(vec![("code".to_string(), "https://git.example.com".to_string())]);
    assert_eq!(unversioned.version_slug(), "");
    assert_eq!(unversioned.meta_slug(), "plain");
    let m = unversioned.meta_record("");
    assert_eq!(m.links, Some(vec![("code".to_string(), "https://git.example.com".to_string())]));
    assert_eq!(m.version, None);
    assert_eq!(m.db_size, 0);
}

#[test]
fn babel_settings_and_urls() {
    let b = BabelScraper::new("7.0");
    assert_eq!(b.name(), "Babel");
    assert_eq!(b.version(), Some("7.0"));
    assert_eq!(b.base_url(), "https://babeljs.io/docs");
    assert_eq!(b.output_path(), "output");
    assert_eq!(b.doc_type(), Some("simple"));
    assert_eq!(b.release(), Some("7.21.4"));
    assert_eq!(b.get_latest_version(), Ok("7.21.4".to_string()));
    assert_eq!(b.docs_url(), "https://babeljs.io/docs/7.0");
    assert_eq!(BabelScraper::new("latest").docs_url(), "https://babeljs.io/docs");
    assert_eq!(b.page_url("/plugins"), "https://babeljs.io/docs/plugins");
    assert_eq!(b.page_file("/docs/plugins"), "docs/plugins.html");
    assert_eq!(b.page_file("/docs/"), "docs//index.html");
    assert_eq!(b.page_file("/"), "/index.html");
}

#[test]
fn babel_collects_kept_links() {
    let b = BabelScraper::new("7.0");
    let html = "<a href=\"/docs/plugins\">Plugins</a><a href=\"/docs/usage/x\">Usage</a><a href=\"http://x.com/a\">X</a><a href=\"/docs/empty\">   </a><a href=\"/docs/q\"> Say \"hi\" </a>";
    let (links, entries) = b.collect_links(html);
    assert_eq!(links, vec!["/docs/plugins".to_string(), "/docs/q".to_string()]);
    assert_eq!(entries[0], "{\n  \"path\": \"/docs/plugins\",\n  \"title\": \"Plugins\",\n  \"type\": \"doc\"  \n}");
    assert_eq!(entries[1], "{\n  \"path\": \"/docs/q\",\n  \"title\": \"Say \\\"hi\\\"\",\n  \"type\": \"doc\"  \n}");
    let json = b.index_json(&entries);
    assert!(json.starts_with("{\n  \"name\": \"Babel\",\n  \"version\": \"7.0\",\n  \"release\": \"7.21.4\""));
    assert!(json.contains("\"home\": \"https://babeljs.io/docs\""));
    assert!(json.ends_with("\"type\": \"doc\"  \n}\n  ]\n}"));
    let empty = b.index_json(&Vec::new());
    assert!(empty.ends_with("\"entries\": [\n    \n  ]\n}"));
}

#[test]
fn babel_page_content_and_limits() {
    let b = BabelScraper::new("7.0");
    let content = b.page_content("<html><body><nav>n</nav><main><p>x</p></main></body></html>");
    assert!(content.contains("<p>x</p>"));
    assert!(!content.contains("<nav>"));
    assert_eq!(b.page_content("<p>no main</p>"), "");
    assert_eq!(b.after_failed_fetch(0), (1, false));
    assert_eq!(b.after_failed_fetch(2), (3, true));
    assert!(b.page_limit_reached(MAX_PAGES));
    assert!(!b.page_limit_reached(MAX_PAGES - 1));
}

#[test]
fn image_sources() {
    let f = ImagesFilter::new();
    assert!(f.relative_url_string("img/a.png"));
    assert!(!f.relative_url_string("https://x.org/a.png"));
    assert!(!f.relative_url_string("//cdn.x.org/a.png"));
    assert_eq!(f.image_url("img/a.png", "https://ex.com/docs/"), Some("https://ex.com/docs/img/a.png".to_string()));
    assert_eq!(f.image_url("/img/a.png", "https://ex.com/docs/"), Some("https://ex.com/docs/img/a.png".to_string()));
    assert_eq!(f.image_url("http://x.org/a.png", "https://ex.com"), Some("http://x.org/a.png".to_string()));
    assert_eq!(f.image_url("data:image/png;base64,AA", "https://ex.com"), None);
    assert_eq!(f.image_url("", "https://ex.com"), None);
}

#[test]
fn image_data_urls() {
    let f = ImagesFilter::new();
    assert_eq!(f.data_url("a.png", b"hello").unwrap(), "data:image/png;base64,aGVsbG8=");
    assert_eq!(f.data_url("a.unknownext", &[0u8]).unwrap(), "data:application/octet-stream;base64,AA==");
    let big = vec![0u8; (MAX_IMAGE_SIZE + 1) as usize];
    let err = f.data_url("big.png", &big).unwrap_err();
    assert_eq!(err.message(), "Image big.png exceeds maximum size of 2097152");
}

#[test]
fn image_sources_are_replaced() {
    let f = ImagesFilter::new();
    assert_eq!(f.source_selector("a.png"), "img[src='a.png']");
    let html = "<p><img src=\"a.png\"><img src=\"b.png\"></p>";
    let out = f.update_image(html, "a.png", "data:x");
    assert!(out.contains("src=\"data:x\""));
    assert!(out.contains("src=\"b.png\""));
    assert!(!out.contains("src=\"a.png\""));
    let tried = f.try_update_image(html, "b.png", "data:y").unwrap();
    assert!(tried.contains("src=\"data:y\""));
}

#[test]
fn output_validation_outcomes() {
    let entry = |n: usize| Some((0..n).map(|i| Some(format!("f{}", i))).collect::<Vec<Option<String>>>());
    let ok = EntriesField::Array(vec![entry(3), None]);
    assert_eq!(validate_output(true, true, &ok), Ok(2));
    assert_eq!(validate_output(false, true, &ok), Err("索引文件不存在".to_string()));
    assert_eq!(validate_output(true, false, &ok), Err("未生成 HTML 文件".to_string()));
    assert_eq!(validate_output(true, true, &EntriesField::Missing), Err("索引文件格式错误".to_string()));
    assert_eq!(validate_output(true, true, &EntriesField::NotArray), Err("索引文件格式错误".to_string()));
    assert_eq!(validate_output(true, true, &EntriesField::Array(vec![])), Err("没有文档条目".to_string()));
    assert_eq!(validate_output(true, true, &EntriesField::Array(vec![None])), Err("条目格式不正确".to_string()));
    assert_eq!(validate_output(true, true, &EntriesField::Array(vec![entry(2)])), Err("条目结构不正确".to_string()));
    assert!(is_content_entry(true, None));
    assert!(is_content_entry(false, Some("html")));
    assert!(!is_content_entry(false, Some("txt")));
    assert!(!is_content_entry(false, None));
}

struct FixedProvider {
    entry_type: Option<&'static str>,
}

impl EntryDefinitionProvider for FixedProvider {
    fn get_entry_name(&self, _document: &HtmlParser, _context: &FilterContext) -> Option<String> {
        Some("  Intro ".to_string())
    }

    fn get_entry_type(&self, _name: &str, _context: &FilterContext) -> Option<String> {
        self.entry_type.map(|t| t.to_string())
    }
}

#[test]
fn generic_entries_filter_records_pages() {
    let filter = GenericEntriesFilter::new(FixedProvider { entry_type: Some("Guide") });
    let mut ctx = FilterContext::new("", "intro");
    assert_eq!(filter.apply("<p>x</p>", &mut ctx).unwrap(), "<p>x</p>");
    assert_eq!(ctx.entries.len(), 1);

    let mut root = FilterContext::new("", "/");
    assert_eq!(filter.apply("<p>r</p>", &mut root).unwrap(), "<p>r</p>");
    assert!(root.entries.is_empty());

    let untyped = GenericEntriesFilter::new(FixedProvider { entry_type: None });
    let mut ctx = FilterContext::new("", "intro");
    assert!(matches!(untyped.apply("<p>x</p>", &mut ctx), Err(Error::Entry(_))));
    assert!(ctx.entries.is_empty());
}

#[test]
fn images_to_fetch_and_inline() {
    let f = ImagesFilter::new();
    let html = "<p><img src=\"a.png\"><img src=\"data:x\"><img><img src=\"https://cdn.org/b.png\"></p>";
    let sources = f.image_sources(html, "https://ex.com/docs/");
    assert_eq!(
        sources,
        vec![
            ("a.png".to_string(), "https://ex.com/docs/a.png".to_string()),
            ("https://cdn.org/b.png".to_string(), "https://cdn.org/b.png".to_string())
        ]
    );
    let updates = vec![("a.png".to_string(), "data:image/png;base64,AA==".to_string())];
    let out = f.inline_images(html, &updates);
    assert!(out.contains("src=\"data:image/png;base64,AA==\""));
    assert!(out.contains("src=\"https://cdn.org/b.png\""));
    assert!(!out.contains("src=\"a.png\""));
    let unchanged = f.inline_images("<p>x</p>", &Vec::new());
    assert!(unchanged.contains("<p>x</p>"));
}

#[test]
fn babel_page_titles() {
    let b = BabelScraper::new("7.0");
    assert_eq!(b.page_title("<html><head><title>Babel Docs</title></head><body></body></html>"), "Babel Docs");
    assert_eq!(b.page_title("<p>none</p>"), "");
}

struct PathTag;

impl Filter for PathTag {
    fn apply(&self, html: &str, context: &mut FilterContext) -> xwdoc::error::Result<String> {
        let out = format!("{}|{}|{}", html, context.current_path, context.current_url);
        context.current_path = "changed".to_string();
        Ok(out)
    }

    fn get_entries(&self, _html: &str, context: &FilterContext) -> Vec<(String, String, String)> {
        vec![("Tagged".to_string(), context.current_path.clone(), "Guide".to_string())]
    }
}

#[test]
fn filters_get_the_page_context_in_turn() {
    let s = UrlScraper::new("Test", "1.0", BASE, "out").with_filter(Box::new(PathTag)).with_filter(Box::new(PathTag));
    let mut st = s.start_crawl();
    let url = "https://example.com/docs/a/b";
    s.handle_page(&mut st, url, "<p>x</p>").unwrap();
    // The first filter sees the stored path; the second, the context as the first left it.
    assert_eq!(st.page_db.get("a/b").unwrap(), "<p>x</p>|a/b|https://example.com/docs/a/b|changed|https://example.com/docs/a/b");
    assert_eq!(st.entry_index.len(), 1);
}

#[test]
fn crawl_queue_gets_unvisited_links_in_page_order() {
    let s = UrlScraper::new("Test", "1.0", BASE, "out").with_initial_paths(vec!["b".to_string(), "a".to_string(), "b".to_string(), "/".to_string()]);
    let mut st = s.start_crawl();
    assert_eq!(st.queue, vec![BASE.to_string(), "https://example.com/docs/b".to_string(), "https://example.com/docs/a".to_string()]);
    st.queue.clear();
    st.processed.push("https://example.com/docs/a".to_string());
    s.handle_page(&mut st, BASE, page()).unwrap();
    assert_eq!(st.queue, vec!["https://example.com/docs/private/p".to_string()]);
}

#[test]
fn index_text_validation() {
    let text = r#"{"entries": [["Intro", "intro", "Guide"], ["Short"], ["Api", "api", 7], ["Four", "four", "Ref"]], "types": []}"#;
    let (count, rows) = validate_index(true, true, text).unwrap();
    assert_eq!(count, 4);
    assert_eq!(rows, vec![
        (1, "Intro".to_string(), "Guide".to_string(), "intro".to_string()),
        (3, "Api".to_string(), "未知".to_string(), "api".to_string()),
    ]);
    assert_eq!(validate_index(false, true, text), Err("索引文件不存在".to_string()));
    assert_eq!(validate_index(true, false, text), Err("未生成 HTML 文件".to_string()));
    assert_eq!(validate_index(true, true, r#"{"types": []}"#), Err("索引文件格式错误".to_string()));
    assert_eq!(validate_index(true, true, r#"{"entries": {}}"#), Err("索引文件格式错误".to_string()));
    assert_eq!(validate_index(true, true, r#"{"entries": []}"#), Err("没有文档条目".to_string()));
    assert_eq!(validate_index(true, true, r#"{"entries": ["x"]}"#), Err("条目格式不正确".to_string()));
    assert_eq!(validate_index(true, true, r#"{"entries": [["a", "b"]]}"#), Err("条目结构不正确".to_string()));
    let bad = validate_index(true, true, "{not json").unwrap_err();
    assert!(bad.contains("line 1"));
}
