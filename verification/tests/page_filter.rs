use xwdoc::page_filter::{Filter, FilterContext};
use xwdoc::urls::ParsedUrl;

fn filter_at(base: &str, page: &str) -> Filter {
    let mut ctx = FilterContext::default();
    ctx.base_url = Some(ParsedUrl::parse(base).unwrap());
    ctx.url = Some(ParsedUrl::parse(page).unwrap());
    ctx.root_path = Some("start".to_string());
    ctx.initial_paths = vec!["guide/b.html".to_string()];
    Filter::new("<p>x</p>", ctx)
}

#[test]
fn subpaths_under_the_base() {
    let f = filter_at("https://example.com/docs/", "https://example.com/docs/guide/a.html");
    assert_eq!(f.doc, "<p>x</p>");
    assert_eq!(f.subpath(), "guide/a.html");
    assert_eq!(f.slug(), "guide/a");
    assert!(!f.is_root_page());
    assert!(!f.is_initial_page());
    let other = ParsedUrl::parse("https://other.org/docs/x").unwrap();
    assert_eq!(f.subpath_to(&other), "");
    let upper = ParsedUrl::parse("https://example.com/DOCS/Intro").unwrap();
    assert_eq!(f.subpath_to(&upper), "Intro");
    let outside = ParsedUrl::parse("https://example.com/blog/x").unwrap();
    assert_eq!(f.subpath_to(&outside), "");
    let base_dir = filter_at("https://example.com/docs", "https://example.com/docs/x.html");
    assert_eq!(base_dir.subpath(), "/x.html");
    assert_eq!(base_dir.slug(), "x");
}

#[test]
fn root_and_initial_pages() {
    let root = filter_at("https://example.com/docs/", "https://example.com/docs/");
    assert_eq!(root.subpath(), "");
    assert!(root.is_root_page());
    assert!(root.is_initial_page());
    let start = filter_at("https://example.com/docs/", "https://example.com/docs/start");
    assert!(start.is_root_page());
    let initial = filter_at("https://example.com/docs/", "https://example.com/docs/guide/b.html");
    assert!(!initial.is_root_page());
    assert!(initial.is_initial_page());
    let bare = Filter::new("", FilterContext::default());
    assert_eq!(bare.subpath(), "");
    assert!(bare.base_url().is_none());
    assert!(bare.is_root_page());
}

#[test]
fn link_kinds_and_clean_paths() {
    let f = Filter::new("", FilterContext::default());
    assert!(f.is_fragment_url_string("#top"));
    assert!(f.is_data_url_string("data:image/png;base64,AA"));
    assert!(f.is_absolute_url_string("https://x.org"));
    assert!(f.is_absolute_url_string("//cdn.x.org/a.js"));
    assert!(f.is_relative_url_string("guide/a.html"));
    assert!(!f.is_relative_url_string("#top"));
    assert!(!f.is_relative_url_string("data:x"));
    assert!(!f.is_relative_url_string("ftp://x"));
    assert_eq!(f.clean_path("a!b;c:d+e"), "a-b-c-d_e");
    assert_eq!(f.clean_path(""), "");
}
