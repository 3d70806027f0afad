use xwdoc::core_filters::{InternalUrlsFilter, NormalizePathsFilter, NormalizeUrlsFilter, ParseCfEmailFilter,
    ApplyBaseUrlFilter as BaseUrlPaths, ContainerFilter as BodyContainer};
use xwdoc::filter_base::FilterContext;
use xwdoc::filter_stack::{FilterIndex, FilterStack};
use xwdoc::filters::{ApplyBaseUrlFilter, CleanHtmlFilter, ContainerFilter, DefaultCleanHtmlFilter};
use xwdoc::parser::parse_html;
use xwdoc::scraper_filter::FilterContext as ScraperContext;

#[test]
fn filter_stack_test_new() {
    let stack = FilterStack::new(None);
    assert_eq!(stack.length(), 0);

    let stack = FilterStack::new(Some(vec!["TestFilter".to_string()]));
    assert_eq!(stack.length(), 1);
}

#[test]
fn test_push() {
    let mut stack = FilterStack::new(None);
    stack.push(&["clean_html", "normalize_urls"]);

    assert_eq!(stack.length(), 2);
    assert!(stack.filters().contains(&"CleanHtmlFilter".to_string()));
    assert!(stack.filters().contains(&"NormalizeUrlsFilter".to_string()));
}

#[test]
fn test_insert() {
    let mut stack = FilterStack::new(None);
    stack.push(&["clean_html"]);

    stack.insert(FilterIndex::Position(0), &["normalize_urls"]).unwrap();
    assert_eq!(stack.filters()[0], "NormalizeUrlsFilter");
    assert_eq!(stack.filters()[1], "CleanHtmlFilter");
}

#[test]
fn test_insert_by_name() {
    let mut stack = FilterStack::new(None);
    stack.push(&["clean_html"]);

    stack.insert(FilterIndex::Name("clean_html"), &["normalize_urls"]).unwrap();
    assert_eq!(stack.filters()[0], "NormalizeUrlsFilter");
    assert_eq!(stack.filters()[1], "CleanHtmlFilter");
}

#[test]
fn test_insert_after() {
    let mut stack = FilterStack::new(None);
    stack.push(&["clean_html"]);

    stack.insert_after(FilterIndex::Position(0), &["normalize_urls"]).unwrap();
    assert_eq!(stack.filters()[0], "CleanHtmlFilter");
    assert_eq!(stack.filters()[1], "NormalizeUrlsFilter");
}

#[test]
fn test_replace() {
    let mut stack = FilterStack::new(None);
    stack.push(&["clean_html"]);

    stack.replace(FilterIndex::Position(0), "normalize_urls").unwrap();
    assert_eq!(stack.filters()[0], "NormalizeUrlsFilter");
    assert_eq!(stack.length(), 1);
}

#[test]
fn test_to_a() {
    let mut stack = FilterStack::new(None);
    stack.push(&["clean_html", "normalize_urls"]);

    let array = stack.to_a();
    assert_eq!(array.len(), 2);
    assert!(array.contains(&"CleanHtmlFilter".to_string()));
    assert!(array.contains(&"NormalizeUrlsFilter".to_string()));
}

#[test]
fn test_inheritable_copy() {
    let mut original = FilterStack::new(None);
    original.push(&["clean_html"]);

    let copy = original.inheritable_copy();
    assert_eq!(original.filters(), copy.filters());
    assert_eq!(original, copy);
}

#[test]
fn filter_stack_test_equality() {
    let mut stack1 = FilterStack::new(None);
    stack1.push(&["clean_html"]);

    let mut stack2 = FilterStack::new(None);
    stack2.push(&["clean_html"]);

    assert_eq!(stack1, stack2);

    stack2.push(&["normalize_urls"]);
    assert_ne!(stack1, stack2);
}

#[test]
fn test_filter_const() {
    let stack = FilterStack::new(None);
    assert_eq!(stack.filter_const("clean_html"), "CleanHtmlFilterFilter");
    assert_eq!(stack.filter_const("normalize_urls"), "NormalizeUrlsFilterFilter");
}

#[test]
fn test_assert_index_errors() {
    let stack = FilterStack::new(None);

    let result = stack.assert_index(FilterIndex::Position(10));
    assert!(result.is_err());

    let result = stack.assert_index(FilterIndex::Name("nonexistent"));
    assert!(result.is_err());
}

#[test]
fn filter_stack_error_messages_and_edges() {
    let mut stack = FilterStack::new(None);
    stack.push(&["a", "b"]);
    assert_eq!(stack.assert_index(FilterIndex::Position(3)), Err("Index 3 out of bounds".to_string()));
    assert_eq!(stack.assert_index(FilterIndex::Name("zzz")), Err("No such filter to insert: zzz".to_string()));
    assert_eq!(stack.assert_index(FilterIndex::Name("b")), Ok(1));
    assert_eq!(stack.insert_after(FilterIndex::Position(2), &["c"]), Err("Index 3 out of bounds".to_string()));
    stack.insert_before(FilterIndex::Name("b"), &["x", "y"]).unwrap();
    assert_eq!(stack.to_a(), vec!["AFilter", "XFilter", "YFilter", "BFilter"]);
    assert_eq!(stack.camelize("hello_WORLD__x"), "HelloWorldX");
}

#[test]
fn test_parser() {
    let html = r#"<html><head><title>Test</title></head><body><h1>Hello</h1><p>World</p></body></html>"#;
    let parser = parse_html(html);

    assert_eq!(parser.title().unwrap(), "Test");
    assert_eq!(parser.get_text("h1").unwrap(), "Hello");
    assert_eq!(parser.get_text("p").unwrap(), "World");
}

#[test]
fn test_clean() {
    let html = r#"<html><head><title>Test</title><script>alert('test');</script><style>body { color: red; }</style></head><body><h1 class="title" id="main" style="color: blue;">Hello</h1><p>World</p><!-- Comment --></body></html>"#;
    let mut parser = parse_html(html);

    parser.clean();

    let cleaned_html = parser.html();

    assert!(!cleaned_html.contains("<script>"));
    assert!(!cleaned_html.contains("<style>"));
    assert!(!cleaned_html.contains("class="));
    assert!(!cleaned_html.contains("id="));
    assert!(!cleaned_html.contains("style="));
    assert!(!cleaned_html.contains("<!-- Comment -->"));
    assert!(cleaned_html.contains("<h1>Hello</h1>"));
    assert!(cleaned_html.contains("<p>World</p>"));
}

#[test]
fn parser_checked_queries() {
    let mut parser = parse_html("<div><a href='x'>L</a></div>");
    assert!(parser.try_get_text("::::").is_none());
    assert_eq!(parser.try_get_attr("a", "href").unwrap().unwrap(), "x");
    assert!(parser.try_remove("a"));
    assert!(!parser.raw().contains("href"));
}

#[test]
fn test_clean_html_filter() {
    let filter = CleanHtmlFilter::new();
    let mut context = FilterContext::new();

    let html = r#"
        <html>
            <head>
                <script>alert('test');</script>
                <style>body { color: red; }</style>
            </head>
            <body>
                <div id="main" class="container" style="color: blue;">
                    <p>Hello, world!</p>
                    <!-- This is a comment -->
                </div>
            </body>
        </html>
        "#;

    let result = filter.apply(html, &mut context).unwrap();

    assert!(!result.contains("<script>"));
    assert!(!result.contains("<style>"));
    assert!(!result.contains("<!-- This is a comment -->"));
    assert!(!result.contains("id="));
    assert!(!result.contains("class="));
    assert!(!result.contains("style="));
    assert!(result.contains("<p>Hello, world!</p>"));
}

const CONTAINER_PAGE: &str = r#"
        <html>
            <head>
                <title>Test</title>
            </head>
            <body>
                <header>Header</header>
                <div class="content">
                    <p>This is the main content</p>
                </div>
                <footer>Footer</footer>
            </body>
        </html>
        "#;

#[test]
fn test_container_filter() {
    let filter = ContainerFilter::new().with_selector(".content");
    let mut context = FilterContext::new();

    let result = filter.apply(CONTAINER_PAGE, &mut context).unwrap();

    assert!(result.contains("<p>This is the main content</p>"));
    assert!(!result.contains("<header>Header</header>"));
    assert!(!result.contains("<footer>Footer</footer>"));
}

#[test]
fn test_container_filter_with_context() {
    let filter = ContainerFilter::new();
    let mut context = FilterContext::new();
    context.set_data("container_selector", ".custom-container");

    let html = r#"
        <html>
            <head>
                <title>Test</title>
            </head>
            <body>
                <header>Header</header>
                <div class="custom-container">
                    <p>This is the custom content</p>
                </div>
                <footer>Footer</footer>
            </body>
        </html>
        "#;

    let result = filter.apply(html, &mut context).unwrap();

    assert!(result.contains("<p>This is the custom content</p>"));
    assert!(!result.contains("<header>Header</header>"));
    assert!(!result.contains("<footer>Footer</footer>"));
}

#[test]
fn container_filter_without_match_keeps_page() {
    let filter = ContainerFilter::new().with_selector(".nothing");
    let mut context = FilterContext::new();
    assert_eq!(filter.apply("<p>x</p>", &mut context).unwrap(), "<p>x</p>");
    assert!(filter.try_apply("<p>x</p>", &mut context).is_some());
    let bad = ContainerFilter::new().with_selector("[[[");
    assert!(bad.try_apply("<p>x</p>", &mut context).is_none());
}

#[test]
fn body_container_filter() {
    let filter = BodyContainer::default();
    let mut context = FilterContext::new();
    let out = filter.call("<html><body><p>a</p></body></html>", &mut context).unwrap();
    assert!(out.starts_with("<body>"));
    assert!(out.contains("<p>a</p>"));
}

#[test]
fn apply_base_url_filter() {
    let filter = ApplyBaseUrlFilter::new();
    let mut context = FilterContext::new();
    assert!(filter.apply("<a href='x'>x</a>", &mut context).is_err());
    context.base_url = "https://example.com/docs/".to_string();

    let html = r##"
        <html>
            <body>
                <a href="page.html">Link</a>
                <img src="image.png" alt="Image">
                <link rel="stylesheet" href="style.css">
                <script src="script.js"></script>
                <a href="https://other.com/page">External Link</a>
                <a href="#section">Fragment Link</a>
            </body>
        </html>
        "##;

    let result = filter.apply(html, &mut context).unwrap();
    assert!(result.contains(r#"href="https://example.com/docs/page.html"#));
    assert!(result.contains(r#"src="https://example.com/docs/image.png"#));
    assert!(result.contains(r#"href="https://example.com/docs/style.css"#));
    assert!(result.contains(r#"src="https://example.com/docs/script.js"#));
    assert!(result.contains(r#"href="https://other.com/page"#));
    assert!(result.contains(r##"href="#section"##));
}

#[test]
fn apply_base_url_to_absolute_url() {
    let filter = ApplyBaseUrlFilter::new();
    assert_eq!(filter.to_absolute_url("a/b.html", "https://x.org/d/").unwrap(), "https://x.org/d/a/b.html");
    assert_eq!(filter.to_absolute_url("mailto:a@b", "nonsense").unwrap(), "mailto:a@b");
    assert!(filter.to_absolute_url("a.html", "not a url").is_err());
    assert!(filter.is_relative_url("a/b"));
    assert!(!filter.is_relative_url("#top"));
    assert!(!filter.is_relative_url("data:abc"));
}

#[test]
fn default_clean_html_filter() {
    let filter = DefaultCleanHtmlFilter;
    assert_eq!(filter.name(), "default_clean_html");
    let mut context = ScraperContext::new("", "guide");
    context.current_url = "https://example.com/docs/guide".to_string();
    context.root_url = "https://example.com/docs".to_string();
    let out = filter
        .apply("<div><script>x()</script><a href='/top'>t</a><a href='//cdn.org/a'>c</a><a href='intro'>i</a></div>", &mut context)
        .unwrap();
    assert!(!out.contains("<script>"));
    assert!(out.contains("href=\"https://example.com/top\""));
    assert!(out.contains("href=\"https://cdn.org/a\""));
    assert!(out.contains("href=\"https://example.com/docs/intro\""));
    assert_eq!(filter.normalize_href("#x", &context), "#x");
    assert_eq!(filter.normalize_href("api/index.html", &context), "api/index.html");
    assert_eq!(filter.normalize_href("https://other.org/p", &context), "https://other.org/p");
}

#[test]
fn normalize_path_cases() {
    let f = NormalizePathsFilter;
    assert_eq!(f.normalize_path("http://x.org/a//b"), "http://x.org/a//b");
    assert_eq!(f.normalize_path(""), "/");
    assert_eq!(f.normalize_path("a/./b"), "/a/b");
    assert_eq!(f.normalize_path("a//b///c"), "/a/b/c");
    assert_eq!(f.normalize_path("../x"), "/./x".replace("./", "/").replace("//", "/"));
    assert_eq!(f.normalize_path("/already"), "/already");
    let mut context = FilterContext::new();
    assert_eq!(f.call("<p>x</p>", &mut context).unwrap(), "<p>x</p>");
}

#[test]
fn decode_cf_email_cases() {
    let f = ParseCfEmailFilter;
    // key 0x42; "a" is 0x61 ^ 0x42 = 0x23, "@" is 0x40 ^ 0x42 = 0x02
    assert_eq!(f.decode_cf_email("422302"), Some("a@".to_string()));
    assert_eq!(f.decode_cf_email(""), None);
    assert_eq!(f.decode_cf_email("zz"), None);
    assert_eq!(f.decode_cf_email("42"), Some(String::new()));
    assert_eq!(f.decode_cf_email("00ff"), None);
    assert_eq!(f.decode_cf_email("+1"), Some(String::new()));
}

#[test]
fn normalize_url_cases() {
    let f = NormalizeUrlsFilter;
    let base = "https://example.com/docs/page.html";
    assert_eq!(f.normalize_url("", base), "#");
    assert_eq!(f.normalize_url("#a", base), "#a");
    assert_eq!(f.normalize_url("javascript:void(0)", base), "javascript:void(0)");
    assert_eq!(f.normalize_url("data:xyz", base), "data:xyz");
    assert_eq!(f.normalize_url("http://o.org/x", base), "http://o.org/x");
    assert_eq!(f.normalize_url("/root.html", base), "https://example.com/root.html");
    assert_eq!(f.normalize_url("rel.html", base), "https://example.com/docs/rel.html");
    assert_eq!(f.normalize_url("rel.html", "nobase"), "nobase/rel.html");
    assert_eq!(f.normalize_url("/r", "host"), "host/r");
}

#[test]
fn internal_url_cases() {
    let f = InternalUrlsFilter;
    let base = "https://example.com/docs/";
    assert_eq!(f.internal_url("/a", base), Some("https://example.com/docs/a".to_string()));
    assert_eq!(f.internal_url("b.html", base), Some("https://example.com/docs/b.html".to_string()));
    assert_eq!(f.internal_url("https://example.com/docs/c", base), Some("https://example.com/docs/c".to_string()));
    assert_eq!(f.internal_url("https://other.org/", base), None);
    assert_eq!(f.internal_url("#frag", base), None);
}

#[test]
fn base_url_paths_cases() {
    let f = BaseUrlPaths;
    assert_eq!(f.absolute_url("/img/a.png", "https://x.org//"), "https://x.org/img/a.png");
    assert_eq!(f.absolute_url("https://y.org/a", "https://x.org"), "https://y.org/a");
}

#[test]
fn filter_context_pages_and_slug() {
    let mut context = FilterContext::new();
    assert!(context.is_root_page());
    context.current_path = "/guide/intro.html".to_string();
    assert!(!context.is_root_page());
    assert!(!context.is_initial_page());
    assert_eq!(context.subpath(), "/guide/intro.html");
    assert_eq!(context.slug(), "guide/intro");
    context.initial_paths = vec!["/guide/intro.html".to_string()];
    assert!(context.is_initial_page());
    context.root_path = "/guide/intro.html".to_string();
    assert!(context.is_root_page());
    context.current_path = "//a.html.html".to_string();
    assert_eq!(context.slug(), "a");
    assert_eq!(context.get_data("k"), None);
    context.set_data("k", "v1");
    context.set_data("k", "v2");
    assert_eq!(context.get_data("k"), Some(&"v2".to_string()));
}
