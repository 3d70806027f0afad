use xwdoc::core_filters::core_filter_factory;
use xwdoc::error::{Error, Result};
use xwdoc::filter_base::FilterContext;
use xwdoc::filter_factory::FilterFactory;
use xwdoc::filter_trait::{Filter, FilterStack};
use xwdoc::scraper_base::{FileScraper, Scraper, UrlScraper};
use xwdoc::scraper_core::Scraper as PlainScraper;

#[derive(Clone, Debug)]
enum TestFilter {
    Wrap(&'static str),
    Fail,
    Entry(&'static str),
}

impl Filter for TestFilter {
    fn apply(&self, html: &str, context: &mut FilterContext) -> Result<String> {
        match self {
            TestFilter::Wrap(tag) => Ok(format!("<{}>{}</{}>", tag, html, tag)),
            TestFilter::Fail => Err(Error::Message(format!("failed on {}", context.current_path))),
            TestFilter::Entry(_) => Ok(html.to_string()),
        }
    }

    fn get_entries(&self, _html: &str, context: &FilterContext) -> Vec<(String, String, String)> {
        match self {
            TestFilter::Entry(name) => vec![(name.to_string(), context.current_path.clone(), "Guide".to_string())],
            _ => Vec::new(),
        }
    }
}

#[test]
fn filter_stack_runs_in_order_and_stops_at_failure() {
    let mut stack: FilterStack<TestFilter> = FilterStack::new();
    assert!(stack.is_empty());
    let mut ctx = FilterContext::new();
    assert_eq!(stack.apply("x", &mut ctx).unwrap(), "x");
    stack.push(TestFilter::Wrap("a"));
    stack.add_filter(TestFilter::Wrap("b"));
    assert_eq!(stack.len(), 2);
    assert_eq!(stack.apply("x", &mut ctx).unwrap(), "<b><a>x</a></b>");
    let copy = stack.inheritable_copy();
    assert_eq!(copy.len(), 2);
    stack.push(TestFilter::Fail);
    stack.push(TestFilter::Wrap("c"));
    ctx.current_path = "p".to_string();
    assert_eq!(stack.apply("x", &mut ctx).unwrap_err().message(), "failed on p");
    stack.push(TestFilter::Entry("E"));
    let entries = stack.get_all_entries("x", &ctx);
    assert_eq!(entries, vec![("E".to_string(), "p".to_string(), "Guide".to_string())]);
}

#[test]
fn scraper_urls_from_base_and_root() {
    let mut s: Scraper<TestFilter> = Scraper::new("Docs", "simple");
    assert!(s.root_url().is_none());
    assert!(s.url_for("a").is_none());
    assert!(s.initial_urls().is_empty());
    assert!(matches!(s.set_base_url("not a url"), Err(Error::Message(_))));
    s.set_base_url("https://example.com/docs/").unwrap();
    assert_eq!(s.base_url().unwrap().as_str(), "https://example.com/docs/");
    assert_eq!(s.root_url().unwrap().as_str(), "https://example.com/docs/");
    s.set_root_path("start.html");
    assert_eq!(s.root_url().unwrap().as_str(), "https://example.com/docs/start.html");
    assert_eq!(s.url_for("/").unwrap(), "https://example.com/docs/start.html");
    assert_eq!(s.url_for("guide/intro").unwrap(), "https://example.com/docs/guide/intro");
    assert_eq!(s.url_for("/other").unwrap(), "https://example.com/other");
    s.add_initial_path("a.html");
    s.add_initial_path("");
    assert_eq!(
        s.initial_urls(),
        vec![
            "https://example.com/docs/start.html".to_string(),
            "https://example.com/docs/a.html".to_string(),
            "https://example.com/docs/start.html".to_string()
        ]
    );
}

#[test]
fn scraper_settings_and_context() {
    let mut s: Scraper<TestFilter> = Scraper::new("Docs", "simple");
    s.set_version("2.0");
    s.set_release("2.0.1");
    s.set_base_url("https://example.com/docs/").unwrap();
    s.set_root_path("/");
    s.add_initial_path("x");
    s.add_link("home", "https://example.com");
    s.add_link("home", "https://example.org");
    s.set_option("k", "v");
    assert_eq!(s.get_option("k").unwrap(), "v");
    assert!(s.get_option("none").is_none());

    let ctx = s.create_context("https://example.com/docs/guide/a.html");
    assert_eq!(ctx.base_url, "https://example.com/docs/");
    assert_eq!(ctx.root_url, "https://example.com/docs/");
    assert_eq!(ctx.current_url, "https://example.com/docs/guide/a.html");
    assert_eq!(ctx.current_path, "guide/a.html");
    assert_eq!(ctx.root_path, "/");
    assert_eq!(ctx.initial_paths, vec!["x".to_string()]);
    assert_eq!(ctx.version, Some("2.0".to_string()));
    assert_eq!(ctx.release, Some("2.0.1".to_string()));
    assert_eq!(ctx.links, vec![("home".to_string(), "https://example.org".to_string())]);

    let outside = s.create_context("https://other.org/z");
    assert_eq!(outside.current_path, "");
    let bare: Scraper<TestFilter> = Scraper::new("Bare", "simple");
    let ctx = bare.create_context("https://example.com/a");
    assert_eq!(ctx.base_url, "");
    assert_eq!(ctx.version, None);
}

#[test]
fn scraper_processes_stored_pages() {
    let mut s: Scraper<TestFilter> = Scraper::new("Docs", "simple");
    assert_eq!(s.build_page("a").unwrap_err().message(), "无法构建 URL: a");
    assert!(s.build_pages().is_ok());
    s.set_base_url("https://example.com/docs/").unwrap();
    assert_eq!(s.build_page("a").unwrap_err().message(), "未实现的 HTTP 请求: https://example.com/docs/a");
    assert_eq!(s.build_pages().unwrap_err().message(), "未实现的 HTTP 请求: https://example.com/docs/");
    s.add_stub("a", "<p>stored</p>");
    let (html, entries) = s.build_page("a").unwrap();
    assert_eq!(html, "<p>stored</p>");
    assert!(entries.is_empty());
    s.add_html_filter(TestFilter::Wrap("main"));
    s.add_html_filter(TestFilter::Entry("A"));
    s.add_text_filter(TestFilter::Wrap("body"));
    let (html, entries) = s.process_html("t", "https://example.com/docs/b").unwrap();
    assert_eq!(html, "<body><main>t</main></body>");
    assert_eq!(entries, vec![("A".to_string(), "b".to_string(), "Guide".to_string())]);
    s.add_text_filter(TestFilter::Fail);
    assert!(s.build_page("a").is_err());
}

#[test]
fn url_and_file_scrapers() {
    let u: UrlScraper<TestFilter> = UrlScraper::new("U", "simple");
    assert_eq!(u.scraper.name, "U");
    let f: FileScraper<TestFilter> = FileScraper::new("F", "file", "/tmp/docs");
    assert_eq!(f.input_path, "/tmp/docs");
    assert_eq!(f.scraper.doc_type, "file");
}

#[test]
fn plain_scraper_urls() {
    let mut s = PlainScraper::new();
    assert!(s.initial_urls().is_empty());
    assert!(!s.try_set_base_url("::bad::"));
    assert!(s.base_url().is_none());
    s.set_base_url("https://example.com/api/");
    assert_eq!(s.root_url().unwrap().as_str(), "https://example.com/api/");
    s.set_root_path("index.html".to_string());
    s.add_initial_path("v1".to_string());
    assert_eq!(s.url_for("").unwrap(), "https://example.com/api/index.html");
    assert_eq!(
        s.initial_urls(),
        vec!["https://example.com/api/index.html".to_string(), "https://example.com/api/v1".to_string()]
    );
    s.set_option("a".to_string(), "1".to_string());
    s.set_option("a".to_string(), "2".to_string());
    assert_eq!(s.get_option("a").unwrap(), "2");
    s.stub("p".to_string(), "c".to_string());
    assert_eq!(s.stubs.len(), 1);
    let d = PlainScraper::default();
    assert!(d.base_url.is_none());
}

#[test]
fn filter_factory_builds_stacks_by_name() {
    let mut f: FilterFactory<TestFilter> = FilterFactory::new();
    assert!(f.get("container").is_none());
    f.register("container", TestFilter::Wrap("div"));
    f.register("clean_html", TestFilter::Wrap("clean"));
    f.register("other", TestFilter::Fail);
    assert!(f.get("container").is_some());
    let stack = f.create_default_html_stack();
    assert_eq!(stack.len(), 2);
    let mut ctx = FilterContext::new();
    assert_eq!(stack.apply("x", &mut ctx).unwrap(), "<clean><div>x</div></clean>");
    let custom = f.create_stack(&["other", "missing", "container"]);
    assert_eq!(custom.len(), 2);
    assert!(custom.apply("x", &mut ctx).is_err());
    assert!(f.create_default_text_stack().is_empty());
}

#[test]
fn core_filter_factory_holds_the_shared_filters() {
    let f = core_filter_factory();
    let stack = f.create_default_html_stack();
    assert_eq!(stack.len(), 7);
    let mut ctx = FilterContext::new();
    let out = stack.apply("<html><body><p>x</p></body></html>", &mut ctx).unwrap();
    assert!(out.contains("<p>x</p>"));
    assert!(f.get("container").is_some());
    assert!(f.get("images").is_none());
}
