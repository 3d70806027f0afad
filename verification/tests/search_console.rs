use xwdoc::indexer::Index;
use xwdoc::search::{create_search_engine, tokenize};
use xwdoc::subscriber::{ConsoleSubscriber, DEFAULT_TERMINAL_WIDTH};

fn sample_index() -> Index {
    let mut index = Index::new();
    index.add_entry("Home", "index.html", "Page", None);
    index.add_entry("Introduction", "index.html#intro", "Section", Some("index.html"));
    index.add_entry("Getting Started", "index.html#getting-started", "Section", Some("index.html"));
    index.add_entry("API Reference", "api.html", "Page", None);
    index.add_entry("Methods", "api.html#methods", "Section", Some("api.html"));
    index.add_entry("Method 1", "api.html#method1", "Method", Some("api.html"));
    index.add_entry("Method 2", "api.html#method2", "Method", Some("api.html"));
    index
}

#[test]
fn test_search() {
    let engine = create_search_engine(sample_index());

    let results = engine.search("method", 10).unwrap();
    assert_eq!(results.len(), 3);
    assert_eq!(results[0].entry.name, "Methods");
    assert_eq!(results[1].entry.name, "Method 1");
    assert_eq!(results[2].entry.name, "Method 2");

    let results = engine.search("intro", 10).unwrap();
    assert_eq!(results.len(), 1);
    assert_eq!(results[0].entry.name, "Introduction");

    let results = engine.search("get", 10).unwrap();
    assert_eq!(results.len(), 1);
    assert_eq!(results[0].entry.name, "Getting Started");

    let results = engine.search("", 10).unwrap();
    assert_eq!(results.len(), 0);

    let results = engine.search("nonexistent", 10).unwrap();
    assert_eq!(results.len(), 0);
}

#[test]
fn search_respects_limit_and_scores() {
    let engine = create_search_engine(sample_index());
    let results = engine.search("method", 2).unwrap();
    assert_eq!(results.len(), 2);
    assert_eq!(results[0].entry.name, "Methods");
    assert_eq!(results[1].entry.name, "Method 1");
    // A query token at the start of a name scores two points (four halves).
    assert_eq!(results[0].score_halves, 4);
    assert_eq!(results[0].entry.path, "api.html#methods");
    assert_eq!(results[0].matched_text, "<b>method</b>s");
}

#[test]
fn try_search_matches_search() {
    let engine = create_search_engine(sample_index());
    let a = engine.try_search("method", 10).unwrap().unwrap();
    assert_eq!(a.len(), 3);
    assert_eq!(a[2].entry.name, "Method 2");
}

#[test]
fn search_engine_lookups() {
    let engine = create_search_engine(sample_index());
    assert_eq!(engine.len(), 7);
    assert!(!engine.is_empty());
    assert_eq!(engine.get_entry("api.html").unwrap().name, "API Reference");
    assert!(engine.get_entry("missing.html").is_none());
    assert_eq!(engine.get_all_entries().len(), 7);
    let empty = create_search_engine(Index::new());
    assert!(empty.is_empty());
}

#[test]
fn tokenize_lowercases_and_splits() {
    let toks = tokenize("Getting-Started API2");
    assert_eq!(toks, vec!["getting".to_string(), "started".to_string(), "api2".to_string()]);
    assert!(tokenize("  --  ").is_empty());
}

#[test]
fn test_console_subscriber_justify() {
    let subscriber = ConsoleSubscriber::new(false, None);

    let text = "Hello, world!";
    let justified = subscriber.justify(text);
    assert!(justified.len() >= text.len());

    let text_with_tag = "Processing [INFO]";
    let justified = subscriber.justify(text_with_tag);
    assert!(justified.contains("[INFO]"));
}

#[test]
fn justify_pads_and_cuts_to_width() {
    let s = ConsoleSubscriber::new(false, Some(12));
    assert_eq!(s.justify("abc"), "abc         ");
    assert_eq!(s.justify("abcdefghijklmnop"), "abcdefghi...");
    assert_eq!(s.justify("ab [x]"), "ab       [x]");
    assert_eq!(s.justify("abcdefghij [tag]"), "abc... [tag]");
    let d = ConsoleSubscriber::new(false, None);
    assert_eq!(d.justify("x").len(), DEFAULT_TERMINAL_WIDTH);
}

#[test]
fn try_justify_refuses_split_character() {
    let s = ConsoleSubscriber::new(false, Some(5));
    assert!(s.try_justify("ééééé").is_none());
    assert_eq!(s.try_justify("abc").unwrap(), "abc  ");
}
