use xwdoc::indexer::{dash_spaces, is_html_name, Indexer};
use xwdoc::db::DatabaseManager;

const INDEX_HTML: &str = r#"<!DOCTYPE html>
<html>
<head>
    <title>Home</title>
</head>
<body>
    <h1 id="intro">Introduction</h1>
    <p>Welcome to the documentation.</p>
    <h2 id="getting-started">Getting Started</h2>
    <p>This is a getting started guide.</p>
</body>
</html>"#;

const API_HTML: &str = r#"<!DOCTYPE html>
<html>
<head>
    <title>API Reference</title>
</head>
<body>
    <h1 id="api">API Reference</h1>
    <p>This is the API reference.</p>
    <h2 id="methods">Methods</h2>
    <p>List of methods.</p>
    <h3 id="method1">Method 1</h3>
    <p>Description of method 1.</p>
</body>
</html>"#;

#[test]
fn indexer_pages_and_headings() {
    let mut indexer = Indexer::new("docs", "out");
    indexer.process_html("index.html", None, INDEX_HTML);
    indexer.process_html("api.html", None, API_HTML);
    let index = &indexer.index;
    assert_eq!(index.len(), 7);

    let entry = index.get_entry("index.html").unwrap();
    assert_eq!(entry.name, "Home");
    assert_eq!(entry.type_str, "Page");

    let entry = index.get_entry("index.html#intro").unwrap();
    assert_eq!(entry.name, "Introduction");
    assert_eq!(entry.type_str, "Section");
    assert_eq!(entry.parent, Some("index.html".to_string()));

    let entry = index.get_entry("api.html#method1").unwrap();
    assert_eq!(entry.name, "Method 1");
    assert_eq!(entry.type_str, "Method");
    assert_eq!(entry.parent, Some("api.html".to_string()));
}

#[test]
fn indexer_heading_without_id_and_untitled_page() {
    let mut indexer = Indexer::new("docs", "out");
    let dir = indexer.add_directory("guide", None);
    assert_eq!(dir, "guide");
    indexer.process_html("a.html", Some(dir.as_str()), "<html><body><h4>Some Prop</h4><h5>  </h5></body></html>");
    let index = &indexer.index;
    assert_eq!(index.len(), 3);
    assert_eq!(index.get_entry("guide").unwrap().type_str, "Directory");
    let page = index.get_entry("guide/a.html").unwrap();
    assert_eq!(page.name, "a.html");
    assert_eq!(page.parent, Some("guide".to_string()));
    let prop = index.get_entry("guide/a.html#some-prop").unwrap();
    assert_eq!(prop.name, "Some Prop");
    assert_eq!(prop.type_str, "Property");
}

#[test]
fn dash_spaces_cases() {
    assert_eq!(dash_spaces("a b  c"), "a-b--c");
    assert_eq!(dash_spaces(""), "");
}

#[test]
fn database_manager_process_html() {
    let mut manager = DatabaseManager::new("docs", "out");
    manager.process_html("index.html", "", INDEX_HTML).unwrap();
    manager.process_html("api.html", "", API_HTML).unwrap();
    assert_eq!(manager.db.len(), 2);
    let page = manager.db.get_page("index.html").unwrap();
    assert_eq!(page.title, "Home");
    assert!(page.content.contains("<h1>Introduction</h1>"));
    let page = manager.db.get_page("api.html").unwrap();
    assert_eq!(page.title, "API Reference");
}

#[test]
fn html_file_names() {
    assert!(is_html_name("index.html"));
    assert!(is_html_name("a.b.htm"));
    assert!(!is_html_name(".html"));
    assert!(!is_html_name("page.HTML"));
    assert!(!is_html_name("notes.txt"));
    assert!(!is_html_name("page.html.bak"));
    assert!(!is_html_name("html"));
}
