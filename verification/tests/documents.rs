use xwdoc::db::Database;
use xwdoc::doc::Doc;
use xwdoc::indexer::Index;
use xwdoc::page_db::PageDb;

#[test]
fn test_database() {
    let mut db = Database::new();

    db.add_page("index.html", "Home", "<h1>Welcome</h1>");
    db.add_page("api.html", "API", "<h1>API Reference</h1>");

    assert_eq!(db.len(), 2);
    assert!(!db.is_empty());

    let page = db.get_page("index.html").unwrap();
    assert_eq!(page.title, "Home");
    assert_eq!(page.content, "<h1>Welcome</h1>");

    let page = db.get_page("api.html").unwrap();
    assert_eq!(page.title, "API");
    assert_eq!(page.content, "<h1>API Reference</h1>");
}

#[test]
fn database_add_page_replaces() {
    let mut db = Database::new();
    db.add_page("index.html", "Home", "old");
    db.add_page("index.html", "Start", "new");
    assert_eq!(db.len(), 1);
    let page = db.get_page("index.html").unwrap();
    assert_eq!(page.title, "Start");
    assert_eq!(page.content, "new");
    assert!(db.get_page("missing.html").is_none());
}

#[test]
fn test_doc_creation() {
    let doc = Doc::new().unwrap();
    assert_eq!(doc.name(), "Doc");
    assert!(!doc.has_version());
}

#[test]
fn test_version_slug() {
    let mut doc = Doc::new().unwrap();
    doc.set_version("1.2.3+beta#1".to_string());
    assert_eq!(doc.version_slug(), "1.2.3pbeta_1");
}

#[test]
fn test_outdated_state() {
    let doc = Doc::new().unwrap();

    assert_eq!(doc.outdated_state("1.0.0", "2.0.0"), "Outdated major version");
    assert_eq!(doc.outdated_state("1.1.0", "1.2.0"), "Outdated minor version");
    assert_eq!(doc.outdated_state("1.1.1", "1.1.2"), "Up-to-date");
    assert_eq!(doc.outdated_state("2.0.0", "1.0.0"), "Up-to-date");
}

#[test]
fn doc_test_as_json() {
    let mut doc = Doc::new().unwrap();
    doc.name = Some("TestDoc".to_string());
    doc.slug = Some("testdoc".to_string());
    doc.set_version("1.0.0".to_string());

    let json = doc.as_json();
    assert_eq!(json.name, "TestDoc");
    assert_eq!(json.slug, "testdoc~1_0_0");
    assert_eq!(json.version, Some("1.0.0".to_string()));
}

#[test]
fn page_db_test_new() {
    let db = PageDb::new();
    assert!(db.empty());
}

#[test]
fn test_add() {
    let mut db = PageDb::new();
    db.add("test/path".to_string(), "<html>content</html>".to_string());

    assert!(!db.empty());
    assert_eq!(db.len(), 1);
    assert_eq!(db.get("test/path"), Some(&"<html>content</html>".to_string()));
}

#[test]
fn test_empty_and_blank() {
    let mut db = PageDb::new();
    assert!(db.empty());
    assert!(db.blank());

    db.add("test".to_string(), "content".to_string());
    assert!(!db.empty());
    assert!(!db.blank());
}

#[test]
fn page_db_test_as_json() {
    let mut db = PageDb::new();
    db.add("test1".to_string(), "content1".to_string());
    db.add("test2".to_string(), "content2".to_string());

    let json = db.as_json();
    assert_eq!(json.len(), 2);
    let get = |k: &str| json.iter().find(|(p, _)| p == k).map(|(_, c)| c);
    assert_eq!(get("test1"), Some(&"content1".to_string()));
    assert_eq!(get("test2"), Some(&"content2".to_string()));
}

#[test]
fn page_db_add_twice_keeps_last() {
    let mut db = PageDb::new();
    db.add("a".to_string(), "1".to_string());
    db.add("a".to_string(), "2".to_string());
    assert_eq!(db.len(), 1);
    assert_eq!(db.get("a"), Some(&"2".to_string()));
    assert_eq!(db.get("b"), None);
}

#[test]
fn test_index() {
    let mut index = Index::new();

    index.add_entry("Home", "index.html", "Page", None);
    index.add_entry("Introduction", "index.html#intro", "Section", Some("index.html"));
    index.add_entry("API", "api.html", "Page", None);
    index.add_entry("Methods", "api.html#methods", "Section", Some("api.html"));

    assert_eq!(index.len(), 4);
    assert!(!index.is_empty());

    let entry = index.get_entry("index.html").unwrap();
    assert_eq!(entry.name, "Home");
    assert_eq!(entry.type_str, "Page");
    assert_eq!(entry.parent, None);

    let entry = index.get_entry("api.html#methods").unwrap();
    assert_eq!(entry.name, "Methods");
    assert_eq!(entry.type_str, "Section");
    assert_eq!(entry.parent, Some("api.html".to_string()));
}

#[test]
fn index_get_entry_gives_last_added() {
    let mut index = Index::new();
    index.add_entry("Old", "p.html", "Page", None);
    index.add_entry("Other", "q.html", "Page", None);
    index.add_entry("New", "p.html", "Page", Some("dir"));
    assert_eq!(index.len(), 3);
    assert_eq!(index.get_entry("p.html").unwrap().name, "New");
    assert_eq!(index.get_entry("q.html").unwrap().name, "Other");
    assert!(index.get_entry("r.html").is_none());
}

#[test]
fn defining_a_version_runs_the_block_on_a_versioned_copy() {
    let mut doc = Doc::new().unwrap();
    doc.name = Some("Docs".to_string());
    let none: Option<fn(&mut Doc)> = None;
    assert!(doc.version(Some("1.0".to_string()), none).is_none());
    assert!(doc.versions.is_none());

    let seen = doc
        .version(Some("2.0".to_string()), Some(|d: &mut Doc| {
            assert_eq!(d.version, Some("2.0".to_string()));
            assert_eq!(d.name, Some("Docs".to_string()));
            d.release = Some("2.0.1".to_string());
        }))
        .unwrap();
    assert_eq!(seen.version, Some("2.0".to_string()));
    assert_eq!(seen.release, Some("2.0.1".to_string()));
    let versions = doc.versions.as_ref().unwrap();
    assert_eq!(versions.len(), 1);
    assert_eq!(versions[0].release, Some("2.0.1".to_string()));
    assert!(doc.version.is_none());
    assert!(doc.release.is_none());
}
