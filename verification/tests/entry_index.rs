use std::cmp::Ordering;
use xwdoc::entry_index::EntryIndex;
use xwdoc::models::Entry;
use xwdoc::name_order::ComparablePart;

fn entry(name: &str, path: &str, ty: &str) -> Entry {
    Entry::new(Some(name.to_string()), Some(path.to_string()), Some(ty.to_string())).unwrap()
}

#[test]
fn entry_index_test_new() {
    let index = EntryIndex::new();
    assert!(index.is_empty());
    assert_eq!(index.length(), 0);
}

#[test]
fn test_add_entry() {
    let mut index = EntryIndex::new();
    index.add(entry("test", "test/path", "function"));
    assert_eq!(index.length(), 1);
    assert!(!index.is_empty());
}

#[test]
fn test_add_root_entry() {
    let mut index = EntryIndex::new();
    let root_entry = Entry::new(None, Some("index".to_string()), None).unwrap();
    index.add(root_entry);
    assert_eq!(index.length(), 0);
    assert!(index.is_empty());
}

#[test]
fn test_add_duplicate_entry() {
    let mut index = EntryIndex::new();
    index.add(entry("test", "test/path", "function"));
    index.add(entry("test", "test/path", "function"));
    assert_eq!(index.length(), 1);
}

#[test]
fn test_type_counting() {
    let mut index = EntryIndex::new();
    index.add(entry("test1", "test1/path", "function"));
    index.add(entry("test2", "test2/path", "function"));
    let json = index.as_json();
    let function = json.types.iter().find(|t| t.name == "function").unwrap();
    assert_eq!(function.count, 2);
}

#[test]
fn entry_index_test_as_json() {
    let mut index = EntryIndex::new();
    index.add(entry("test", "test/path", "function"));
    let json = index.as_json();
    assert_eq!(json.entries.len(), 1);
    assert_eq!(json.types.len(), 1);
}

#[test]
fn entry_index_add_entries_and_aliases() {
    let mut index = EntryIndex::new();
    index.add_entries(vec![
        entry("a", "a", "x"),
        entry("b", "b", "y"),
        entry("a", "a", "x"),
        Entry::new(None, Some("index".to_string()), None).unwrap(),
    ]);
    assert_eq!(index.len(), 2);
    assert!(index.present());
    assert!(!index.is_blank());
    let json = index.as_json();
    assert_eq!(json.types.len(), 2);
    assert!(json.types.iter().all(|t| t.count == 1));
}

#[test]
fn entry_index_sorts_entries_and_types() {
    let mut index = EntryIndex::new();
    index.add(entry("beta", "b", "Module"));
    index.add(entry("Alpha", "a", "class"));
    index.add(entry("2.10.x", "v2", "Module"));
    index.add(entry("2.9.x", "v1", "Module"));
    let json = index.as_json();
    let names: Vec<String> = json.entries.iter().map(|e| e.name.clone().unwrap()).collect();
    assert_eq!(names, vec!["2.9.x", "2.10.x", "Alpha", "beta"]);
    let types: Vec<(String, usize, String)> =
        json.types.iter().map(|t| (t.name.clone(), t.count, t.slug.clone())).collect();
    assert_eq!(
        types,
        vec![("class".to_string(), 1, "class".to_string()), ("Module".to_string(), 3, "module".to_string())]
    );
}

#[test]
fn entry_index_sort_fn_cases() {
    let index = EntryIndex::new();
    assert_eq!(index.sort_fn("abc", "ABD"), Ordering::Less);
    assert_eq!(index.sort_fn("B", "a"), Ordering::Greater);
    assert_eq!(index.sort_fn("1.2", "1.10"), Ordering::Greater);
    assert_eq!(index.sort_fn("1.10", "1.2"), Ordering::Less);
    assert_eq!(index.sort_fn("1.2.x", "1.10.x"), Ordering::Less);
    assert_eq!(index.sort_fn("10", "9"), Ordering::Less);
    assert_eq!(index.sort_fn("10", "1.2"), Ordering::Greater);
    assert_eq!(index.sort_fn("1.2", "10"), Ordering::Less);
    assert_eq!(index.sort_fn("1.2.a", "1.b"), Ordering::Greater);
    assert_eq!(index.sort_fn("1.x", "1.x"), Ordering::Equal);
    assert_eq!(index.sort_fn("a.1", "2.b"), Ordering::Greater);
}

#[test]
fn entry_index_split_and_convert() {
    let index = EntryIndex::new();
    let parts = index.split_with_ints("1..20.x");
    assert_eq!(parts, vec!["1", "", "20", "x"]);
    let conv = index.convert_to_comparable(&parts);
    assert_eq!(
        conv,
        vec![
            ComparablePart::Number(1),
            ComparablePart::String(String::new()),
            ComparablePart::Number(20),
            ComparablePart::String("x".to_string()),
        ]
    );
    let conv = index.convert_to_comparable(&["+7".to_string(), "-3".to_string(), "99999999999".to_string(), "5".to_string()]);
    assert_eq!(
        conv,
        vec![
            ComparablePart::Number(7),
            ComparablePart::Number(-3),
            ComparablePart::String("99999999999".to_string()),
            ComparablePart::String("5".to_string()),
        ]
    );
}
