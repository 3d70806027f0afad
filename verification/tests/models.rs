use xwdoc::models::{Entry, Type};

#[test]
fn test_new_valid_entry() {
    let entry = Entry::new(
        Some("test".to_string()),
        Some("test/path".to_string()),
        Some("function".to_string()),
    );
    assert!(entry.is_ok());
    let entry = entry.unwrap();
    assert_eq!(entry.name(), Some(&"test".to_string()));
    assert_eq!(entry.path(), Some(&"test/path".to_string()));
    assert_eq!(entry.entry_type(), Some(&"function".to_string()));
}

#[test]
fn test_new_missing_name() {
    let result = Entry::new(None, Some("test/path".to_string()), Some("function".to_string()));
    assert!(result.is_err());
    assert_eq!(result.unwrap_err().message, "missing name");
}

#[test]
fn test_new_missing_path() {
    let result = Entry::new(Some("test".to_string()), None, Some("function".to_string()));
    assert!(result.is_err());
    assert_eq!(result.unwrap_err().message, "missing path");
}

#[test]
fn test_new_missing_type() {
    let result = Entry::new(Some("test".to_string()), Some("test/path".to_string()), None);
    assert!(result.is_err());
    assert_eq!(result.unwrap_err().message, "missing type");
}

#[test]
fn test_root_entry() {
    let entry = Entry::new(None, Some("index".to_string()), None).unwrap();
    assert!(entry.is_root());
    assert_eq!(entry.path(), Some(&"index".to_string()));
    assert_eq!(entry.name(), None);
    assert_eq!(entry.entry_type(), None);
}

#[test]
fn test_is_root() {
    let root_entry = Entry::new(None, Some("index".to_string()), None).unwrap();
    assert!(root_entry.is_root());
    let normal_entry = Entry::new(
        Some("test".to_string()),
        Some("test/path".to_string()),
        Some("function".to_string()),
    )
    .unwrap();
    assert!(!normal_entry.is_root());
}

#[test]
fn test_set_name_with_whitespace() {
    let mut entry = Entry::new(None, Some("index".to_string()), None).unwrap();
    entry.set_name(Some("  test  ".to_string()));
    assert_eq!(entry.name(), Some(&"test".to_string()));
}

#[test]
fn test_set_type_with_whitespace() {
    let mut entry = Entry::new(None, Some("index".to_string()), None).unwrap();
    entry.set_type(Some("  function  ".to_string()));
    assert_eq!(entry.entry_type(), Some(&"function".to_string()));
}

#[test]
fn entry_test_equality() {
    let entry1 = Entry::new(
        Some("test".to_string()),
        Some("test/path".to_string()),
        Some("function".to_string()),
    )
    .unwrap();
    let entry2 = Entry::new(
        Some("test".to_string()),
        Some("test/path".to_string()),
        Some("function".to_string()),
    )
    .unwrap();
    let entry3 = Entry::new(
        Some("different".to_string()),
        Some("test/path".to_string()),
        Some("function".to_string()),
    )
    .unwrap();
    assert_eq!(entry1, entry2);
    assert_ne!(entry1, entry3);
    assert!(entry1.same_as(&entry2));
    assert!(!entry1.same_as(&entry3));
}

#[test]
fn entry_test_as_json() {
    let entry = Entry::new(
        Some("test".to_string()),
        Some("test/path".to_string()),
        Some("function".to_string()),
    )
    .unwrap();
    let json = entry.as_json();
    assert_eq!(json.name, Some("test".to_string()));
    assert_eq!(json.path, Some("test/path".to_string()));
    assert_eq!(json.entry_type, Some("function".to_string()));
}

#[test]
fn entry_blank_name_is_cleared() {
    let mut entry = Entry::new(None, Some("index".to_string()), None).unwrap();
    entry.set_name(Some(" \t\n ".to_string()));
    assert_eq!(entry.name(), None);
    let result = Entry::new(Some("   ".to_string()), Some("p".to_string()), Some("t".to_string()));
    assert_eq!(result.unwrap_err().message, "missing name");
}

#[test]
fn entry_empty_path_is_missing() {
    let result = Entry::new(Some("n".to_string()), Some(String::new()), Some("t".to_string()));
    assert_eq!(result.unwrap_err().message, "missing path");
}

#[test]
fn test_new_type() {
    let type_obj = Type::new("Function".to_string());
    assert_eq!(type_obj.name, "Function");
    assert_eq!(type_obj.count, 0);
}

#[test]
fn test_slug() {
    let type_obj = Type::new("Function".to_string());
    assert_eq!(type_obj.slug(), "function");
    let type_obj = Type::new("Class Method".to_string());
    assert_eq!(type_obj.slug(), "class-method");
}

#[test]
fn type_slug_collapses_separators() {
    let type_obj = Type::new("  --Foo::Bar__baz!! ".to_string());
    assert_eq!(type_obj.slug(), "foo-bar-baz");
    assert_eq!(Type::new(String::new()).slug(), "");
}

#[test]
fn type_model_test_as_json() {
    let mut type_obj = Type::new("Function".to_string());
    type_obj.count = 5;
    let json = type_obj.as_json();
    assert_eq!(json.name, "Function");
    assert_eq!(json.count, 5);
    assert_eq!(json.slug, "function");
}
