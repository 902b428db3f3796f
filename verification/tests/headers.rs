use tauri_axum_htmx::Headers;

#[test]
fn new_headers_are_empty() {
    let headers = Headers::new();
    assert!(headers.is_empty());
    assert_eq!(headers.len(), 0);
    assert!(headers.get("content-type").is_none());
    assert!(!headers.contains_key("content-type"));
    assert!(headers.entries().is_empty());
}

#[test]
fn default_headers_are_empty() {
    let headers = Headers::default();
    assert!(headers.is_empty());
}

#[test]
fn insert_adds_a_new_name_last() {
    let mut headers = Headers::new();
    assert_eq!(headers.insert("a".to_string(), "1".to_string()), None);
    assert_eq!(headers.insert("b".to_string(), "2".to_string()), None);
    assert_eq!(headers.len(), 2);
    assert!(!headers.is_empty());
    assert_eq!(
        headers.entries(),
        &vec![
            ("a".to_string(), "1".to_string()),
            ("b".to_string(), "2".to_string())
        ]
    );
}

#[test]
fn insert_replaces_the_value_of_a_held_name() {
    let mut headers = Headers::new();
    headers.insert("a".to_string(), "1".to_string());
    headers.insert("b".to_string(), "2".to_string());
    assert_eq!(
        headers.insert("a".to_string(), "3".to_string()),
        Some("1".to_string())
    );
    assert_eq!(headers.len(), 2);
    assert_eq!(headers.get("a").unwrap(), "3");
    assert_eq!(headers.get("b").unwrap(), "2");
    assert_eq!(
        headers.entries(),
        &vec![
            ("a".to_string(), "3".to_string()),
            ("b".to_string(), "2".to_string())
        ]
    );
}

#[test]
fn names_differ_by_letter_case() {
    let mut headers = Headers::new();
    headers.insert("X-Test".to_string(), "upper".to_string());
    headers.insert("x-test".to_string(), "lower".to_string());
    assert_eq!(headers.len(), 2);
    assert_eq!(headers.get("X-Test").unwrap(), "upper");
    assert_eq!(headers.get("x-test").unwrap(), "lower");
    assert!(headers.get("X-TEST").is_none());
}

#[test]
fn contains_key_follows_insert() {
    let mut headers = Headers::new();
    assert!(!headers.contains_key(""));
    headers.insert(String::new(), "empty name".to_string());
    assert!(headers.contains_key(""));
    assert!(!headers.contains_key(" "));
    assert_eq!(headers.get("").unwrap(), "empty name");
}

#[test]
fn names_beyond_ascii_are_compared_whole() {
    let mut headers = Headers::new();
    headers.insert("é".to_string(), "1".to_string());
    headers.insert("è".to_string(), "2".to_string());
    assert_eq!(headers.len(), 2);
    assert_eq!(headers.get("é").unwrap(), "1");
    assert_eq!(headers.get("è").unwrap(), "2");
    assert!(headers.get("e").is_none());
}

#[test]
fn clone_keeps_fields_and_order() {
    let mut headers = Headers::new();
    headers.insert("b".to_string(), "2".to_string());
    headers.insert("a".to_string(), "1".to_string());
    let copy = headers.clone();
    assert_eq!(copy.entries(), headers.entries());
    headers.insert("a".to_string(), "changed".to_string());
    assert_eq!(copy.get("a").unwrap(), "1");
}
