use solana_proxy::json::Json;
use solana_proxy::text::{contains_char, contains_text, join, same_text};

fn text(value: &str) -> Json {
    Json::Text(value.to_string())
}

#[test]
fn member_of_an_object() {
    let object = Json::Object(vec![
        ("a".to_string(), Json::Bool(true)),
        ("b".to_string(), text("x")),
        ("a".to_string(), Json::Null),
    ]);
    assert_eq!(object.get("a"), Some(&Json::Bool(true)));
    assert_eq!(object.get("b"), Some(&text("x")));
    assert_eq!(object.get("c"), None);
    assert_eq!(Json::Object(Vec::new()).get("a"), None);
}

#[test]
fn only_objects_have_members() {
    assert_eq!(Json::Null.get("a"), None);
    assert_eq!(Json::Array(vec![text("a")]).get("a"), None);
    assert_eq!(text("a").get("a"), None);
}

#[test]
fn texts_and_arrays() {
    assert_eq!(text("x").as_str(), Some("x"));
    assert_eq!(Json::Number(serde_json::Number::from(1)).as_str(), None);
    assert_eq!(Json::Array(vec![Json::Null]).as_array(), Some(&vec![Json::Null]));
    assert_eq!(text("x").as_array(), None);
}

#[test]
fn text_helpers() {
    assert!(same_text("host", "host"));
    assert!(!same_text("Host", "host"));
    assert!(contains_char("a/b", '/'));
    assert!(contains_char("b=", '='));
    assert!(!contains_char("", '='));
    assert!(contains_char("\u{e9}", '\u{e9}'));
    assert_eq!(join("ab", "cd"), "abcd");
    let list = vec!["x".to_string(), "y".to_string()];
    assert!(contains_text(&list, "y"));
    assert!(!contains_text(&list, "z"));
}
