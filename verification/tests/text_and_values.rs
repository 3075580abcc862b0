use rusted::text::{chars_of, contains_str, join_path, replace_str, starts_with_char, str_equal};
use rusted::value::{ConfigValue, Duplicate, Table, Tables};

#[test]
fn replace_every_occurrence_left_to_right() {
    assert_eq!(replace_str("a{x}b{x}c", "{x}", "Y"), "aYbYc");
    assert_eq!(replace_str("aaa", "aa", "b"), "ba");
    assert_eq!(replace_str("none here", "{x}", "Y"), "none here");
    assert_eq!(replace_str("", "{x}", "Y"), "");
    assert_eq!(replace_str("{HOME}/.ssh/id", "{HOME}", "/home/me"), "/home/me/.ssh/id");
    assert_eq!(replace_str("héllo wörld", "ö", "oe"), "héllo woerld");
}

#[test]
fn contains_finds_substrings() {
    assert!(contains_str("abc{cluster_name}def", "{cluster_name}"));
    assert!(!contains_str("abc{cluster_namedef", "{cluster_name}"));
    assert!(contains_str("abc", ""));
    assert!(!contains_str("", "a"));
    assert!(contains_str("abc", "abc"));
}

#[test]
fn small_string_helpers() {
    assert!(str_equal("yes", "yes"));
    assert!(!str_equal("yes", "yes "));
    assert!(starts_with_char("\"x\"", '"'));
    assert!(!starts_with_char("", '"'));
    assert!(!starts_with_char("x\"", '"'));
    assert_eq!(chars_of("aé€"), vec!['a', 'é', '€']);
}

#[test]
fn path_joining_follows_pathbuf_push() {
    assert_eq!(join_path("/tmp/abc", ".venv"), "/tmp/abc/.venv");
    assert_eq!(join_path("/tmp/abc/", ".venv"), "/tmp/abc/.venv");
    assert_eq!(join_path("", ".venv"), ".venv");
    assert_eq!(join_path("/tmp", "/etc"), "/etc");
    for (base, child) in [("/tmp/abc", ".venv"), ("/tmp/abc/", "bin/activate"), ("", "x"), ("rel", "/abs")] {
        let mut expected = std::path::PathBuf::from(base);
        expected.push(child);
        assert_eq!(join_path(base, child), expected.to_str().unwrap());
    }
}

#[test]
fn config_values_keep_strings_and_json_text() {
    let s = ConfigValue::from_string("root".to_string());
    assert_eq!(s.to_json_text(), "\"root\"");
    assert_eq!(s.as_str(), Some("root"));
    let q = ConfigValue::from_string("a\"b".to_string());
    assert_eq!(q.to_json_text(), "\"a\\\"b\"");
    let n = ConfigValue::from_json_text("22".to_string()).unwrap();
    assert_eq!(n.to_json_text(), "22");
    assert_eq!(n.as_str(), None);
    assert!(ConfigValue::from_json_text("\"x\"".to_string()).is_none());
    assert!(ConfigValue::from_json_text(String::new()).is_none());
    assert_eq!(s.duplicate().as_str(), Some("root"));
}

fn text(s: &str) -> ConfigValue {
    ConfigValue::from_string(s.to_string())
}

#[test]
fn table_read_after_write() {
    let mut t = Table::new();
    assert!(t.is_empty());
    t.insert("user".to_string(), text("alice"));
    t.insert("port".to_string(), ConfigValue::from_json_text("22".to_string()).unwrap());
    assert_eq!(t.len(), 2);
    assert_eq!(t.get("user").unwrap().as_str(), Some("alice"));
    t.insert("user".to_string(), text("bob"));
    assert_eq!(t.len(), 2);
    assert_eq!(t.key_at(0), "user");
    assert_eq!(t.get("user").unwrap().as_str(), Some("bob"));
    assert_eq!(t.get("port").unwrap().to_json_text(), "22");
    assert!(t.get("missing").is_none());
    assert!(t.contains_key("port"));
    assert_eq!(t.position("port"), Some(1));
    let copy = t.duplicate();
    assert_eq!(copy.len(), 2);
    assert_eq!(copy.value_at(0).as_str(), Some("bob"));
}

#[test]
fn tables_hold_tables() {
    let mut inner = Table::new();
    inner.insert("k".to_string(), text("v"));
    let mut outer = Tables::new();
    outer.insert("section".to_string(), inner);
    assert_eq!(outer.get("section").unwrap().get("k").unwrap().as_str(), Some("v"));
}
