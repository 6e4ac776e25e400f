use oh_ben_claw::json::JsonValue;
use oh_ben_claw::memory::{MemoryStore, MemoryTool};

fn call(pairs: &[(&str, &str)]) -> JsonValue {
    JsonValue::Object(
        pairs
            .iter()
            .map(|(k, v)| (k.to_string(), JsonValue::String(v.to_string())))
            .collect(),
    )
}

#[test]
fn set_and_get() {
    let mut tool = MemoryTool::new();
    tool.execute(&call(&[("action", "set"), ("key", "name"), ("value", "Ben")])).unwrap();
    let result = tool.execute(&call(&[("action", "get"), ("key", "name")])).unwrap();
    assert_eq!(result.output, "Ben");
}

#[test]
fn get_missing_key() {
    let mut tool = MemoryTool::new();
    let result = tool.execute(&call(&[("action", "get"), ("key", "missing")])).unwrap();
    assert!(result.output.contains("not found"));
}

#[test]
fn list_keys() {
    let mut tool = MemoryTool::new();
    tool.execute(&call(&[("action", "set"), ("key", "a"), ("value", "1")])).unwrap();
    tool.execute(&call(&[("action", "set"), ("key", "b"), ("value", "2")])).unwrap();
    let result = tool.execute(&call(&[("action", "list")])).unwrap();
    assert!(result.output.contains("a"));
    assert!(result.output.contains("b"));
}

#[test]
fn clear_store() {
    let mut tool = MemoryTool::new();
    tool.execute(&call(&[("action", "set"), ("key", "x"), ("value", "1")])).unwrap();
    tool.execute(&call(&[("action", "clear")])).unwrap();
    let result = tool.execute(&call(&[("action", "list")])).unwrap();
    assert!(result.output.contains("No keys"));
}

#[test]
fn keys_are_listed_in_ascending_order() {
    let mut tool = MemoryTool::new();
    for k in ["pear", "apple", "fig", "apple"] {
        tool.execute(&call(&[("action", "set"), ("key", k), ("value", "v")])).unwrap();
    }
    let result = tool.execute(&call(&[("action", "list")])).unwrap();
    assert_eq!(result.output, "apple\nfig\npear");
    let cleared = tool.execute(&call(&[("action", "clear")])).unwrap();
    assert_eq!(cleared.output, "Cleared 3 keys");
}

#[test]
fn a_later_set_replaces_and_delete_removes() {
    let mut tool = MemoryTool::new();
    let stored = tool.execute(&call(&[("action", "set"), ("key", "k"), ("value", "1")])).unwrap();
    assert_eq!(stored.output, "Stored key 'k'");
    tool.execute(&call(&[("action", "set"), ("key", "k"), ("value", "2")])).unwrap();
    let got = tool.execute(&call(&[("action", "get"), ("key", "k")])).unwrap();
    assert_eq!(got.output, "2");
    let deleted = tool.execute(&call(&[("action", "delete"), ("key", "k")])).unwrap();
    assert_eq!(deleted.output, "Deleted key 'k'");
    let again = tool.execute(&call(&[("action", "delete"), ("key", "k")])).unwrap();
    assert_eq!(again.output, "Key 'k' not found");
    let gone = tool.execute(&call(&[("action", "get"), ("key", "k")])).unwrap();
    assert_eq!(gone.output, "Key 'k' not found");
}

#[test]
fn malformed_calls_are_errors() {
    let mut tool = MemoryTool::new();
    assert_eq!(tool.execute(&call(&[])).unwrap_err(), "Missing 'action' parameter");
    assert_eq!(
        tool.execute(&call(&[("action", "set"), ("key", "k")])).unwrap_err(),
        "Missing 'value' parameter"
    );
    assert_eq!(
        tool.execute(&call(&[("action", "get")])).unwrap_err(),
        "Missing 'key' parameter"
    );
    let unknown = tool.execute(&call(&[("action", "forget")])).unwrap();
    assert!(!unknown.success);
    assert_eq!(unknown.error.as_deref(), Some("Unknown action: forget"));
    assert_eq!(tool.store.len(), 0);
}

#[test]
fn the_store_keeps_one_value_per_key() {
    let mut store = MemoryStore::new();
    store.set("b".to_string(), "2".to_string());
    store.set("a".to_string(), "1".to_string());
    store.set("b".to_string(), "3".to_string());
    assert_eq!(store.len(), 2);
    assert_eq!(store.get("b"), Some("3".to_string()));
    assert_eq!(store.keys(), vec!["a".to_string(), "b".to_string()]);
    assert!(store.delete("a"));
    assert!(!store.delete("a"));
    store.clear();
    assert_eq!(store.len(), 0);
}

#[test]
fn memory_schema_requires_an_action() {
    let tool = MemoryTool::new();
    assert_eq!(tool.name(), "memory");
    let schema = tool.parameters_schema();
    assert_eq!(
        schema.get("required"),
        Some(&JsonValue::Array(vec![JsonValue::String("action".to_string())]))
    );
}
