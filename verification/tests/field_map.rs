use flowstate::fields::{FieldMap, HashMapFieldCollector};

#[test]
fn field_map_insert_and_get() {
    let mut fields = FieldMap::new();
    assert!(fields.is_empty());
    assert_eq!(fields.insert("message".to_string(), "event A".to_string()), None);
    assert_eq!(fields.insert("level".to_string(), "1".to_string()), None);
    assert_eq!(fields.get("message"), Some(&"event A".to_string()));
    assert_eq!(fields.get("missing"), None);
    assert_eq!(fields.len(), 2);
    assert_eq!(
        fields.insert("message".to_string(), "event B".to_string()),
        Some("event A".to_string())
    );
    assert_eq!(fields.len(), 2);
    let copy = fields.clone();
    assert_eq!(copy.get("message"), Some(&"event B".to_string()));
    assert_eq!(copy.get("level"), Some(&"1".to_string()));
}

#[test]
fn collector_keeps_the_later_value() {
    let mut collector = HashMapFieldCollector::default();
    collector.record_field("workflow.name", "\"first\"".to_string());
    collector.record_field("workflow.name", "\"BasicWorkflow\"".to_string());
    collector.record_field("message", "event A".to_string());
    let fields = collector.into_fields();
    assert_eq!(fields.len(), 2);
    assert_eq!(fields.get("workflow.name"), Some(&"\"BasicWorkflow\"".to_string()));
    assert_eq!(fields.get("message"), Some(&"event A".to_string()));
}
