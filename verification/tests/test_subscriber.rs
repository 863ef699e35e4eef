use flowstate::fields::FieldMap;
use flowstate::subscriber::{Level, RecordedEvent, RecordedMetadata, SpanAttributes, TestSubscriber};

fn attributes(name: &str, level: Level) -> SpanAttributes {
    SpanAttributes {
        metadata: RecordedMetadata::new(name.to_string(), level),
        fields: FieldMap::new(),
    }
}

fn event(message: &str, level: Level) -> RecordedEvent {
    let mut fields = FieldMap::new();
    fields.insert("message".to_string(), message.to_string());
    RecordedEvent {
        metadata: RecordedMetadata::new("event".to_string(), level),
        fields,
    }
}

// The scenario of the subscriber's documentation: an event outside any
// span, an outer span with two events and an inner span with one.
#[test]
fn subscriber_history_nests_spans_and_events() {
    let mut subscriber = TestSubscriber::default();

    subscriber.event(event("root", Level::Debug));

    let outer = subscriber.new_span(attributes("outer", Level::Trace));
    subscriber.enter(outer);

    subscriber.event(event("first", Level::Debug));

    let inner = subscriber.new_span(attributes("inner", Level::Trace));
    subscriber.enter(inner);
    subscriber.event(event("second", Level::Debug));
    subscriber.exit(inner);

    subscriber.event(event("third", Level::Debug));
    subscriber.exit(outer);

    let history = subscriber.history();

    assert_eq!(history.root_events.len(), 1);
    assert_eq!(history.root_events[0].fields.get("message"), Some(&"root".to_string()));
    assert_eq!(*history.root_events[0].metadata.level(), Level::Debug);
    assert_eq!(history.spans.len(), 1);

    let outer = &history.spans[0];
    assert_eq!(outer.attributes.metadata.name(), "outer");
    assert_eq!(*outer.attributes.metadata.level(), Level::Trace);
    assert_eq!(outer.events.len(), 2);
    assert_eq!(outer.events[0].fields.get("message"), Some(&"first".to_string()));
    assert_eq!(*outer.events[0].metadata.level(), Level::Debug);
    assert_eq!(outer.events[1].fields.get("message"), Some(&"third".to_string()));
    assert_eq!(outer.spans.len(), 1);

    let inner = &outer.spans[0];
    assert_eq!(inner.attributes.metadata.name(), "inner");
    assert_eq!(inner.events.len(), 1);
    assert_eq!(inner.events[0].fields.get("message"), Some(&"second".to_string()));
    assert!(inner.spans.is_empty());
}

#[test]
fn subscriber_numbers_spans_and_sets_parents() {
    let mut subscriber = TestSubscriber::new();
    assert_eq!(subscriber.current_span_id(), None);
    let a = subscriber.new_span(attributes("a", Level::Info));
    assert_eq!(a, 1);
    subscriber.enter(a);
    assert_eq!(subscriber.current_span_id(), Some(1));
    let b = subscriber.new_span(attributes("b", Level::Info));
    let c = subscriber.new_span(attributes("c", Level::Info));
    assert_eq!((b, c), (2, 3));
    subscriber.exit(a);
    let d = subscriber.new_span(attributes("d", Level::Warn));
    assert_eq!(d, 4);
    assert!(subscriber.has_span(4));
    assert!(!subscriber.has_span(5));
    assert!(!subscriber.has_span(0));

    let history = subscriber.history();
    assert_eq!(history.spans.len(), 2);
    assert_eq!(history.spans[0].span_id, 1);
    assert_eq!(history.spans[0].parent_id, None);
    assert_eq!(history.spans[0].spans.len(), 2);
    assert_eq!(history.spans[0].spans[0].span_id, 2);
    assert_eq!(history.spans[0].spans[0].parent_id, Some(1));
    assert_eq!(history.spans[0].spans[1].span_id, 3);
    assert_eq!(history.spans[1].span_id, 4);
    assert_eq!(*history.spans[1].attributes.metadata.level(), Level::Warn);
    assert!(history.root_events.is_empty());
}

#[test]
fn subscriber_exit_removes_every_entry_of_the_span() {
    let mut subscriber = TestSubscriber::new();
    let a = subscriber.new_span(attributes("a", Level::Trace));
    let b = subscriber.new_span(attributes("b", Level::Trace));
    subscriber.enter(a);
    subscriber.enter(b);
    subscriber.enter(a);
    subscriber.exit(a);
    assert_eq!(subscriber.current_span_id(), Some(b));
    subscriber.event(event("in b", Level::Info));
    subscriber.exit(b);
    assert_eq!(subscriber.current_span_id(), None);
    subscriber.event(event("outside", Level::Info));

    subscriber.record_follows_from(b, a);
    let history = subscriber.history();
    assert_eq!(history.spans.len(), 2);
    assert!(history.spans[0].events.is_empty());
    assert_eq!(history.spans[1].events.len(), 1);
    assert_eq!(history.spans[1].follows_ids, vec![1]);
    assert_eq!(history.root_events.len(), 1);
}

#[test]
fn entering_an_unknown_span_changes_nothing() {
    let mut subscriber = TestSubscriber::new();
    let a = subscriber.new_span(attributes("a", Level::Info));
    subscriber.enter(a + 5);
    assert_eq!(subscriber.current_span_id(), None);
    subscriber.enter(a);
    assert_eq!(subscriber.current_span_id(), Some(a));
}
