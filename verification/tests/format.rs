use std::sync::Arc;

use tracebuf::event::Event;
use tracebuf::field::field_line;
use tracebuf::field::Field;
use tracebuf::level::Level;
use tracebuf::span::Span;
use tracebuf::Widget;

#[test]
fn multi_recorded_field_formats_in_order() {
    let mut f = Field::new();
    f.record(String::from("1"));
    f.record(String::from("2"));
    assert_eq!(f.format(), "1, 2");
}

#[test]
fn single_recording_formats_alone() {
    let mut f = Field::new();
    f.record(String::from("hello"));
    assert_eq!(f.format(), "hello");
}

#[test]
fn empty_field_formats_empty() {
    let f = Field::new();
    assert_eq!(f.format(), "");
}

#[test]
fn formatting_does_not_mutate() {
    let mut f = Field::new();
    f.record(String::from("a"));
    f.record(String::from("b"));
    f.record(String::from("c"));
    assert_eq!(f.format(), "a, b, c");
    assert_eq!(f.format(), "a, b, c");
    assert_eq!(f.len(), 3);
    assert_eq!(f.value(0).as_str(), "a");
    assert_eq!(f.value(1).as_str(), "b");
    assert_eq!(f.value(2).as_str(), "c");
}

#[test]
fn level_display_names() {
    assert_eq!(Level::Trace.display(), "TRACE");
    assert_eq!(Level::Debug.display(), "DEBUG");
    assert_eq!(Level::Info.display(), "INFO");
    assert_eq!(Level::Warn.display(), "WARN");
    assert_eq!(Level::Error.display(), "ERROR");
}

#[test]
fn level_ordering() {
    assert!(Level::Error.passes(&Level::Warn));
    assert!(Level::Warn.passes(&Level::Warn));
    assert!(!Level::Info.passes(&Level::Warn));
    assert!(!Level::Trace.passes(&Level::Debug));
    assert!(Level::Debug.passes(&Level::Trace));
}

fn mk_event(timestamp: u64, fields: Vec<(String, Field)>) -> Event {
    Event {
        timestamp,
        level: Level::Warn,
        target: String::from("db::pool"),
        name: String::from("query"),
        fields,
        span: None,
    }
}

#[test]
fn timestamp_renders_to_millisecond_precision() {
    // 13:05:07.042 into the day.
    let ms = ((13 * 60 + 5) * 60 + 7) * 1000 + 42;
    let event = mk_event(ms, Vec::new());
    assert_eq!(event.format_timestamp(), "13:05:07.042");
}

#[test]
fn timestamp_wraps_at_midnight() {
    let day = 86_400_000;
    let event = mk_event(3 * day + 61_001, Vec::new());
    assert_eq!(event.format_timestamp(), "00:01:01.001");
}

#[test]
fn headline_without_message() {
    let event = mk_event(0, Vec::new());
    assert_eq!(event.headline(), "[00:00:00.000] [WARN]");
}

#[test]
fn headline_with_message() {
    let mut f = Field::new();
    f.record(String::from("connection lost"));
    let event = mk_event(1000, vec![(String::from("message"), f)]);
    assert_eq!(event.headline(), "[00:00:01.000] [WARN] connection lost");
}

#[test]
fn event_field_lookup() {
    let mut f = Field::new();
    f.record(String::from("x"));
    let event = mk_event(0, vec![(String::from("message"), f)]);
    assert!(event.field("message").is_some());
    assert_eq!(event.field("message").unwrap().format(), "x");
    assert!(event.field("missing").is_none());
}

#[test]
fn event_origin_heading() {
    let event = mk_event(0, Vec::new());
    assert_eq!(event.origin(), "db::pool query");
}

#[test]
fn span_qualified_name() {
    let span = Span {
        target: String::from("app"),
        name: String::from("request"),
        fields: Vec::new(),
        parent: None,
    };
    assert_eq!(span.qualified_name(), "app::request");
}

#[test]
fn field_line_layout() {
    assert_eq!(field_line("id", "7"), "id: 7");
}

#[test]
fn span_ancestry_walks_child_to_root_once() {
    let root = Arc::new(Span {
        target: String::from("app"),
        name: String::from("root"),
        fields: Vec::new(),
        parent: None,
    });
    let mid = Arc::new(Span {
        target: String::from("app"),
        name: String::from("mid"),
        fields: Vec::new(),
        parent: Some(Arc::clone(&root)),
    });
    let leaf = Arc::new(Span {
        target: String::from("app"),
        name: String::from("leaf"),
        fields: Vec::new(),
        parent: Some(Arc::clone(&mid)),
    });
    let mut names = Vec::new();
    let mut cursor: Option<&Arc<Span>> = Some(&leaf);
    while let Some(span) = cursor {
        names.push(span.name.clone());
        cursor = span.parent.as_ref();
    }
    assert_eq!(names, vec!["leaf", "mid", "root"]);
}

#[test]
fn ancestors_returns_each_span_once_child_to_root() {
    let root = Arc::new(Span {
        target: String::from("app"),
        name: String::from("root"),
        fields: Vec::new(),
        parent: None,
    });
    let leaf = Span {
        target: String::from("app"),
        name: String::from("leaf"),
        fields: Vec::new(),
        parent: Some(Arc::clone(&root)),
    };
    let chain = leaf.ancestors();
    let names: Vec<&str> = chain.iter().map(|s| s.name.as_str()).collect();
    assert_eq!(names, vec!["leaf", "root"]);
    // A second traversal is fresh and identical.
    let again = leaf.ancestors();
    assert_eq!(again.len(), 2);
}

#[test]
fn widget_default_shows_filter_row() {
    let w = Widget::default();
    assert!(w.filter);
}
