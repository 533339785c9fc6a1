use std::sync::Arc;

use tracebuf::event::Event;
use tracebuf::field::Field;
use tracebuf::filter::EventFilter;
use tracebuf::level::Level;
use tracebuf::span::Span;

fn mk_event(target: &str, level: Level) -> Event {
    Event {
        timestamp: 0,
        level,
        target: String::from(target),
        name: String::from("event"),
        fields: Vec::new(),
        span: None,
    }
}

#[test]
fn empty_filter_excludes_nothing() {
    let filter = EventFilter::parse("").unwrap();
    assert!(!filter.excludes(&mk_event("db", Level::Trace)));
    assert!(!filter.excludes(&mk_event("http", Level::Error)));
    assert!(!filter.excludes(&mk_event("", Level::Warn)));
}

#[test]
fn default_filter_excludes_nothing() {
    let filter = EventFilter::default();
    assert!(!filter.excludes(&mk_event("anything", Level::Debug)));
}

#[test]
fn target_prefix_match() {
    let filter = EventFilter::parse("db=trace").unwrap();
    // "db::pool" starts with "db": included at TRACE or coarser.
    assert!(!filter.excludes(&mk_event("db::pool", Level::Trace)));
    assert!(!filter.excludes(&mk_event("db::pool", Level::Error)));
    // "http" does not start with "db": excluded regardless of level.
    assert!(filter.excludes(&mk_event("http", Level::Error)));
    assert!(filter.excludes(&mk_event("http", Level::Trace)));
}

#[test]
fn level_threshold() {
    let filter = EventFilter::parse("=warn").unwrap();
    assert!(filter.excludes(&mk_event("db", Level::Info)));
    assert!(filter.excludes(&mk_event("db", Level::Debug)));
    assert!(filter.excludes(&mk_event("db", Level::Trace)));
    assert!(!filter.excludes(&mk_event("db", Level::Warn)));
    assert!(!filter.excludes(&mk_event("db", Level::Error)));
}

#[test]
fn malformed_filter_fails_and_falls_back_to_match_all() {
    assert!(EventFilter::parse("target[").is_err());
    let (filter, valid) = EventFilter::parse_or_match_all("target[");
    assert!(!valid);
    assert!(!filter.excludes(&mk_event("anything", Level::Trace)));
}

#[test]
fn valid_filter_reports_valid() {
    let (filter, valid) = EventFilter::parse_or_match_all("db=info");
    assert!(valid);
    assert!(filter.excludes(&mk_event("db", Level::Debug)));
    assert!(!filter.excludes(&mk_event("db", Level::Info)));
}

#[test]
fn unknown_level_is_malformed() {
    assert!(EventFilter::parse("db=loud").is_err());
    assert!(EventFilter::parse("db=WARN").is_err());
}

#[test]
fn unclosed_braces_are_malformed() {
    assert!(EventFilter::parse("a[s{k=v").is_err());
    assert!(EventFilter::parse("a[s{k").is_err());
    assert!(EventFilter::parse("a[s{k=v}").is_err());
}

#[test]
fn parsed_structure() {
    let filter = EventFilter::parse("db[conn{id=7}]=warn").unwrap();
    assert_eq!(filter.clauses.len(), 1);
    let clause = &filter.clauses[0];
    assert_eq!(clause.target, "db");
    assert_eq!(clause.level, Some(Level::Warn));
    let sc = clause.span.as_ref().unwrap();
    assert_eq!(sc.name, "conn");
    assert_eq!(sc.fields.len(), 1);
    assert_eq!(sc.fields[0].0, "id");
    assert_eq!(sc.fields[0].1, "7");
}

#[test]
fn clauses_are_or_ed() {
    let filter = EventFilter::parse("db,http=error").unwrap();
    assert_eq!(filter.clauses.len(), 2);
    assert!(!filter.excludes(&mk_event("db::pool", Level::Trace)));
    assert!(!filter.excludes(&mk_event("http", Level::Error)));
    assert!(filter.excludes(&mk_event("http", Level::Info)));
    assert!(filter.excludes(&mk_event("render", Level::Error)));
}

fn span_with_field(name: &str, field: &str, value: &str, parent: Option<Arc<Span>>) -> Arc<Span> {
    let mut f = Field::new();
    f.record(String::from(value));
    Arc::new(Span {
        target: String::from("test"),
        name: String::from(name),
        fields: vec![(String::from(field), f)],
        parent,
    })
}

#[test]
fn span_clause_matches_own_span() {
    let span = span_with_field("conn", "id", "7", None);
    let mut event = mk_event("db", Level::Error);
    event.span = Some(span);
    let filter = EventFilter::parse("db[conn{id=7}]").unwrap();
    assert!(!filter.excludes(&event));
    let wrong_value = EventFilter::parse("db[conn{id=8}]").unwrap();
    assert!(wrong_value.excludes(&event));
    let wrong_name = EventFilter::parse("db[pool{id=7}]").unwrap();
    assert!(wrong_name.excludes(&event));
}

#[test]
fn span_clause_matches_an_ancestor() {
    let root = span_with_field("session", "user", "alice", None);
    let child = span_with_field("conn", "id", "7", Some(root));
    let mut event = mk_event("db", Level::Info);
    event.span = Some(child);
    let filter = EventFilter::parse("[session{user=alice}]").unwrap();
    assert!(!filter.excludes(&event));
    let missing = EventFilter::parse("[session{user=bob}]").unwrap();
    assert!(missing.excludes(&event));
}

#[test]
fn span_clause_with_no_span_excludes() {
    let event = mk_event("db", Level::Error);
    let filter = EventFilter::parse("db[conn]").unwrap();
    assert!(filter.excludes(&event));
}

#[test]
fn empty_span_name_matches_any_span() {
    let span = span_with_field("conn", "id", "7", None);
    let mut event = mk_event("db", Level::Info);
    event.span = Some(span);
    let filter = EventFilter::parse("db[{id=7}]").unwrap();
    assert!(!filter.excludes(&event));
}

#[test]
fn field_predicate_compares_formatted_text() {
    let mut f = Field::new();
    f.record(String::from("1"));
    f.record(String::from("2"));
    let span = Arc::new(Span {
        target: String::from("test"),
        name: String::from("scan"),
        fields: vec![(String::from("i"), f)],
        parent: None,
    });
    let mut event = mk_event("db", Level::Info);
    event.span = Some(span);
    // The field formats to "1, 2": neither recording alone equals it.
    let single = EventFilter::parse("db[scan{i=1}]").unwrap();
    assert!(single.excludes(&event));
    let second = EventFilter::parse("db[scan{i=2}]").unwrap();
    assert!(second.excludes(&event));
}

#[test]
fn visible_indices_selects_exactly_the_included() {
    let filter = EventFilter::parse("db").unwrap();
    let events = vec![
        mk_event("db::pool", Level::Info),
        mk_event("http", Level::Error),
        mk_event("db", Level::Trace),
    ];
    let idx = filter.visible_indices(&events);
    assert_eq!(idx, vec![0, 2]);
}

#[test]
fn empty_clause_in_a_list_matches_everything() {
    let filter = EventFilter::parse("db,").unwrap();
    assert_eq!(filter.clauses.len(), 2);
    assert!(!filter.excludes(&mk_event("http", Level::Trace)));
}
