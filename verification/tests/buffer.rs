use tracebuf::buffer::EventBuffer;
use tracebuf::event::Event;
use tracebuf::level::Level;

fn mk_event(name: &str) -> Event {
    Event {
        timestamp: 0,
        level: Level::Info,
        target: String::from("test"),
        name: String::from(name),
        fields: Vec::new(),
        span: None,
    }
}

#[test]
fn capacity_three_keeps_last_three() {
    let mut buf = EventBuffer::new(3);
    buf.append(mk_event("A"));
    buf.append(mk_event("B"));
    buf.append(mk_event("C"));
    buf.append(mk_event("D"));
    assert_eq!(buf.len(), 3);
    assert_eq!(buf.get(0).name, "B");
    assert_eq!(buf.get(1).name, "C");
    assert_eq!(buf.get(2).name, "D");
}

#[test]
fn length_never_exceeds_capacity() {
    let mut buf = EventBuffer::new(5);
    for i in 0..100 {
        buf.append(mk_event(&format!("e{}", i)));
        assert!(buf.len() <= 5);
    }
    assert_eq!(buf.len(), 5);
    for (k, want) in (95..100).enumerate() {
        assert_eq!(buf.get(k).name, format!("e{}", want));
    }
}

#[test]
fn fills_up_to_capacity_without_eviction() {
    let mut buf = EventBuffer::new(4);
    buf.append(mk_event("A"));
    buf.append(mk_event("B"));
    assert_eq!(buf.len(), 2);
    assert_eq!(buf.get(0).name, "A");
    assert_eq!(buf.get(1).name, "B");
}

#[test]
fn maintain_is_a_no_op_on_a_well_formed_buffer() {
    let mut buf = EventBuffer::new(2);
    buf.append(mk_event("A"));
    buf.append(mk_event("B"));
    buf.append(mk_event("C"));
    buf.maintain();
    buf.maintain();
    assert_eq!(buf.len(), 2);
    assert_eq!(buf.get(0).name, "B");
    assert_eq!(buf.get(1).name, "C");
}

#[test]
fn clear_empties_the_buffer() {
    let mut buf = EventBuffer::new(2);
    buf.append(mk_event("A"));
    buf.clear();
    assert_eq!(buf.len(), 0);
    assert_eq!(buf.capacity(), 2);
    buf.append(mk_event("B"));
    assert_eq!(buf.len(), 1);
}

#[test]
fn events_view_matches_contents() {
    let mut buf = EventBuffer::new(3);
    buf.append(mk_event("A"));
    buf.append(mk_event("B"));
    let names: Vec<&str> = buf.events().iter().map(|e| e.name.as_str()).collect();
    assert_eq!(names, vec!["A", "B"]);
}
