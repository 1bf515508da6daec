use onlinerpg::events::{EventBuffer, EventSlot, MAX_EVENTS};

#[test]
fn ordinary_events_drop_the_oldest_beyond_the_cap() {
    let mut b: EventBuffer<u32> = EventBuffer::new();
    for i in 0..(MAX_EVENTS as u32 + 1) {
        b.push_event(EventSlot::Other, i);
    }
    let out = b.drain_events();
    assert_eq!(out.len(), MAX_EVENTS);
    assert_eq!(out[0], 1);
    assert_eq!(out[MAX_EVENTS - 1], MAX_EVENTS as u32);
}

#[test]
fn moves_keep_only_the_latest_per_entity() {
    let mut b: EventBuffer<&str> = EventBuffer::new();
    b.push_event(EventSlot::MonsterMoved("m1".to_string()), "m1 at a");
    b.push_event(EventSlot::PlayerMoved("alice".to_string()), "alice at a");
    b.push_event(EventSlot::MonsterMoved("m2".to_string()), "m2 at a");
    b.push_event(EventSlot::MonsterMoved("m1".to_string()), "m1 at b");
    b.push_event(EventSlot::TimeSync, "noon");
    b.push_event(EventSlot::TimeSync, "one");
    b.push_event(EventSlot::Other, "chat");
    let out = b.drain_events();
    assert_eq!(out, vec!["chat", "one", "m1 at b", "m2 at a", "alice at a"]);
}

#[test]
fn drain_leaves_the_buffer_empty() {
    let mut b: EventBuffer<u8> = EventBuffer::new();
    b.push_event(EventSlot::Other, 1);
    b.push_event(EventSlot::TimeSync, 2);
    let _ = b.drain_events();
    assert!(b.drain_events().is_empty());
}
