use discordbot::bus::{BusCell, BusError, EventBus};
use discordbot::feed::FeedItem;
use discordbot::session::{handle_inbound, InboundEvent, Session, SessionAction};

fn item(name: &str) -> FeedItem {
    FeedItem::new(
        format!("id-{}", name),
        "2024-01-01T00:00:00Z".to_string(),
        "7".to_string(),
        "alice".to_string(),
        name.to_string(),
        format!("output of {}", name),
        false,
    )
}

#[test]
fn single_subscriber_receives_all_in_order() {
    let mut bus = EventBus::new(16);
    let h = bus.attach();
    bus.publish(&item("a"));
    bus.publish(&item("b"));
    bus.publish(&item("c"));
    assert_eq!(bus.recv(h), Some(item("a")));
    assert_eq!(bus.recv(h), Some(item("b")));
    assert_eq!(bus.recv(h), Some(item("c")));
    assert_eq!(bus.recv(h), None);
}

#[test]
fn detached_subscriber_gets_nothing_and_publish_still_works() {
    let mut bus = EventBus::new(8);
    let h1 = bus.attach();
    let h2 = bus.attach();
    bus.detach(h1);
    bus.publish(&item("a"));
    assert_eq!(bus.recv(h1), None);
    assert_eq!(bus.recv(h2), Some(item("a")));
    // detaching again is a no-op, not an error
    bus.detach(h1);
    bus.publish(&item("b"));
    assert_eq!(bus.recv(h1), None);
    assert_eq!(bus.recv(h2), Some(item("b")));
}

#[test]
fn slow_subscriber_keeps_newest_suffix_fast_one_keeps_all() {
    // capacity 2; S1 drains after every publish, S2 never drains
    let mut bus = EventBus::new(2);
    let s1 = bus.attach();
    let s2 = bus.attach();

    bus.publish(&item("a"));
    assert_eq!(bus.recv(s1), Some(item("a")));
    bus.publish(&item("b"));
    assert_eq!(bus.recv(s1), Some(item("b")));
    bus.publish(&item("c"));
    assert_eq!(bus.recv(s1), Some(item("c")));

    // S2 was sent a, b, c into a queue of two: the oldest was dropped
    assert_eq!(bus.recv(s2), Some(item("b")));
    assert_eq!(bus.recv(s2), Some(item("c")));
    assert_eq!(bus.recv(s2), None);
}

#[test]
fn recv_on_unknown_handle_is_none() {
    let mut bus = EventBus::new(4);
    let _h = bus.attach();
    bus.publish(&item("a"));
    assert_eq!(bus.recv(999), None);
}

#[test]
fn bus_cell_initializes_exactly_once() {
    let mut cell = BusCell::new();
    assert_eq!(cell.publish(&item("a")), Err(BusError::NotInitialized));
    assert_eq!(cell.attach(), Err(BusError::NotInitialized));
    assert_eq!(cell.init(100), Ok(()));
    assert_eq!(cell.init(100), Err(BusError::AlreadyInitialized));
    let h = cell.attach().expect("attach after init");
    assert_eq!(cell.publish(&item("a")), Ok(()));
    assert_eq!(cell.recv(h), Ok(Some(item("a"))));
    assert_eq!(cell.recv(h), Ok(None));
}

#[test]
fn session_detaches_exactly_once() {
    let mut bus = EventBus::new(4);
    let mut session = Session::open(&mut bus);
    bus.publish(&item("a"));
    assert_eq!(bus.recv(session.handle), Some(item("a")));
    let h = session.handle;
    session.teardown(&mut bus);
    assert!(!session.attached);
    bus.publish(&item("b"));
    assert_eq!(bus.recv(h), None);
    // a second teardown is a no-op
    session.teardown(&mut bus);
    assert!(!session.attached);
}

#[test]
fn inbound_close_and_error_terminate() {
    assert_eq!(handle_inbound(&InboundEvent::Close), SessionAction::Terminate);
    assert_eq!(
        handle_inbound(&InboundEvent::ReadError),
        SessionAction::Terminate
    );
    assert_eq!(handle_inbound(&InboundEvent::Ping), SessionAction::Ignore);
    assert_eq!(handle_inbound(&InboundEvent::Pong), SessionAction::Ignore);
    assert_eq!(
        handle_inbound(&InboundEvent::Binary(12)),
        SessionAction::Ignore
    );
}

#[test]
fn inbound_request_items_starts_replay() {
    let ev = InboundEvent::Text("{\"action\":\"request_items\",\"count\":5}".to_string());
    assert_eq!(handle_inbound(&ev), SessionAction::Replay(5));
}

#[test]
fn inbound_count_above_ceiling_is_clamped() {
    let ev = InboundEvent::Text("{\"action\":\"request_items\",\"count\":100000}".to_string());
    assert_eq!(handle_inbound(&ev), SessionAction::Replay(100));
}

#[test]
fn malformed_control_message_is_ignored_and_session_lives_on() {
    let mut bus = EventBus::new(8);
    let mut session = Session::open(&mut bus);

    let ev = InboundEvent::Text("{\"foo\":\"bar\"}".to_string());
    assert_eq!(handle_inbound(&ev), SessionAction::Ignore);

    // the session still receives live events afterwards
    bus.publish(&item("later"));
    assert_eq!(bus.recv(session.handle), Some(item("later")));
    session.teardown(&mut bus);
}

#[test]
fn bus_holds_no_history_for_late_subscribers() {
    let mut bus = EventBus::new(8);
    let early = bus.attach();
    bus.publish(&item("before"));
    let late = bus.attach();
    bus.publish(&item("after"));
    assert_eq!(bus.recv(early), Some(item("before")));
    assert_eq!(bus.recv(early), Some(item("after")));
    assert_eq!(bus.recv(late), Some(item("after")));
    assert_eq!(bus.recv(late), None);
}

#[test]
fn two_keeping_up_subscribers_both_get_everything() {
    let mut bus = EventBus::new(4);
    let h1 = bus.attach();
    let h2 = bus.attach();
    for name in ["a", "b", "c"] {
        bus.publish(&item(name));
    }
    for name in ["a", "b", "c"] {
        assert_eq!(bus.recv(h1), Some(item(name)));
        assert_eq!(bus.recv(h2), Some(item(name)));
    }
    assert_eq!(bus.recv(h1), None);
    assert_eq!(bus.recv(h2), None);
}
