use discordbot::bus::EventBus;
use discordbot::feed::FeedItem;
use discordbot::replay::{select_replay, MAX_REPLAY_COUNT};
use discordbot::wire::{encode_feed_item, parse_control_message};

fn event(n: u32) -> FeedItem {
    FeedItem::new(
        format!("uuid-{}", n),
        format!("2024-01-01T00:00:{:02}Z", n),
        "42".to_string(),
        "alice".to_string(),
        format!("cmd{}", n),
        format!("out{}", n),
        false,
    )
}

#[test]
fn encode_feed_item_exact_json() {
    let it = FeedItem::new(
        "u-1".to_string(),
        "2024-01-01T00:00:00Z".to_string(),
        "42".to_string(),
        "alice".to_string(),
        "codename".to_string(),
        "Quick Fox".to_string(),
        false,
    );
    assert_eq!(
        encode_feed_item(&it),
        "{\"item_uuid\":\"u-1\",\"timestamp\":\"2024-01-01T00:00:00Z\",\
         \"author_id\":\"42\",\"author_name\":\"alice\",\"command_name\":\"codename\",\
         \"command_output\":\"Quick Fox\",\"test_item\":false}"
    );
}

#[test]
fn encode_feed_item_escapes_strings() {
    let it = FeedItem::new(
        "u".to_string(),
        "t".to_string(),
        "a\"b".to_string(),
        "back\\slash".to_string(),
        "line\nbreak".to_string(),
        "bell\u{7}tab\tünïcode".to_string(),
        true,
    );
    assert_eq!(
        encode_feed_item(&it),
        "{\"item_uuid\":\"u\",\"timestamp\":\"t\",\
         \"author_id\":\"a\\\"b\",\"author_name\":\"back\\\\slash\",\
         \"command_name\":\"line\\nbreak\",\
         \"command_output\":\"bell\\u0007tab\\tünïcode\",\"test_item\":true}"
    );
}

#[test]
fn parse_accepts_canonical_request() {
    assert_eq!(
        parse_control_message("{\"action\":\"request_items\",\"count\":5}"),
        Some(5)
    );
}

#[test]
fn parse_accepts_whitespace_and_either_order() {
    assert_eq!(
        parse_control_message(" { \"action\" : \"request_items\" , \"count\" : 7 } "),
        Some(7)
    );
    assert_eq!(
        parse_control_message("{\"count\":3,\"action\":\"request_items\"}"),
        Some(3)
    );
}

#[test]
fn parse_clamps_large_counts() {
    assert_eq!(
        parse_control_message("{\"action\":\"request_items\",\"count\":101}"),
        Some(MAX_REPLAY_COUNT)
    );
    assert_eq!(
        parse_control_message(
            "{\"action\":\"request_items\",\"count\":99999999999999999999999999}"
        ),
        Some(MAX_REPLAY_COUNT)
    );
    assert_eq!(
        parse_control_message("{\"action\":\"request_items\",\"count\":100}"),
        Some(100)
    );
}

#[test]
fn parse_accepts_zero() {
    assert_eq!(
        parse_control_message("{\"action\":\"request_items\",\"count\":0}"),
        Some(0)
    );
}

#[test]
fn parse_rejects_everything_else() {
    assert_eq!(parse_control_message("{\"foo\":\"bar\"}"), None);
    assert_eq!(parse_control_message(""), None);
    assert_eq!(parse_control_message("   "), None);
    assert_eq!(parse_control_message("not json at all"), None);
    assert_eq!(parse_control_message("{\"action\":\"request_items\"}"), None);
    assert_eq!(parse_control_message("{\"count\":5}"), None);
    assert_eq!(
        parse_control_message("{\"action\":\"other\",\"count\":5}"),
        None
    );
    assert_eq!(
        parse_control_message("{\"action\":\"request_items\",\"count\":-5}"),
        None
    );
    assert_eq!(
        parse_control_message("{\"action\":\"request_items\",\"count\":5} trailing"),
        None
    );
    assert_eq!(
        parse_control_message("{\"action\":\"request_items\",\"count\":}"),
        None
    );
}

#[test]
fn replay_of_zero_is_empty() {
    let store = vec![event(1), event(2), event(3)];
    let out = select_replay(&store, 0);
    assert!(out.is_empty());
}

#[test]
fn replay_on_empty_store_is_empty() {
    let store: Vec<FeedItem> = Vec::new();
    let out = select_replay(&store, 5);
    assert!(out.is_empty());
}

#[test]
fn replay_takes_last_k_oldest_first() {
    let store: Vec<FeedItem> = (1..=10).map(event).collect();
    let out = select_replay(&store, 5);
    assert_eq!(out, vec![event(6), event(7), event(8), event(9), event(10)]);
}

#[test]
fn replay_of_more_than_held_yields_whole_store() {
    let store = vec![event(1), event(2)];
    let out = select_replay(&store, 9);
    assert_eq!(out, vec![event(1), event(2)]);
}

#[test]
fn catch_up_request_round_trip() {
    // a subscriber asks for the last five of ten stored events and gets
    // them oldest first through its own delivery queue
    let store: Vec<FeedItem> = (1..=10).map(event).collect();
    let count = parse_control_message("{\"action\":\"request_items\",\"count\":5}")
        .expect("well-formed request");
    let batch = select_replay(&store, count);

    let mut bus = EventBus::new(100);
    let h = bus.attach();
    for it in &batch {
        bus.publish(it);
    }
    for n in 6..=10 {
        assert_eq!(bus.recv(h), Some(event(n)));
    }
    assert_eq!(bus.recv(h), None);
}
