use std::sync::Arc;

use inmembro::message::{Message, Messages, QueuedMessage};
use inmembro::registry::Registry;
use inmembro::routes::{router, Endpoint, HttpMethod};
use inmembro::topic::{Topic, TopicConfig, TopicContent};

fn msg(data: serde_json::Value, key: Option<&str>, now: u64) -> Arc<QueuedMessage> {
    QueuedMessage::new(Message { data: Some(data), key: key.map(|k| k.to_string()) }, now)
}

fn plain(n: i64, now: u64) -> Arc<QueuedMessage> {
    msg(serde_json::Value::from(n), None, now)
}

#[test]
fn create_topic_is_at_most_once() {
    let mut reg = Registry::new();
    assert!(reg.create_topic("foo".to_string()));
    assert!(!reg.create_topic("foo".to_string()));
    assert!(reg.create_topic("bar".to_string()));
}

#[test]
fn push_then_subscribe_delivers_in_order() {
    let mut reg = Registry::new();
    assert!(reg.push_message("t1".to_string(), plain(1, 0)));
    assert!(!reg.push_message("t1".to_string(), plain(2, 0)));
    reg.subscribe_with_id("t1".to_string(), 7);
    let name = "t1".to_string();
    let first = reg.poll_message(&name, 7, 0).expect("first event");
    let second = reg.poll_message(&name, 7, 0).expect("second event");
    assert_eq!(first.content().data, Some(serde_json::Value::from(1)));
    assert_eq!(second.content().data, Some(serde_json::Value::from(2)));
    assert!(reg.poll_message(&name, 7, 0).is_none());
}

#[test]
fn compaction_keeps_latest_per_key() {
    let mut t = Topic {
        content: TopicContent::default(),
        config: TopicConfig { retention_millis: None, compaction: Some(true) },
    };
    t.push(msg(serde_json::Value::String("a".to_string()), Some("x"), 0));
    t.push(msg(serde_json::Value::String("b".to_string()), Some("y"), 0));
    t.push(msg(serde_json::Value::String("c".to_string()), Some("x"), 0));
    t.add_subscriber(1);
    let first = t.poll_message(1, 0).expect("first event");
    let second = t.poll_message(1, 0).expect("second event");
    assert_eq!(first.content().data, Some(serde_json::Value::String("b".to_string())));
    assert_eq!(first.content().key, Some("y".to_string()));
    assert_eq!(second.content().data, Some(serde_json::Value::String("c".to_string())));
    assert_eq!(second.content().key, Some("x".to_string()));
    assert!(t.poll_message(1, 0).is_none());
}

#[test]
fn compaction_off_keeps_every_message() {
    let mut t = Topic::default();
    t.push(msg(serde_json::Value::from(1), Some("x"), 0));
    t.push(msg(serde_json::Value::from(2), Some("x"), 0));
    t.add_subscriber(9);
    assert_eq!(t.poll_message(9, 0).unwrap().content().data, Some(serde_json::Value::from(1)));
    assert_eq!(t.poll_message(9, 0).unwrap().content().data, Some(serde_json::Value::from(2)));
}

#[test]
fn retention_drops_stale_heads_on_pop() {
    let mut t = Topic {
        content: TopicContent::default(),
        config: TopicConfig { retention_millis: Some(50), compaction: None },
    };
    t.push(plain(1, 0));
    t.push(plain(2, 100));
    t.add_subscriber(4);
    let first = t.poll_message(4, 110).expect("fresh message survives");
    assert_eq!(first.content().data, Some(serde_json::Value::from(2)));
    assert!(t.poll_message(4, 110).is_none());
}

#[test]
fn retention_boundary_is_inclusive() {
    let mut q = Messages::default();
    let cfg = TopicConfig { retention_millis: Some(50), compaction: None };
    q.push_back(plain(1, 0), &cfg);
    let got = q.pop_front(&cfg, 50).expect("exactly at the limit is kept");
    assert_eq!(got.content().data, Some(serde_json::Value::from(1)));
    q.push_back(plain(2, 0), &cfg);
    assert!(q.pop_front(&cfg, 51).is_none());
}

#[test]
fn fan_out_reaches_every_live_subscriber() {
    let mut t = Topic::default();
    t.add_subscriber(1);
    t.add_subscriber(2);
    t.push(plain(7, 0));
    let a = t.poll_message(1, 0).expect("first subscriber event");
    let b = t.poll_message(2, 0).expect("second subscriber event");
    assert_eq!(a.content().data, Some(serde_json::Value::from(7)));
    assert_eq!(b.content().data, Some(serde_json::Value::from(7)));
    assert!(t.poll_message(1, 0).is_none());
    assert!(t.poll_message(2, 0).is_none());
}

#[test]
fn draining_one_subscriber_leaves_the_other_alone() {
    let mut t = Topic::default();
    t.add_subscriber(1);
    t.add_subscriber(2);
    t.push(plain(1, 0));
    t.push(plain(2, 0));
    assert!(t.poll_message(1, 0).is_some());
    assert!(t.poll_message(1, 0).is_some());
    assert!(t.poll_message(1, 0).is_none());
    assert_eq!(t.poll_message(2, 0).unwrap().content().data, Some(serde_json::Value::from(1)));
    assert_eq!(t.poll_message(2, 0).unwrap().content().data, Some(serde_json::Value::from(2)));
}

#[test]
fn first_subscriber_inherits_backlog() {
    let mut t = Topic::default();
    for n in 0..5i64 {
        t.push(plain(n, 0));
    }
    t.add_subscriber(3);
    for n in 0..5i64 {
        let got = t.poll_message(3, 0).expect("backlog message");
        assert_eq!(got.content().data, Some(serde_json::Value::from(n)));
    }
    assert!(t.poll_message(3, 0).is_none());
}

#[test]
fn second_subscriber_starts_clean() {
    let mut t = Topic::default();
    t.push(plain(1, 0));
    t.add_subscriber(1);
    t.add_subscriber(2);
    assert!(t.poll_message(2, 0).is_none());
    t.push(plain(2, 0));
    assert_eq!(t.poll_message(2, 0).unwrap().content().data, Some(serde_json::Value::from(2)));
    assert!(t.poll_message(2, 0).is_none());
    assert_eq!(t.poll_message(1, 0).unwrap().content().data, Some(serde_json::Value::from(1)));
    assert_eq!(t.poll_message(1, 0).unwrap().content().data, Some(serde_json::Value::from(2)));
}

#[test]
fn disconnect_of_last_subscriber_salvages_its_queue() {
    let mut t = Topic::default();
    t.add_subscriber(1);
    t.push(plain(1, 0));
    t.push(plain(2, 0));
    assert_eq!(t.poll_message(1, 0).unwrap().content().data, Some(serde_json::Value::from(1)));
    t.remove_subscriber(1);
    match &t.content {
        TopicContent::Messages(q) => {
            assert_eq!(q.0.len(), 1);
            assert_eq!(q.0[0].content().data, Some(serde_json::Value::from(2)));
        },
        TopicContent::Subscribers(_) => panic!("topic should have reverted to a buffer"),
    }
}

#[test]
fn detach_reaps_dead_entries() {
    let mut t = Topic::default();
    t.add_subscriber(1);
    t.add_subscriber(2);
    t.mark_disconnected(1);
    t.mark_disconnected(2);
    t.remove_subscriber(2);
    match &t.content {
        TopicContent::Messages(q) => assert_eq!(q.0.len(), 0),
        TopicContent::Subscribers(_) => panic!("dead entries should have been reaped"),
    }
}

#[test]
fn dead_entries_receive_no_messages() {
    let mut t = Topic::default();
    t.add_subscriber(1);
    t.add_subscriber(2);
    t.mark_disconnected(1);
    t.push(plain(5, 0));
    assert!(t.poll_message(1, 0).is_none());
    assert_eq!(t.poll_message(2, 0).unwrap().content().data, Some(serde_json::Value::from(5)));
}

#[test]
fn detach_when_survivor_is_someone_else_rebuffers_empty() {
    let mut t = Topic::default();
    t.add_subscriber(1);
    t.add_subscriber(2);
    t.mark_disconnected(2);
    t.push(plain(1, 0));
    t.remove_subscriber(2);
    match &t.content {
        TopicContent::Messages(q) => assert_eq!(q.0.len(), 0),
        TopicContent::Subscribers(_) => panic!("topic should have reverted to a buffer"),
    }
}

#[test]
fn detach_from_crowd_keeps_the_rest_fanned_out() {
    let mut t = Topic::default();
    t.add_subscriber(1);
    t.add_subscriber(2);
    t.add_subscriber(3);
    t.remove_subscriber(2);
    match &t.content {
        TopicContent::Subscribers(subs) => {
            assert_eq!(subs.len(), 2);
            assert_eq!(subs[0].id, 1);
            assert_eq!(subs[1].id, 3);
        },
        TopicContent::Messages(_) => panic!("two subscribers should remain fanned out"),
    }
}

#[test]
fn subscribe_returns_a_usable_identity() {
    let mut reg = Registry::new();
    let id_a = reg.subscribe("t".to_string());
    let id_b = reg.subscribe("t".to_string());
    assert_ne!(id_a, id_b);
    let name = "t".to_string();
    assert!(reg.push_message("t".to_string(), plain(3, 0)) == false);
    assert_eq!(
        reg.poll_message(&name, id_a, 0).unwrap().content().data,
        Some(serde_json::Value::from(3))
    );
    assert_eq!(
        reg.poll_message(&name, id_b, 0).unwrap().content().data,
        Some(serde_json::Value::from(3))
    );
}

#[test]
fn polling_unknown_topic_or_subscriber_yields_nothing() {
    let mut reg = Registry::new();
    let name = "missing".to_string();
    assert!(reg.poll_message(&name, 1, 0).is_none());
    reg.create_topic("t".to_string());
    let name = "t".to_string();
    assert!(reg.poll_message(&name, 1, 0).is_none());
}

#[test]
fn messages_queue_holds_one_after_new() {
    let q = Messages::new(plain(9, 4));
    assert_eq!(q.0.len(), 1);
    assert_eq!(q.0[0].content().data, Some(serde_json::Value::from(9)));
    assert_eq!(q.0[0].created_at, 4);
}

#[test]
fn router_table_matches_the_served_surface() {
    let r = router();
    assert_eq!(r.len(), 8);
    assert_eq!(r[0].path, "/about");
    assert!(matches!(r[0].method, HttpMethod::Get));
    assert!(matches!(r[0].endpoint, Endpoint::About));
    assert_eq!(r[1].path, "/");
    assert_eq!(r[2].path, "/topic/:name/create");
    assert_eq!(r[3].path, "/topic/:name/push");
    assert!(matches!(r[3].method, HttpMethod::Get));
    assert_eq!(r[4].path, "/topic/:name/push");
    assert!(matches!(r[4].method, HttpMethod::Post));
    assert_eq!(r[5].path, "/topic/:name/subscribe");
    assert_eq!(r[6].path, "/topic/:name/config");
    assert!(matches!(r[6].method, HttpMethod::Get));
    assert_eq!(r[7].path, "/topic/:name/config");
    assert!(matches!(r[7].method, HttpMethod::Post));
}
