use represence::distributor::{stream_stays_open, ClientEvent, Distributor, SUBSCRIBER_BUFFER};
use represence::render::OutputData;

fn status(text: &str) -> OutputData {
    OutputData { text: text.to_string() }
}

fn taken(distributor: &mut Distributor, id: usize) -> Option<String> {
    distributor.take(id).map(|d| d.text)
}

#[test]
fn snapshot_is_the_initial_status() {
    let distributor = Distributor::new(status("starting..."));
    assert_eq!(distributor.get_snapshot().text, "starting...");
}

#[test]
fn snapshot_is_the_last_published_status() {
    let mut distributor = Distributor::new(status("starting..."));
    distributor.publish(status("idle"));
    assert_eq!(distributor.get_snapshot().text, "idle");
    distributor.publish(status("yapping on Discord"));
    distributor.publish(status("VS Code"));
    assert_eq!(distributor.get_snapshot().text, "VS Code");
    assert_eq!(distributor.get_snapshot().text, "VS Code");
}

#[test]
fn new_subscriber_is_handed_the_current_status() {
    let mut distributor = Distributor::new(status("starting..."));
    distributor.publish(status("idle"));
    let (id, snapshot) = distributor.subscribe();
    assert_eq!(snapshot.text, "idle");
    assert!(distributor.is_subscribed(id));
    assert_eq!(distributor.pending(id), 0);
    assert_eq!(taken(&mut distributor, id), None);
}

#[test]
fn subscriber_gets_later_updates_in_order() {
    let mut distributor = Distributor::new(status("starting..."));
    distributor.publish(status("before"));
    let (id, snapshot) = distributor.subscribe();
    assert_eq!(snapshot.text, "before");
    distributor.publish(status("one"));
    distributor.publish(status("two"));
    distributor.publish(status("three"));
    assert_eq!(distributor.pending(id), 3);
    assert_eq!(taken(&mut distributor, id), Some("one".to_string()));
    assert_eq!(taken(&mut distributor, id), Some("two".to_string()));
    distributor.publish(status("four"));
    assert_eq!(taken(&mut distributor, id), Some("three".to_string()));
    assert_eq!(taken(&mut distributor, id), Some("four".to_string()));
    assert_eq!(taken(&mut distributor, id), None);
    assert_eq!(distributor.pending(id), 0);
}

#[test]
fn full_buffer_drops_its_oldest_update() {
    let mut distributor = Distributor::with_capacity(status("s"), 2);
    let (id, _) = distributor.subscribe();
    distributor.publish(status("one"));
    distributor.publish(status("two"));
    distributor.publish(status("three"));
    assert_eq!(distributor.pending(id), 2);
    assert_eq!(taken(&mut distributor, id), Some("two".to_string()));
    assert_eq!(taken(&mut distributor, id), Some("three".to_string()));
    assert_eq!(taken(&mut distributor, id), None);
}

#[test]
fn standard_buffer_holds_thirty_two_updates() {
    assert_eq!(SUBSCRIBER_BUFFER, 32);
    let mut distributor = Distributor::new(status("s"));
    let (id, _) = distributor.subscribe();
    for n in 0..33 {
        distributor.publish(status(&format!("update {}", n)));
    }
    assert_eq!(distributor.pending(id), 32);
    for n in 1..33 {
        assert_eq!(taken(&mut distributor, id), Some(format!("update {}", n)));
    }
    assert_eq!(taken(&mut distributor, id), None);
}

#[test]
fn slow_subscriber_does_not_hold_back_a_fast_one() {
    let mut distributor = Distributor::with_capacity(status("s"), 2);
    let (slow, _) = distributor.subscribe();
    let (fast, _) = distributor.subscribe();
    assert_ne!(slow, fast);
    for text in ["a", "b", "c", "d"] {
        distributor.publish(status(text));
        assert_eq!(taken(&mut distributor, fast), Some(text.to_string()));
    }
    assert_eq!(distributor.pending(fast), 0);
    assert_eq!(distributor.pending(slow), 2);
    assert_eq!(taken(&mut distributor, slow), Some("c".to_string()));
    assert_eq!(taken(&mut distributor, slow), Some("d".to_string()));
    assert_eq!(distributor.get_snapshot().text, "d");
}

#[test]
fn late_subscriber_misses_earlier_updates() {
    let mut distributor = Distributor::with_capacity(status("s"), 4);
    let (early, _) = distributor.subscribe();
    distributor.publish(status("a"));
    distributor.publish(status("b"));
    let (late, snapshot) = distributor.subscribe();
    assert_eq!(snapshot.text, "b");
    distributor.publish(status("c"));
    assert_eq!(taken(&mut distributor, late), Some("c".to_string()));
    assert_eq!(taken(&mut distributor, late), None);
    assert_eq!(taken(&mut distributor, early), Some("a".to_string()));
    assert_eq!(taken(&mut distributor, early), Some("b".to_string()));
    assert_eq!(taken(&mut distributor, early), Some("c".to_string()));
}

#[test]
fn buffer_without_room_only_hands_out_snapshots() {
    let mut distributor = Distributor::with_capacity(status("s"), 0);
    let (id, snapshot) = distributor.subscribe();
    assert_eq!(snapshot.text, "s");
    distributor.publish(status("a"));
    assert_eq!(distributor.pending(id), 0);
    assert_eq!(taken(&mut distributor, id), None);
    assert_eq!(distributor.get_snapshot().text, "a");
}

#[test]
fn buffer_of_one_keeps_the_newest_update() {
    let mut distributor = Distributor::with_capacity(status("s"), 1);
    let (id, _) = distributor.subscribe();
    distributor.publish(status("a"));
    distributor.publish(status("b"));
    assert_eq!(taken(&mut distributor, id), Some("b".to_string()));
    assert_eq!(taken(&mut distributor, id), None);
}

#[test]
fn handles_are_given_out_lowest_first() {
    let mut distributor = Distributor::new(status("s"));
    assert_eq!(distributor.subscribe().0, 0);
    assert_eq!(distributor.subscribe().0, 1);
    assert_eq!(distributor.subscribe().0, 2);
    distributor.unsubscribe(1);
    assert!(!distributor.is_subscribed(1));
    assert!(distributor.is_subscribed(0));
    assert!(distributor.is_subscribed(2));
    assert_eq!(distributor.subscribe().0, 1);
    assert_eq!(distributor.subscribe().0, 3);
}

#[test]
fn handle_given_out_again_starts_empty() {
    let mut distributor = Distributor::with_capacity(status("s"), 4);
    let (id, _) = distributor.subscribe();
    distributor.publish(status("a"));
    distributor.unsubscribe(id);
    let (again, snapshot) = distributor.subscribe();
    assert_eq!(again, id);
    assert_eq!(snapshot.text, "a");
    assert_eq!(taken(&mut distributor, again), None);
}

#[test]
fn unknown_handle_has_nothing() {
    let mut distributor = Distributor::new(status("s"));
    distributor.publish(status("a"));
    assert!(!distributor.is_subscribed(0));
    assert_eq!(distributor.pending(5), 0);
    assert_eq!(taken(&mut distributor, 5), None);
    distributor.unsubscribe(5);
    assert_eq!(distributor.subscribe().0, 0);
}

#[test]
fn leaving_subscriber_does_not_disturb_the_others() {
    let mut distributor = Distributor::with_capacity(status("s"), 4);
    let (a, _) = distributor.subscribe();
    let (b, _) = distributor.subscribe();
    distributor.publish(status("x"));
    distributor.unsubscribe(a);
    distributor.publish(status("y"));
    assert_eq!(taken(&mut distributor, a), None);
    assert_eq!(taken(&mut distributor, b), Some("x".to_string()));
    assert_eq!(taken(&mut distributor, b), Some("y".to_string()));
}

#[test]
fn publishing_without_subscribers_only_sets_the_status() {
    let mut distributor = Distributor::with_capacity(status("s"), 2);
    for text in ["a", "b", "c"] {
        distributor.publish(status(text));
    }
    let (id, snapshot) = distributor.subscribe();
    assert_eq!(snapshot.text, "c");
    assert_eq!(taken(&mut distributor, id), None);
}

#[test]
fn close_and_failure_end_a_stream() {
    assert!(!stream_stays_open(ClientEvent::Close));
    assert!(!stream_stays_open(ClientEvent::Failed));
}

#[test]
fn other_messages_keep_a_stream_open() {
    assert!(stream_stays_open(ClientEvent::Ping));
    assert!(stream_stays_open(ClientEvent::Other));
}
