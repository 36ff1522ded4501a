use chat_relay::log::{Cursor, MessageLog};
use chat_relay::worker::ConnEvent::{
    FanOutDelivered, HandshakeAccepted, HandshakeRejected, MessageReceived, PayloadRejected,
    StreamEnded, WriteFailed,
};
use chat_relay::worker::ConnState::{Closed, Handshaking, Streaming};
use chat_relay::worker::{ingest, step, streaming_iteration, ConnState};
use chat_relay::ChatMessage;

fn msg(user: &str, text: &str) -> ChatMessage {
    ChatMessage::new(user.to_string(), text.to_string())
}

#[test]
fn append_only_length_and_order() {
    let mut log = MessageLog::new();
    assert_eq!(log.len(), 0);
    // One interleaving of two producers' appends; the lock serializes them.
    let interleaved = [
        ("alice", "a1"),
        ("bob", "b1"),
        ("alice", "a2"),
        ("bob", "b2"),
        ("alice", "a3"),
    ];
    for (user, text) in interleaved {
        log.append(msg(user, text));
    }
    assert_eq!(log.len(), interleaved.len());
    // Every successful append is present, and each producer's messages stand
    // in that producer's submission order.
    let alice: Vec<String> = (0..log.len())
        .map(|i| log.get(i))
        .filter(|m| m.username == "alice")
        .map(|m| m.text.clone())
        .collect();
    let bob: Vec<String> = (0..log.len())
        .map(|i| log.get(i))
        .filter(|m| m.username == "bob")
        .map(|m| m.text.clone())
        .collect();
    assert_eq!(alice, ["a1", "a2", "a3"]);
    assert_eq!(bob, ["b1", "b2"]);
}

#[test]
fn existing_entries_keep_index_and_value() {
    let mut log = MessageLog::new();
    log.append(msg("alice", "first"));
    log.append(msg("bob", "second"));
    log.append(msg("carol", "third"));
    assert_eq!(log.get(0).text, "first");
    assert_eq!(log.get(1).text, "second");
    log.append(msg("dave", "fourth"));
    assert_eq!(log.get(0).text, "first");
    assert_eq!(log.get(1).text, "second");
    assert_eq!(log.get(2).text, "third");
    assert_eq!(log.get(3).text, "fourth");
}

#[test]
fn late_joiner_receives_the_backlog_then_only_news() {
    let mut log = MessageLog::new();
    for i in 0..4 {
        log.append(msg("alice", &format!("m{i}")));
    }
    // A worker joining after 4 messages exist is owed exactly those, in order.
    let mut cursor = Cursor::new();
    let backlog = log.collect_unsent(&mut cursor);
    let texts: Vec<&str> = backlog.iter().map(|m| m.text.as_str()).collect();
    assert_eq!(texts, ["m0", "m1", "m2", "m3"]);
    // Nothing is delivered twice.
    assert!(log.collect_unsent(&mut cursor).is_empty());
    // New arrivals are delivered exactly once each, in ascending order.
    log.append(msg("bob", "m4"));
    log.append(msg("bob", "m5"));
    let news = log.collect_unsent(&mut cursor);
    let texts: Vec<&str> = news.iter().map(|m| m.text.as_str()).collect();
    assert_eq!(texts, ["m4", "m5"]);
    assert!(log.collect_unsent(&mut cursor).is_empty());
}

#[test]
fn two_connections_have_independent_cursors() {
    let mut log = MessageLog::new();
    log.append(msg("alice", "one"));
    let mut early = Cursor::new();
    assert_eq!(log.collect_unsent(&mut early).len(), 1);
    log.append(msg("alice", "two"));
    let mut late = Cursor::new();
    assert_eq!(log.collect_unsent(&mut late).len(), 2);
    assert_eq!(log.collect_unsent(&mut early).len(), 1);
}

#[test]
fn malformed_submission_is_dropped_without_append() {
    let mut log = MessageLog::new();
    log.append(msg("alice", "kept"));
    // A body that did not parse reaches the log as `None` and changes nothing.
    let appended = ingest(&mut log, None);
    assert!(!appended);
    assert_eq!(log.len(), 1);
    assert_eq!(log.get(0).text, "kept");
    // A connection streaming beside it is not disturbed either: its state
    // machine has no transition for a failed submission, and its next fan-out
    // still owes exactly the log's contents.
    let streaming = ConnState::Streaming;
    let mut cursor = Cursor::new();
    let seen = log.collect_unsent(&mut cursor);
    assert_eq!(seen.len(), 1);
    assert!(matches!(streaming, ConnState::Streaming));
}

#[test]
fn parsed_submission_is_appended() {
    let mut log = MessageLog::new();
    let appended = ingest(&mut log, Some(msg("bob", "hi")));
    assert!(appended);
    assert_eq!(log.len(), 1);
    assert_eq!(log.get(0).username, "bob");
    assert_eq!(log.get(0).text, "hi");
}

#[test]
fn streaming_iteration_ingests_then_fans_out() {
    let mut log = MessageLog::new();
    log.append(msg("alice", "old"));
    let mut cursor = Cursor::new();
    let out = streaming_iteration(&mut log, &mut cursor, Some(msg("bob", "new")));
    let texts: Vec<&str> = out.iter().map(|m| m.text.as_str()).collect();
    assert_eq!(texts, ["old", "new"]);
    assert_eq!(cursor.last_sent, 2);
    let out = streaming_iteration(&mut log, &mut cursor, None);
    assert!(out.is_empty());
}

#[test]
fn connection_lifecycle_transitions() {
    assert_eq!(step(Handshaking, HandshakeAccepted), Streaming);
    assert_eq!(step(Handshaking, HandshakeRejected), Closed);
    assert_eq!(step(Streaming, MessageReceived), Streaming);
    assert_eq!(step(Streaming, PayloadRejected), Streaming);
    assert_eq!(step(Streaming, FanOutDelivered), Streaming);
    assert_eq!(step(Streaming, StreamEnded), Closed);
    assert_eq!(step(Streaming, WriteFailed), Closed);
    // Closed is terminal, whatever arrives.
    for e in [
        HandshakeAccepted,
        HandshakeRejected,
        MessageReceived,
        PayloadRejected,
        FanOutDelivered,
        StreamEnded,
        WriteFailed,
    ] {
        assert_eq!(step(Closed, e), Closed);
    }
}
