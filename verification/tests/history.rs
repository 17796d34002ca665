use generic_api_client::attempt::{ConnectionAttemptInfo, SENT_HISTORY_LIMIT};
use generic_api_client::WebSocketMessage;

fn text(text: &str) -> WebSocketMessage {
    WebSocketMessage::Text(text.to_string())
}

#[test]
fn a_new_attempt_has_no_history() {
    let info = ConnectionAttemptInfo::new("ws://a/b".to_string(), Some("l".to_string()), None);
    assert!(info.sent_messages_snapshot().is_empty());
    let report = info.report();
    assert_eq!(report.url, "ws://a/b");
    assert_eq!(report.local_addr, Some("l".to_string()));
    assert_eq!(report.peer_addr, None);
    assert!(report.sent_messages.is_empty());
}

#[test]
fn the_history_is_in_order() {
    let mut info = ConnectionAttemptInfo::new(String::new(), None, None);
    info.record_sent(&text("a"));
    info.record_sent(&WebSocketMessage::Ping(vec![1]));
    info.record_sent(&text("my token"));
    let expected = ["Text(a)", "Ping(len=1)", "Text(len=8, redacted=true)"];
    assert_eq!(info.sent_messages_snapshot(), expected);
    assert_eq!(info.report().sent_messages, expected);
}

#[test]
fn a_full_history_loses_its_oldest_entry() {
    assert_eq!(SENT_HISTORY_LIMIT, 50);
    let mut info = ConnectionAttemptInfo::new(String::new(), None, None);
    for i in 0..50 {
        info.record_sent(&text(&i.to_string()));
    }
    assert_eq!(info.sent_messages_snapshot().len(), 50);
    assert_eq!(info.sent_messages_snapshot()[0], "Text(0)");
    for i in 50..173 {
        info.record_sent(&text(&i.to_string()));
    }
    let expected: Vec<String> = (123..173).map(|i| format!("Text({i})")).collect();
    assert_eq!(info.sent_messages_snapshot(), expected);
}
