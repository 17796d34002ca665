use generic_api_client::connection::{FeedAction, FeederMessage};
use generic_api_client::handshake::HandshakeError;
use generic_api_client::reconnect::ReconnectAction;
use generic_api_client::{
    TungsteniteError, WebSocketConfig, WebSocketConnection, WebSocketHandler, WebSocketMessage,
};
use std::time::Duration;
use tungstenite::Message;

fn text(text: &str) -> WebSocketMessage {
    WebSocketMessage::Text(text.to_string())
}

fn received(id: bool, text: &str) -> Option<(bool, FeederMessage)> {
    Some((id, FeederMessage::Message(Ok(Message::Text(text.to_string())))))
}

fn failed(id: bool) -> Option<(bool, FeederMessage)> {
    Some((id, FeederMessage::Message(Err(TungsteniteError::ConnectionClosed))))
}

fn closed(id: bool) -> Option<(bool, FeederMessage)> {
    Some((id, FeederMessage::ConnectionClosed))
}

fn feed(connection: &mut WebSocketConnection, event: Option<(bool, FeederMessage)>) -> FeedAction {
    assert!(connection.can_feed(&event));
    connection.feed_handler(event)
}

fn delivers(connection: &mut WebSocketConnection, id: bool, content: &str) -> bool {
    match feed(connection, received(id, content)) {
        FeedAction::Deliver(message) => {
            assert_eq!(message, text(content));
            true
        }
        FeedAction::Ignore => false,
        action => panic!("{action:?}"),
    }
}

fn started(config: &WebSocketConfig) -> WebSocketConnection {
    let mut connection = WebSocketConnection::with_config("/stream", config);
    let url = connection.url(config);
    let id = connection.start_connection(
        url,
        Some("1.2.3.4:5".to_string()),
        Some("6.7.8.9:10".to_string()),
        &vec![text("subscribe")],
    );
    assert!(!id);
    connection
}

/// Goes on until a new connection is to be made.
fn begin_reconnection(connection: &mut WebSocketConnection) {
    while !matches!(connection.reconnect_action(Duration::ZERO, Duration::ZERO), ReconnectAction::Connect) {
        connection.reconnect_advance(true);
    }
    assert!(connection.reconnect_state().is_reconnecting());
}

struct Plain;

impl WebSocketHandler for Plain {
    fn handle_message(&mut self, message: WebSocketMessage) -> Vec<WebSocketMessage> {
        vec![message]
    }
}

struct Configured;

impl WebSocketHandler for Configured {
    fn websocket_config(&self) -> WebSocketConfig {
        let mut config = WebSocketConfig::new();
        config.message_timeout = Duration::from_secs(5);
        config.connect_cooldown = Duration::from_secs(7);
        config.refresh_after = Duration::from_secs(9);
        config
    }

    fn handle_message(&mut self, _message: WebSocketMessage) -> Vec<WebSocketMessage> {
        vec![]
    }
}

#[test]
fn a_handler_has_defaults() {
    let mut handler = Plain;
    assert_eq!(handler.websocket_config().connect_cooldown, Duration::from_millis(3000));
    assert!(handler.handle_start().is_empty());
    handler.handle_close(true);
    assert_eq!(handler.handle_message(text("a")), vec![text("a")]);
}

#[test]
fn a_connection_is_configured_by_its_handler() {
    let connection = WebSocketConnection::new("ws://a", &Configured);
    assert_eq!(connection.receive_timeout(Duration::ZERO), Duration::from_secs(5));
    assert_eq!(connection.connect_cooldown(), Duration::from_secs(7));
    assert!(matches!(
        connection.reconnect_action(Duration::ZERO, Duration::ZERO),
        ReconnectAction::AwaitRequest(limit) if limit == Duration::from_secs(9)
    ));
    let mut connection = WebSocketConnection::new("ws://a", &Plain);
    assert_eq!(connection.receive_timeout(Duration::ZERO), Duration::MAX);
    assert_eq!(connection.connect_cooldown(), Duration::from_secs(3));
    assert!(!connection.reconnect_state().is_reconnecting());
    assert!(!connection.reconnect_state().is_requested());
}

#[test]
fn the_url_has_the_prefix() {
    let mut config = WebSocketConfig::new();
    config.url_prefix = "wss://example.com".to_string();
    config.handshake_headers = vec![("X-Auth".to_string(), "abc".to_string())];
    let connection = WebSocketConnection::with_config("/stream", &config);
    assert_eq!(connection.url(&config), "wss://example.com/stream");
    let request = connection.handshake_request(&config).unwrap();
    assert_eq!(request.uri().to_string(), "wss://example.com/stream");
    assert_eq!(request.headers()["host"], "example.com");
    assert_eq!(request.headers()["x-auth"], "abc");
    config.url_prefix = String::new();
    assert!(matches!(connection.handshake_request(&config), Err(HandshakeError::Url(_))));
}

#[test]
fn ids_alternate() {
    let mut connection = WebSocketConnection::with_config("a", &WebSocketConfig::new());
    for id in [false, true, false, true] {
        assert_eq!(connection.start_connection(String::new(), None, None, &vec![]), id);
        assert_eq!(connection.current_id(), id);
    }
}

#[test]
fn what_was_sent_is_reported_for_its_connection() {
    let config = WebSocketConfig::new();
    let mut connection = started(&config);
    let report = connection.report(false);
    assert_eq!(report.url, "/stream");
    assert_eq!(report.local_addr, Some("1.2.3.4:5".to_string()));
    assert_eq!(report.peer_addr, Some("6.7.8.9:10".to_string()));
    assert_eq!(report.sent_messages, ["Text(subscribe)"]);

    assert_eq!(connection.send_message(false, text("a")), Message::Text("a".to_string()));
    // there is no attempt with this id yet
    assert_eq!(connection.send_message(true, WebSocketMessage::Ping(vec![1])), Message::Ping(vec![1]));
    assert_eq!(connection.report(false).sent_messages, ["Text(subscribe)", "Text(a)"]);
    let unknown = connection.report(true);
    assert_eq!(unknown.url, "/stream");
    assert_eq!(unknown.local_addr, None);
    assert_eq!(unknown.peer_addr, None);
    assert!(unknown.sent_messages.is_empty());

    assert!(connection.start_connection("b".to_string(), None, None, &vec![]));
    assert_eq!(connection.report(false).sent_messages, ["Text(subscribe)", "Text(a)"]);
    assert_eq!(connection.report(true).url, "b");
    assert!(connection.report(true).sent_messages.is_empty());
    // a third connection takes the place of the first
    assert!(!connection.start_connection("c".to_string(), None, None, &vec![]));
    assert_eq!(connection.report(false).url, "c");
    assert!(connection.report(false).sent_messages.is_empty());
}

#[test]
fn of_the_first_messages_the_last_are_remembered() {
    let mut connection = WebSocketConnection::with_config("a", &WebSocketConfig::new());
    let messages: Vec<WebSocketMessage> = (0..60).map(|i| text(&i.to_string())).collect();
    connection.start_connection(String::new(), None, None, &messages);
    let expected: Vec<String> = (10..60).map(|i| format!("Text({i})")).collect();
    assert_eq!(connection.report(false).sent_messages, expected);
}

#[test]
fn every_message_is_delivered_outside_a_reconnection() {
    let mut config = WebSocketConfig::new();
    config.ignore_duplicate_during_reconnection = true;
    let mut connection = started(&config);
    assert!(delivers(&mut connection, false, "a"));
    assert!(delivers(&mut connection, false, "a"));
    assert!(delivers(&mut connection, true, "a"));
}

#[test]
fn close_frames_are_ignored() {
    let mut connection = started(&WebSocketConfig::new());
    let event = Some((false, FeederMessage::Message(Ok(Message::Close(None)))));
    assert!(matches!(feed(&mut connection, event), FeedAction::Ignore));
    assert!(!connection.reconnect_state().is_requested());
}

#[test]
fn a_failure_asks_for_a_reconnection() {
    let mut connection = started(&WebSocketConfig::new());
    match feed(&mut connection, failed(false)) {
        FeedAction::ReceiveFailed { report, error, requested } => {
            assert_eq!(report.sent_messages, ["Text(subscribe)"]);
            assert!(matches!(error, TungsteniteError::ConnectionClosed));
            assert!(requested);
        }
        action => panic!("{action:?}"),
    }
    assert!(connection.reconnect_state().is_requested());

    begin_reconnection(&mut connection);
    assert!(matches!(
        feed(&mut connection, failed(false)),
        FeedAction::ReceiveFailed { requested: false, .. }
    ));
    assert!(!connection.reconnect_state().is_requested());
}

#[test]
fn a_timeout_asks_for_a_reconnection() {
    let mut connection = started(&WebSocketConfig::new());
    assert!(matches!(feed(&mut connection, None), FeedAction::TimedOut { requested: true }));
    assert!(connection.reconnect_state().is_requested());
    begin_reconnection(&mut connection);
    assert!(matches!(feed(&mut connection, None), FeedAction::TimedOut { requested: false }));
    assert!(!connection.reconnect_state().is_requested());
}

#[test]
fn a_closed_connection_asks_for_a_reconnection() {
    let mut connection = started(&WebSocketConfig::new());
    match feed(&mut connection, closed(false)) {
        FeedAction::Disconnected { report, requested } => {
            assert_eq!(report.url, "/stream");
            assert!(requested);
        }
        action => panic!("{action:?}"),
    }
    assert!(connection.reconnect_state().is_requested());
    begin_reconnection(&mut connection);
    assert!(matches!(
        feed(&mut connection, closed(false)),
        FeedAction::Disconnected { requested: false, .. }
    ));
}

#[test]
fn the_breakdown_of_a_replaced_connection_is_ignored() {
    let mut connection = started(&WebSocketConfig::new());
    assert!(connection.start_connection("b".to_string(), None, None, &vec![]));
    assert!(matches!(feed(&mut connection, closed(false)), FeedAction::Ignore));
    match feed(&mut connection, failed(false)) {
        FeedAction::OldReceiveFailed { report, error } => {
            assert_eq!(report.url, "/stream");
            assert!(matches!(error, TungsteniteError::ConnectionClosed));
        }
        action => panic!("{action:?}"),
    }
    assert!(!connection.reconnect_state().is_requested());
    assert!(matches!(feed(&mut connection, closed(true)), FeedAction::Disconnected { .. }));
    assert!(connection.reconnect_state().is_requested());
}

#[test]
fn a_user_can_ask_for_a_reconnection() {
    let mut connection = started(&WebSocketConfig::new());
    assert!(connection.request_reconnect());
    begin_reconnection(&mut connection);
    assert!(!connection.request_reconnect());
    // no new connection could be made
    connection.reconnect_advance(false);
    assert!(connection.reconnect_state().is_requested());
    assert!(!connection.reconnect_state().is_reconnecting());
}

#[test]
fn during_a_reconnection_duplicates_are_found() {
    let mut connection = started(&WebSocketConfig::new());
    assert!(delivers(&mut connection, false, "a"));
    begin_reconnection(&mut connection);
    assert!(delivers(&mut connection, false, "a"));
    assert!(delivers(&mut connection, false, "a"));
    assert!(!delivers(&mut connection, true, "a"));
    assert!(!delivers(&mut connection, true, "a"));
    assert!(delivers(&mut connection, true, "a"));
    assert!(delivers(&mut connection, true, "b"));
    assert!(!delivers(&mut connection, false, "b"));
}

#[test]
fn during_a_reconnection_repeats_are_ignored_where_configured() {
    let mut config = WebSocketConfig::new();
    config.ignore_duplicate_during_reconnection = true;
    let mut connection = started(&config);
    begin_reconnection(&mut connection);
    assert!(delivers(&mut connection, false, "a"));
    assert!(!delivers(&mut connection, false, "a"));
    assert!(!delivers(&mut connection, true, "a"));
    assert!(delivers(&mut connection, true, "b"));
}

#[test]
fn a_message_after_a_reconnection_forgets_what_was_seen() {
    let mut config = WebSocketConfig::new();
    config.ignore_duplicate_during_reconnection = true;
    let mut connection = started(&config);
    begin_reconnection(&mut connection);
    assert!(delivers(&mut connection, false, "a"));
    while connection.reconnect_state().is_reconnecting() {
        connection.reconnect_advance(true);
    }
    assert!(delivers(&mut connection, false, "b"));
    begin_reconnection(&mut connection);
    assert!(delivers(&mut connection, false, "a"));
}

#[test]
fn without_a_message_in_between_what_was_seen_is_remembered() {
    let mut config = WebSocketConfig::new();
    config.ignore_duplicate_during_reconnection = true;
    let mut connection = started(&config);
    begin_reconnection(&mut connection);
    assert!(delivers(&mut connection, false, "a"));
    while connection.reconnect_state().is_reconnecting() {
        connection.reconnect_advance(true);
    }
    begin_reconnection(&mut connection);
    assert!(!delivers(&mut connection, false, "a"));
}

#[test]
fn dropping_closes_the_connection() {
    let mut connection = started(&WebSocketConfig::new());
    let request = connection.drop_request();
    assert!(!request.0);
    assert!(matches!(
        feed(&mut connection, Some(request)),
        FeedAction::Shutdown { reconnect: false }
    ));
}

#[test]
fn dropping_gives_up_a_reconnection() {
    for waits in [false, true] {
        let mut config = WebSocketConfig::new();
        config.ignore_duplicate_during_reconnection = waits;
        let mut connection = started(&config);
        assert!(connection.request_reconnect());
        begin_reconnection(&mut connection);
        let request = connection.drop_request();
        assert!(matches!(
            feed(&mut connection, Some(request)),
            FeedAction::Shutdown { reconnect: false }
        ));
        assert!(!connection.reconnect_state().is_reconnecting());
        assert!(!connection.reconnect_state().is_requested());
        // what was going on comes to nothing, and nothing new begins
        for succeeded in [true, false, true, true] {
            connection.reconnect_advance(succeeded);
            assert!(!connection.reconnect_state().is_reconnecting());
            assert!(matches!(
                connection.reconnect_action(Duration::ZERO, Duration::ZERO),
                ReconnectAction::AwaitRequest(_)
            ));
        }
    }
}

#[test]
fn the_breakdown_of_the_new_connection_asks_for_another() {
    let breakdowns: [fn(bool) -> Option<(bool, FeederMessage)>; 2] = [failed, closed];
    for breakdown in breakdowns {
        // before the step is done, while both go on, while the old one is closed, and after
        for steps in 0..4 {
            let mut config = WebSocketConfig::new();
            config.ignore_duplicate_during_reconnection = true;
            let mut connection = started(&config);
            assert!(connection.request_reconnect());
            begin_reconnection(&mut connection);
            let id = connection.start_connection("b".to_string(), None, None, &vec![]);
            for _ in 0..steps {
                connection.reconnect_advance(true);
            }
            assert!(connection.reconnect_state().is_reconnecting());
            assert!(matches!(
                feed(&mut connection, breakdown(id)),
                FeedAction::ReceiveFailed { requested: true, .. } | FeedAction::Disconnected { requested: true, .. }
            ));
            // it still stands when the reconnection is over, and the next one answers it
            while connection.reconnect_state().is_reconnecting() {
                connection.reconnect_advance(true);
            }
            assert!(connection.reconnect_state().is_requested());
            begin_reconnection(&mut connection);
            assert!(!connection.reconnect_state().is_requested());
            // this one has not made its own connection yet
            feed(&mut connection, breakdown(id));
            assert!(!connection.reconnect_state().is_requested());
        }
    }
}

#[test]
fn a_request_to_the_state_is_one_to_the_connection() {
    let mut connection = started(&WebSocketConfig::new());
    assert!(connection.reconnect_state().request_reconnect());
    assert!(connection.reconnect_state().is_requested());
    begin_reconnection(&mut connection);
    assert!(!connection.reconnect_state().request_reconnect());
    assert!(!connection.reconnect_state().is_requested());
}

#[test]
fn only_a_received_message_restarts_the_wait() {
    for message in [Message::Text("a".to_string()), Message::Ping(vec![]), Message::Close(None)] {
        assert!(FeederMessage::Message(Ok(message)).restarts_wait());
    }
    assert!(!FeederMessage::Message(Err(TungsteniteError::ConnectionClosed)).restarts_wait());
    assert!(!FeederMessage::ConnectionClosed.restarts_wait());
    assert!(!FeederMessage::DropConnectionRequest.restarts_wait());
}

#[test]
fn the_wait_for_a_message_ends_when_it_is_over() {
    let connection = WebSocketConnection::new("ws://a", &Configured);
    assert_eq!(connection.receive_timeout(Duration::from_secs(2)), Duration::from_secs(3));
    assert_eq!(connection.receive_timeout(Duration::from_secs(6)), Duration::ZERO);
    let connection = WebSocketConnection::new("ws://a", &Plain);
    assert_eq!(connection.receive_timeout(Duration::from_secs(2)), Duration::MAX);
}

#[test]
fn a_cooldown_is_counted_from_the_last_attempt() {
    let mut connection = WebSocketConnection::new("ws://a", &Configured);
    assert_eq!(connection.cooldown_left(Duration::ZERO), Duration::from_secs(7));
    assert_eq!(connection.cooldown_left(Duration::from_secs(3)), Duration::from_secs(4));
    assert_eq!(connection.cooldown_left(Duration::from_secs(8)), Duration::ZERO);
    connection.reconnect_advance(true);
    assert!(matches!(
        connection.reconnect_action(Duration::ZERO, Duration::from_secs(3)),
        ReconnectAction::CoolDown(wait) if wait == Duration::from_secs(4)
    ));
    assert!(matches!(
        connection.reconnect_action(Duration::ZERO, Duration::MAX),
        ReconnectAction::CoolDown(wait) if wait == Duration::ZERO
    ));

    let mut config = WebSocketConfig::new();
    config.connect_cooldown = Duration::ZERO;
    let connection = WebSocketConnection::with_config("ws://a", &config);
    assert_eq!(connection.cooldown_left(Duration::ZERO), Duration::ZERO);
}

#[test]
fn a_refresh_is_counted_from_the_start_of_the_connection() {
    let connection = WebSocketConnection::new("ws://a", &Configured);
    for (since_start, left) in [(0, 9), (4, 5), (9, 0), (20, 0)] {
        assert!(matches!(
            connection.reconnect_action(Duration::from_secs(since_start), Duration::ZERO),
            ReconnectAction::AwaitRequest(limit) if limit == Duration::from_secs(left)
        ));
    }
    let connection = WebSocketConnection::new("ws://a", &Plain);
    assert!(matches!(
        connection.reconnect_action(Duration::from_secs(20), Duration::ZERO),
        ReconnectAction::AwaitRequest(limit) if limit == Duration::MAX
    ));
}
