use generic_api_client::reconnect::ReconnectAction;
use generic_api_client::{WebSocketConfig, WebSocketConnection};
use std::time::Duration;

fn connection(waits: bool, refresh_after: Duration) -> WebSocketConnection {
    let mut config = WebSocketConfig::new();
    config.ignore_duplicate_during_reconnection = waits;
    config.refresh_after = refresh_after;
    let mut connection = WebSocketConnection::with_config("ws://a", &config);
    connection.start_connection("ws://a".to_string(), None, None, &vec![]);
    connection
}

/// What to do next, right after the last attempt.
fn action(connection: &WebSocketConnection) -> ReconnectAction {
    connection.reconnect_action(Duration::ZERO, Duration::ZERO)
}

/// Follows a course step by step until the next request is awaited, and tells what it does and
/// whether a reconnection is under way then.
fn course(connection: &mut WebSocketConnection, connects: bool) -> Vec<(String, bool)> {
    let mut steps = Vec::new();
    loop {
        let next = action(connection);
        steps.push((format!("{next:?}"), connection.reconnect_state().is_reconnecting()));
        connection.reconnect_advance(connects || !matches!(next, ReconnectAction::Connect));
        if matches!(action(connection), ReconnectAction::AwaitRequest(_)) {
            return steps;
        }
    }
}

fn named(steps: &[(&str, bool)]) -> Vec<(String, bool)> {
    steps.iter().map(|(name, under_way)| (name.to_string(), *under_way)).collect()
}

#[test]
fn a_request_is_accepted_unless_a_reconnection_is_under_way() {
    let mut connection = connection(false, Duration::ZERO);
    assert!(!connection.reconnect_state().is_reconnecting());
    assert!(!connection.reconnect_state().is_requested());
    assert!(connection.request_reconnect());
    assert!(connection.reconnect_state().is_requested());
    assert!(connection.request_reconnect());

    connection.reconnect_advance(true);
    assert!(!connection.reconnect_state().is_reconnecting());
    assert!(connection.request_reconnect());
    connection.reconnect_advance(true);
    assert!(connection.reconnect_state().is_reconnecting());
    assert!(!connection.reconnect_state().is_requested());
    assert!(!connection.request_reconnect());
    assert!(!connection.reconnect_state().is_requested());
}

#[test]
fn without_waits_a_reconnection_connects_and_closes() {
    let mut connection = connection(false, Duration::from_secs(60));
    assert!(connection.request_reconnect());
    assert_eq!(
        course(&mut connection, true),
        named(&[
            ("AwaitRequest(60s)", false),
            ("CoolDown(3s)", false),
            ("Connect", true),
            ("CloseOld { reconnect: true }", true),
        ])
    );
    assert!(!connection.reconnect_state().is_reconnecting());
    assert!(!connection.reconnect_state().is_requested());
}

#[test]
fn with_waits_a_reconnection_waits_three_times() {
    let mut connection = connection(true, Duration::from_secs(60));
    assert_eq!(
        course(&mut connection, true),
        named(&[
            ("AwaitRequest(60s)", false),
            ("CoolDown(2.7s)", false),
            ("Sleep(300ms)", true),
            ("Connect", true),
            ("Sleep(300ms)", true),
            ("CloseOld { reconnect: true }", true),
            ("Sleep(300ms)", true),
        ])
    );
    assert!(!connection.reconnect_state().is_reconnecting());
}

#[test]
fn a_failed_attempt_closes_nothing_and_is_repeated() {
    for waits in [false, true] {
        let mut connection = connection(waits, Duration::from_secs(60));
        let steps = course(&mut connection, false);
        assert!(steps.contains(&("Connect".to_string(), true)));
        assert!(!steps.iter().any(|(name, _)| name.starts_with("CloseOld")));
        assert_eq!(steps.iter().filter(|(name, _)| name.starts_with("Sleep")).count(), if waits { 2 } else { 0 });
        assert!(!connection.reconnect_state().is_reconnecting());
        assert!(connection.reconnect_state().is_requested());
        // the next attempt begins with a time to cool down
        let cooling = if waits { "CoolDown(2.7s)" } else { "CoolDown(3s)" };
        assert_eq!(course(&mut connection, true)[1], (cooling.to_string(), false));
        assert!(!connection.reconnect_state().is_requested());
    }
}

#[test]
fn a_failure_to_close_changes_nothing() {
    let mut connection = connection(false, Duration::ZERO);
    connection.reconnect_advance(true);
    connection.reconnect_advance(true);
    connection.reconnect_advance(true);
    assert!(matches!(action(&connection), ReconnectAction::CloseOld { reconnect: true }));
    connection.reconnect_advance(false);
    assert!(!connection.reconnect_state().is_requested());
    assert!(!connection.reconnect_state().is_reconnecting());
}

#[test]
fn without_a_refresh_a_request_is_awaited_forever() {
    let endless = connection(false, Duration::ZERO);
    assert!(matches!(action(&endless), ReconnectAction::AwaitRequest(limit) if limit == Duration::MAX));
    let short = connection(false, Duration::from_nanos(1));
    assert!(matches!(action(&short), ReconnectAction::AwaitRequest(limit) if limit == Duration::from_nanos(1)));
}

/// When four attempts begin, each of which takes 500 ms, where a reconnection is always asked for.
fn attempts(waits: bool, wait: Duration, connects: bool) -> Vec<u128> {
    let mut config = WebSocketConfig::new();
    config.ignore_duplicate_during_reconnection = waits;
    config.reconnection_wait = wait;
    let mut connection = WebSocketConnection::with_config("ws://a", &config);
    connection.start_connection("ws://a".to_string(), None, None, &vec![]);
    let mut now = Duration::from_millis(500);
    let mut attempts = vec![Duration::ZERO];
    while attempts.len() < 4 {
        connection.request_reconnect();
        let last = attempts[attempts.len() - 1];
        let mut succeeded = true;
        match connection.reconnect_action(Duration::ZERO, now - last) {
            ReconnectAction::CoolDown(wait) | ReconnectAction::Sleep(wait) => now += wait,
            ReconnectAction::Connect => {
                attempts.push(now);
                now += Duration::from_millis(500);
                succeeded = connects;
            }
            ReconnectAction::AwaitRequest(_) | ReconnectAction::CloseOld { .. } => {}
        }
        connection.reconnect_advance(succeeded);
    }
    attempts.iter().map(Duration::as_millis).collect()
}

#[test]
fn attempts_lie_a_cooldown_apart() {
    for connects in [true, false] {
        for waits in [true, false] {
            assert_eq!(attempts(waits, Duration::from_millis(300), connects), [0, 3000, 6000, 9000]);
        }
    }
}

#[test]
fn waits_that_take_longer_than_the_cooldown_leave_none() {
    // the wait before each attempt, and after the first one the two waits after it
    assert_eq!(attempts(true, Duration::from_secs(4), true), [0, 4500, 17000, 29500]);
    assert_eq!(attempts(true, Duration::from_secs(4), false), [0, 4500, 13000, 21500]);
}

#[test]
fn the_wait_before_connecting_counts_toward_the_cooldown() {
    let connection = connection(true, Duration::ZERO);
    assert_eq!(connection.cooldown_left(Duration::ZERO), Duration::from_millis(2700));
    assert_eq!(connection.cooldown_left(Duration::from_millis(1000)), Duration::from_millis(1700));
    assert_eq!(connection.cooldown_left(Duration::from_millis(2700)), Duration::ZERO);
    assert_eq!(connection.cooldown_left(Duration::from_millis(2900)), Duration::ZERO);
    assert_eq!(connection.cooldown_left(Duration::MAX), Duration::ZERO);
}
