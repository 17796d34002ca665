use generic_api_client::config::{rest_of_wait, WebSocketConfig};
use std::time::Duration;

#[test]
fn a_new_config_has_the_documented_defaults() {
    let config = WebSocketConfig::new();
    assert_eq!(config.connect_cooldown, Duration::from_millis(3000));
    assert_eq!(config.refresh_after, Duration::ZERO);
    assert_eq!(config.url_prefix, "");
    assert!(!config.ignore_duplicate_during_reconnection);
    assert_eq!(config.reconnection_wait, Duration::from_millis(300));
    assert_eq!(config.message_timeout, Duration::ZERO);
    assert!(config.handshake_headers.is_empty());
}

#[test]
fn a_copy_of_a_config_has_its_fields() {
    let mut config = WebSocketConfig::default();
    config.url_prefix = "wss://a".to_string();
    config.message_timeout = Duration::from_secs(1);
    config.ignore_duplicate_during_reconnection = true;
    config.handshake_headers = vec![("a".to_string(), "b".to_string()), ("c".to_string(), "d".to_string())];
    let copy = config.clone();
    assert_eq!(copy.connect_cooldown, config.connect_cooldown);
    assert_eq!(copy.refresh_after, config.refresh_after);
    assert_eq!(copy.url_prefix, "wss://a");
    assert!(copy.ignore_duplicate_during_reconnection);
    assert_eq!(copy.reconnection_wait, config.reconnection_wait);
    assert_eq!(copy.message_timeout, Duration::from_secs(1));
    assert_eq!(copy.handshake_headers, config.handshake_headers);
}

#[test]
fn a_wait_of_zero_never_ends() {
    assert_eq!(rest_of_wait(Duration::ZERO, Duration::ZERO), Duration::MAX);
    assert_eq!(rest_of_wait(Duration::ZERO, Duration::from_secs(9)), Duration::MAX);
}

#[test]
fn what_has_passed_is_taken_off_a_wait() {
    let wait = Duration::from_millis(1000);
    assert_eq!(rest_of_wait(wait, Duration::ZERO), wait);
    assert_eq!(rest_of_wait(wait, Duration::from_nanos(1)), Duration::from_nanos(999_999_999));
    assert_eq!(rest_of_wait(wait, wait), Duration::ZERO);
    assert_eq!(rest_of_wait(wait, Duration::MAX), Duration::ZERO);
}
