use generic_api_client::duplicates::DuplicateFilter;
use generic_api_client::WebSocketMessage;

fn text(text: &str) -> WebSocketMessage {
    WebSocketMessage::Text(text.to_string())
}

fn admitted(filter: &mut DuplicateFilter, message: &WebSocketMessage, ids: &[bool]) -> Vec<bool> {
    ids.iter()
        .map(|id| {
            assert!(filter.can_register(message, *id));
            filter.register(message, *id)
        })
        .collect()
}

#[test]
fn a_message_over_both_connections_is_let_through_once() {
    let mut filter = DuplicateFilter::new(false);
    assert_eq!(admitted(&mut filter, &text("a"), &[true, false]), [true, false]);
    assert_eq!(admitted(&mut filter, &text("b"), &[false, true]), [true, false]);
}

#[test]
fn a_message_sent_twice_is_let_through_twice() {
    let mut filter = DuplicateFilter::new(false);
    assert_eq!(
        admitted(&mut filter, &text("a"), &[true, true, false, false]),
        [true, true, false, false]
    );
    assert_eq!(admitted(&mut filter, &text("a"), &[false, true]), [true, false]);
}

#[test]
fn the_connection_that_brought_more_decides_how_often() {
    let ids = [true, false, false, false, true, true, true, false, true];
    let mut filter = DuplicateFilter::new(false);
    let passed = admitted(&mut filter, &text("a"), &ids);
    assert_eq!(passed, [true, false, true, true, false, false, true, false, true]);
    // five arrivals over `true`, four over `false`
    assert_eq!(passed.iter().filter(|passed| **passed).count(), 5);
}

#[test]
fn messages_are_counted_apart() {
    let mut filter = DuplicateFilter::new(false);
    assert_eq!(admitted(&mut filter, &text("a"), &[true]), [true]);
    assert_eq!(admitted(&mut filter, &text("b"), &[false]), [true]);
    assert_eq!(admitted(&mut filter, &WebSocketMessage::Ping(vec![97]), &[false]), [true]);
    assert_eq!(admitted(&mut filter, &WebSocketMessage::Pong(vec![97]), &[false]), [true]);
    assert_eq!(admitted(&mut filter, &text("a"), &[false]), [false]);
}

#[test]
fn where_repeats_are_ignored_a_message_is_let_through_once() {
    let mut filter = DuplicateFilter::new(true);
    assert_eq!(
        admitted(&mut filter, &text("a"), &[true, true, false, false, false]),
        [true, false, false, false, false]
    );
    assert_eq!(admitted(&mut filter, &text("b"), &[false, true]), [true, false]);
}

#[test]
fn a_cleared_filter_has_seen_nothing() {
    for ignore_repeats in [false, true] {
        let mut filter = DuplicateFilter::new(ignore_repeats);
        assert_eq!(admitted(&mut filter, &text("a"), &[true, false]), [true, false]);
        filter.clear();
        assert_eq!(admitted(&mut filter, &text("a"), &[false, true]), [true, false]);
    }
}
