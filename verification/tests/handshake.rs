use generic_api_client::handshake::{
    add_headers, find_passed_over, open_request, HandshakeError, PassedOver, HEADER_ROOM,
};
use tungstenite::http::Request;

fn headers(headers: &[(&str, &str)]) -> Vec<(String, String)> {
    headers.iter().map(|(name, value)| (name.to_string(), value.to_string())).collect()
}

fn value<'a>(request: &'a Request<()>, name: &str) -> Option<&'a [u8]> {
    let mut values = request.headers().get_all(name).iter();
    let first = values.next().map(|value| value.as_bytes());
    assert!(values.next().is_none());
    first
}

#[test]
fn a_request_has_the_five_headers_of_a_websocket() {
    let request = open_request("ws://user@example.com:8080/path?x=1", &vec![]).unwrap();
    assert_eq!(request.uri().to_string(), "ws://user@example.com:8080/path?x=1");
    assert_eq!(request.headers().keys_len(), 5);
    assert_eq!(value(&request, "host"), Some(b"example.com:8080".as_slice()));
    assert_eq!(value(&request, "connection"), Some(b"Upgrade".as_slice()));
    assert_eq!(value(&request, "upgrade"), Some(b"websocket".as_slice()));
    assert_eq!(value(&request, "sec-websocket-version"), Some(b"13".as_slice()));
    assert_eq!(value(&request, "sec-websocket-key").unwrap().len(), 24);
}

#[test]
fn a_url_without_a_host_is_refused() {
    for url in ["", "/path", "not a url", "ws://", "ws://user@/"] {
        assert!(matches!(open_request(url, &vec![]), Err(HandshakeError::Url(_))), "{url}");
    }
}

#[test]
fn headers_are_added_under_names_in_lower_case() {
    let request = open_request("ws://a", &headers(&[("X-Key", "Value"), ("x-Other", "")])).unwrap();
    assert_eq!(request.headers().keys_len(), 7);
    assert!(request.headers().keys().any(|name| name.as_str() == "x-key"));
    assert_eq!(value(&request, "x-key"), Some(b"Value".as_slice()));
    assert_eq!(value(&request, "x-other"), Some(b"".as_slice()));
}

#[test]
fn malformed_headers_are_passed_over() {
    let request = open_request(
        "ws://a",
        &headers(&[
            ("", "v"),
            ("a b", "v"),
            ("a:b", "v"),
            ("é", "v"),
            ("x-newline", "a\nb"),
            ("x-delete", "\u{7f}"),
            ("x-good", "a\tb"),
            ("x-opaque", "é"),
        ]),
    )
    .unwrap();
    assert_eq!(request.headers().keys_len(), 7);
    assert_eq!(value(&request, "x-good"), Some(b"a\tb".as_slice()));
    assert_eq!(value(&request, "x-opaque"), Some("é".as_bytes()));
}

#[test]
fn headers_that_are_passed_over_are_found() {
    assert_eq!(find_passed_over(&vec![]), vec![]);
    assert_eq!(
        find_passed_over(&headers(&[
            ("x-good", "a\tb"),
            ("a b", "v"),
            ("x-newline", "a\nb"),
            ("x-opaque", "é"),
            ("", "\n"),
        ])),
        vec![PassedOver::Name(1), PassedOver::Value(2), PassedOver::Name(4)]
    );
}

#[test]
fn every_token_character_may_stand_in_a_name() {
    for byte in 0u8..128 {
        let name = (byte as char).to_string();
        let request = open_request("ws://a", &headers(&[(name.as_str(), "v")])).unwrap();
        let token = byte.is_ascii_alphanumeric() || b"!#$%&'*+-.^_`|~".contains(&byte);
        assert_eq!(request.headers().keys_len(), if token { 6 } else { 5 }, "{byte}");
    }
}

#[test]
fn names_are_taken_up_to_their_limit() {
    let longest = "A".repeat(65535);
    let request = open_request("ws://a", &headers(&[(longest.as_str(), "v")])).unwrap();
    assert_eq!(value(&request, &"a".repeat(65535)), Some(b"v".as_slice()));
    let too_long = "A".repeat(65536);
    let request = open_request("ws://a", &headers(&[(too_long.as_str(), "v")])).unwrap();
    assert_eq!(request.headers().keys_len(), 5);
}

#[test]
fn the_last_header_of_a_name_stands() {
    let request = open_request(
        "ws://a",
        &headers(&[("X-Key", "1"), ("host", "b"), ("x-key", "2"), ("x-key", "\n")]),
    )
    .unwrap();
    assert_eq!(request.headers().keys_len(), 6);
    assert_eq!(value(&request, "x-key"), Some(b"2".as_slice()));
    assert_eq!(value(&request, "host"), Some(b"b".as_slice()));
    // a malformed header of the same name takes nothing away
    let request = open_request("ws://a", &headers(&[("x-key", "1"), ("X-Key", "a\nb")])).unwrap();
    assert_eq!(value(&request, "x-key"), Some(b"1".as_slice()));
}

#[test]
fn an_added_header_replaces_all_values_of_its_name() {
    let request = Request::builder().uri("ws://a/b").header("x", "1").header("x", "2").body(()).unwrap();
    let request = add_headers(request, &headers(&[("X", "3")])).unwrap();
    assert_eq!(value(&request, "x"), Some(b"3".as_slice()));
    assert_eq!(request.uri().to_string(), "ws://a/b");
}

#[test]
fn a_request_has_room_for_many_headers_but_not_for_any_number() {
    let many: Vec<(String, String)> = (0..HEADER_ROOM - 5).map(|i| (format!("x-{i}"), i.to_string())).collect();
    let request = open_request("ws://a", &many).unwrap();
    assert_eq!(request.headers().keys_len(), HEADER_ROOM);
    assert_eq!(value(&request, "x-6000"), Some(b"6000".as_slice()));
    let too_many: Vec<(String, String)> = (0..40000).map(|i| (format!("x-{i}"), String::new())).collect();
    assert!(matches!(open_request("ws://a", &too_many), Err(HandshakeError::TooManyHeaders)));
}
