use generic_api_client::message::kind_and_len;
use generic_api_client::WebSocketMessage;
use tungstenite::protocol::frame::Frame;
use tungstenite::Message;

fn samples() -> Vec<WebSocketMessage> {
    vec![
        WebSocketMessage::Text("hi".to_string()),
        WebSocketMessage::Binary(vec![1, 2, 3]),
        WebSocketMessage::Ping(vec![1, 2, 3]),
        WebSocketMessage::Pong(vec![1, 2, 3]),
    ]
}

#[test]
fn messages_become_frames_of_their_kind() {
    assert_eq!(WebSocketMessage::Text("hi".to_string()).into_message(), Message::Text("hi".to_string()));
    assert_eq!(WebSocketMessage::Binary(vec![1]).into_message(), Message::Binary(vec![1]));
    assert_eq!(WebSocketMessage::Ping(vec![2]).into_message(), Message::Ping(vec![2]));
    assert_eq!(WebSocketMessage::Pong(vec![3]).into_message(), Message::Pong(vec![3]));
}

#[test]
fn a_message_survives_the_way_there_and_back() {
    for message in samples() {
        let frame = message.clone().into_message();
        assert_eq!(WebSocketMessage::read_message(&frame), Some(message.clone()));
        assert_eq!(WebSocketMessage::from_message(frame), Some(message));
    }
}

#[test]
fn close_messages_and_raw_frames_are_no_messages() {
    assert_eq!(WebSocketMessage::from_message(Message::Close(None)), None);
    assert_eq!(WebSocketMessage::read_message(&Message::Close(None)), None);
    assert_eq!(WebSocketMessage::from_message(Message::Frame(Frame::ping(vec![]))), None);
    assert_eq!(WebSocketMessage::read_message(&Message::Frame(Frame::ping(vec![]))), None);
}

#[test]
fn messages_are_equal_in_kind_and_payload() {
    let samples = samples();
    for (i, left) in samples.iter().enumerate() {
        for (j, right) in samples.iter().enumerate() {
            assert_eq!(left == right, i == j);
        }
    }
    assert_ne!(WebSocketMessage::Ping(vec![1]), WebSocketMessage::Ping(vec![1, 1]));
    assert_ne!(WebSocketMessage::Ping(vec![1]), WebSocketMessage::Ping(vec![2]));
    assert_ne!(WebSocketMessage::Text("a".to_string()), WebSocketMessage::Text("b".to_string()));
}

#[test]
fn the_kind_and_the_length_of_a_message_are_told() {
    assert_eq!(kind_and_len(&Message::Text("aé…".to_string())), ("text", 6));
    assert_eq!(kind_and_len(&Message::Binary(vec![1, 2, 3])), ("binary", 3));
    assert_eq!(kind_and_len(&Message::Ping(vec![1])), ("ping", 1));
    assert_eq!(kind_and_len(&Message::Pong(vec![])), ("pong", 0));
    assert_eq!(kind_and_len(&Message::Close(None)), ("close", 0));
    assert_eq!(kind_and_len(&Message::Frame(Frame::ping(vec![1, 2]))), ("frame", 0));
}
