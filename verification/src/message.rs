use vstd::prelude::*;
use vstd::std_specs::cmp::PartialEqSpec;
use vstd::utf8::encode_utf8;

verus! {

/// Makes the variants of [tungstenite::Message] known to the verifier.
#[verifier::external_type_specification]
pub struct ExMessage(tungstenite::Message);

/// The payload of [tungstenite::Message::Close]. It is carried, never looked into.
#[verifier::external_type_specification]
#[verifier::external_body]
pub struct ExCloseFrame<'t>(tungstenite::protocol::CloseFrame<'t>);

/// The payload of [tungstenite::Message::Frame]. It is carried, never looked into.
#[verifier::external_type_specification]
#[verifier::external_body]
pub struct ExFrame(tungstenite::protocol::frame::Frame);

/// What a websocket message says: its kind and its payload.
pub enum MessageView {
    Text(Seq<char>),
    Binary(Seq<u8>),
    Ping(Seq<u8>),
    Pong(Seq<u8>),
}

/// What a [tungstenite::Message] says, where it is one of the four kinds that a
/// [WebSocketMessage] can hold. Close messages and raw frames say nothing.
pub open spec fn frame_content(message: tungstenite::Message) -> Option<MessageView> {
    match message {
        tungstenite::Message::Text(text) => Some(MessageView::Text(text@)),
        tungstenite::Message::Binary(data) => Some(MessageView::Binary(data@)),
        tungstenite::Message::Ping(data) => Some(MessageView::Ping(data@)),
        tungstenite::Message::Pong(data) => Some(MessageView::Pong(data@)),
        tungstenite::Message::Close(_) => None,
        tungstenite::Message::Frame(_) => None,
    }
}

/// The name of a message's kind.
pub open spec fn kind_name(message: tungstenite::Message) -> Seq<char> {
    match message {
        tungstenite::Message::Text(_) => "text"@,
        tungstenite::Message::Binary(_) => "binary"@,
        tungstenite::Message::Ping(_) => "ping"@,
        tungstenite::Message::Pong(_) => "pong"@,
        tungstenite::Message::Close(_) => "close"@,
        tungstenite::Message::Frame(_) => "frame"@,
    }
}

/// How many bytes a message's payload has. Those of close messages and raw frames do not count.
pub open spec fn payload_length(message: tungstenite::Message) -> nat {
    match frame_content(message) {
        Some(MessageView::Text(text)) => encode_utf8(text).len(),
        Some(MessageView::Binary(data)) => data.len(),
        Some(MessageView::Ping(data)) => data.len(),
        Some(MessageView::Pong(data)) => data.len(),
        None => 0,
    }
}

/// The kind of a message and the length of its payload, for the logs.
pub fn kind_and_len(message: &tungstenite::Message) -> (result: (&'static str, usize))
    ensures
        result.0@ == kind_name(*message),
        result.1 == payload_length(*message),
{
    match message {
        tungstenite::Message::Text(text) => ("text", text.as_str().as_bytes().len()),
        tungstenite::Message::Binary(data) => ("binary", data.len()),
        tungstenite::Message::Ping(data) => ("ping", data.len()),
        tungstenite::Message::Pong(data) => ("pong", data.len()),
        tungstenite::Message::Close(_) => ("close", 0),
        tungstenite::Message::Frame(_) => ("frame", 0),
    }
}

/// An enum that represents a websocket message.
///
/// See also [tungstenite::Message].
#[derive(Debug, Eq, Hash)]
pub enum WebSocketMessage {
    /// A text message
    Text(String),
    /// A binary message
    Binary(Vec<u8>),
    /// A ping message
    Ping(Vec<u8>),
    /// A pong message
    Pong(Vec<u8>),
}

impl View for WebSocketMessage {
    type V = MessageView;

    open spec fn view(&self) -> MessageView {
        match self {
            WebSocketMessage::Text(text) => MessageView::Text(text@),
            WebSocketMessage::Binary(data) => MessageView::Binary(data@),
            WebSocketMessage::Ping(data) => MessageView::Ping(data@),
            WebSocketMessage::Pong(data) => MessageView::Pong(data@),
        }
    }
}

impl WebSocketMessage {
    /// The message that `message` stands for, or `None` where it is a close message or a raw
    /// frame.
    pub fn from_message(message: tungstenite::Message) -> (result: Option<Self>)
        ensures
            result is Some <==> frame_content(message) is Some,
            result matches Some(content) ==> Some(content@) == frame_content(message),
    {
        match message {
            tungstenite::Message::Text(text) => Some(Self::Text(text)),
            tungstenite::Message::Binary(data) => Some(Self::Binary(data)),
            tungstenite::Message::Ping(data) => Some(Self::Ping(data)),
            tungstenite::Message::Pong(data) => Some(Self::Pong(data)),
            tungstenite::Message::Close(_) | tungstenite::Message::Frame(_) => None,
        }
    }

    /// A copy of the message that `message` stands for, or `None` where it is a close message or a
    /// raw frame.
    pub fn read_message(message: &tungstenite::Message) -> (result: Option<Self>)
        ensures
            result is Some <==> frame_content(*message) is Some,
            result matches Some(content) ==> Some(content@) == frame_content(*message),
    {
        match message {
            tungstenite::Message::Text(text) => Some(Self::Text(text.clone())),
            tungstenite::Message::Binary(data) => Some(Self::Binary(data.clone())),
            tungstenite::Message::Ping(data) => Some(Self::Ping(data.clone())),
            tungstenite::Message::Pong(data) => Some(Self::Pong(data.clone())),
            tungstenite::Message::Close(_) | tungstenite::Message::Frame(_) => None,
        }
    }

    /// The [tungstenite::Message] that says what `self` says.
    pub fn into_message(self) -> (message: tungstenite::Message)
        ensures
            frame_content(message) == Some(self@),
    {
        match self {
            WebSocketMessage::Text(text) => tungstenite::Message::Text(text),
            WebSocketMessage::Binary(data) => tungstenite::Message::Binary(data),
            WebSocketMessage::Ping(data) => tungstenite::Message::Ping(data),
            WebSocketMessage::Pong(data) => tungstenite::Message::Pong(data),
        }
    }
}

/// Whether two byte strings are the same.
fn same_bytes(left: &Vec<u8>, right: &Vec<u8>) -> (same: bool)
    ensures
        same == (left@ == right@),
{
    if left.len() != right.len() {
        return false;
    }
    let mut i: usize = 0;
    while i < left.len()
        invariant
            left@.len() == right@.len(),
            i <= left@.len(),
            forall|j: int| 0 <= j < i ==> left@[j] == right@[j],
        decreases left@.len() - i,
    {
        if left[i] != right[i] {
            return false;
        }
        i += 1;
    }
    assert(left@ =~= right@);
    true
}

impl PartialEq for WebSocketMessage {
    /// Two messages are equal where they have the same kind and the same payload.
    fn eq(&self, other: &Self) -> (equal: bool) {
        match (self, other) {
            (WebSocketMessage::Text(left), WebSocketMessage::Text(right)) => *left == *right,
            (WebSocketMessage::Binary(left), WebSocketMessage::Binary(right)) => same_bytes(left, right),
            (WebSocketMessage::Ping(left), WebSocketMessage::Ping(right)) => same_bytes(left, right),
            (WebSocketMessage::Pong(left), WebSocketMessage::Pong(right)) => same_bytes(left, right),
            _ => false,
        }
    }
}

impl vstd::std_specs::cmp::PartialEqSpecImpl for WebSocketMessage {
    open spec fn obeys_eq_spec() -> bool {
        true
    }

    open spec fn eq_spec(&self, other: &Self) -> bool {
        self@ == other@
    }
}

impl Clone for WebSocketMessage {
    fn clone(&self) -> (copy: Self)
        ensures
            copy@ == self@,
    {
        match self {
            WebSocketMessage::Text(text) => WebSocketMessage::Text(text.clone()),
            WebSocketMessage::Binary(data) => WebSocketMessage::Binary(data.clone()),
            WebSocketMessage::Ping(data) => WebSocketMessage::Ping(data.clone()),
            WebSocketMessage::Pong(data) => WebSocketMessage::Pong(data.clone()),
        }
    }
}

/// A message that is sent and received again says what it said.
pub proof fn message_survives_the_way_there_and_back(
    message: WebSocketMessage,
    frame: tungstenite::Message,
    received: Option<WebSocketMessage>,
)
    requires
        call_ensures(WebSocketMessage::into_message, (message,), frame),
        call_ensures(WebSocketMessage::from_message, (frame,), received),
    ensures
        received is Some,
        received->0@ == message@,
{
}

/// Whether `message` is one of the four kinds and says `content`.
pub open spec fn says(message: tungstenite::Message, content: MessageView) -> bool {
    match content {
        MessageView::Text(said) => message matches tungstenite::Message::Text(text) && text@ == said,
        MessageView::Binary(said) => message matches tungstenite::Message::Binary(data) && data@ == said,
        MessageView::Ping(said) => message matches tungstenite::Message::Ping(data) && data@ == said,
        MessageView::Pong(said) => message matches tungstenite::Message::Pong(data) && data@ == said,
    }
}

/// A message that is received has the kind and the payload of what came, whichever way it is
/// read. Close messages, with or without a close frame, and raw frames are no messages.
pub proof fn received_message_is_what_came(
    message: tungstenite::Message,
    taken: Option<WebSocketMessage>,
    read: Option<WebSocketMessage>,
)
    requires
        call_ensures(WebSocketMessage::from_message, (message,), taken),
        call_ensures(WebSocketMessage::read_message, (&message,), read),
    ensures
        message is Close || message is Frame <==> taken is None,
        taken is None <==> read is None,
        message matches tungstenite::Message::Text(text) ==> {
            &&& taken matches Some(WebSocketMessage::Text(copy)) && copy@ == text@
            &&& read matches Some(WebSocketMessage::Text(copy)) && copy@ == text@
        },
        message matches tungstenite::Message::Binary(data) ==> {
            &&& taken matches Some(WebSocketMessage::Binary(copy)) && copy@ == data@
            &&& read matches Some(WebSocketMessage::Binary(copy)) && copy@ == data@
        },
        message matches tungstenite::Message::Ping(data) ==> {
            &&& taken matches Some(WebSocketMessage::Ping(copy)) && copy@ == data@
            &&& read matches Some(WebSocketMessage::Ping(copy)) && copy@ == data@
        },
        message matches tungstenite::Message::Pong(data) ==> {
            &&& taken matches Some(WebSocketMessage::Pong(copy)) && copy@ == data@
            &&& read matches Some(WebSocketMessage::Pong(copy)) && copy@ == data@
        },
{
}

/// A message that is sent keeps its kind and its payload.
pub proof fn sent_message_is_what_was_given(message: WebSocketMessage, frame: tungstenite::Message)
    requires
        call_ensures(WebSocketMessage::into_message, (message,), frame),
    ensures
        message matches WebSocketMessage::Text(text) ==> (frame matches tungstenite::Message::Text(copy)
            && copy@ == text@),
        message matches WebSocketMessage::Binary(data) ==> (frame matches tungstenite::Message::Binary(copy)
            && copy@ == data@),
        message matches WebSocketMessage::Ping(data) ==> (frame matches tungstenite::Message::Ping(copy)
            && copy@ == data@),
        message matches WebSocketMessage::Pong(data) ==> (frame matches tungstenite::Message::Pong(copy)
            && copy@ == data@),
{
}

/// Two messages are equal exactly where they have the same kind and the same payload, and a copy
/// of a message is equal to it.
pub proof fn equal_messages_agree(left: WebSocketMessage, right: WebSocketMessage, copy: WebSocketMessage)
    requires
        call_ensures(<WebSocketMessage as Clone>::clone, (&left,), copy),
    ensures
        left.eq_spec(&right) <==> match left {
            WebSocketMessage::Text(text) => right matches WebSocketMessage::Text(other) && text@ == other@,
            WebSocketMessage::Binary(data) => right matches WebSocketMessage::Binary(other) && data@
                == other@,
            WebSocketMessage::Ping(data) => right matches WebSocketMessage::Ping(other) && data@ == other@,
            WebSocketMessage::Pong(data) => right matches WebSocketMessage::Pong(other) && data@ == other@,
        },
        left.eq_spec(&copy),
{
}

/// The logs tell the kinds of messages apart, and how many bytes each brings. Close messages and
/// raw frames count for none.
pub proof fn kinds_are_told_apart(message: tungstenite::Message, told: (&'static str, usize))
    requires
        call_ensures(kind_and_len, (&message,), told),
    ensures
        message matches tungstenite::Message::Text(text) ==> told.0@ == "text"@ && told.1 == encode_utf8(
            text@,
        ).len(),
        message matches tungstenite::Message::Binary(data) ==> told.0@ == "binary"@ && told.1 == data@.len(),
        message matches tungstenite::Message::Ping(data) ==> told.0@ == "ping"@ && told.1 == data@.len(),
        message matches tungstenite::Message::Pong(data) ==> told.0@ == "pong"@ && told.1 == data@.len(),
        message is Close ==> told.0@ == "close"@ && told.1 == 0,
        message is Frame ==> told.0@ == "frame"@ && told.1 == 0,
{
}

} // verus!
