use crate::attempt::{contents, optional_text, remember_all, AttemptReport, AttemptView, ConnectionAttemptInfo};
use crate::config::{header_texts, is_rest_of_wait, rest_of_wait, WebSocketConfig};
use crate::duplicates::{DuplicateFilter, FilterView};
use crate::handler::WebSocketHandler;
use crate::handshake::{client_request, header_names, is_request_for, open_request, HandshakeError, HEADER_ROOM};
use crate::message::{frame_content, MessageView, WebSocketMessage};
use crate::reconnect::{
    CycleView, ReconnectAction, ReconnectCycle, ReconnectState, ReconnectStep, ReconnectView,
};
use std::collections::HashMap;
use std::time::Duration;
use tungstenite::http::Request;
use vstd::prelude::*;

verus! {

broadcast use vstd::std_specs::hash::group_hash_axioms;

/// What the connections tell the one who hands messages to the handler.
#[derive(Debug)]
pub enum FeederMessage {
    /// A message was received, or receiving one failed.
    Message(Result<tungstenite::Message, tungstenite::Error>),
    /// The connection was closed.
    ConnectionClosed,
    /// No connection is needed any longer.
    DropConnectionRequest,
}

impl FeederMessage {
    /// Whether the wait for the next message begins anew after this: exactly where a message was
    /// received.
    pub fn restarts_wait(&self) -> (restarts: bool)
        ensures
            restarts == (*self matches FeederMessage::Message(Ok(_))),
    {
        match self {
            FeederMessage::Message(Ok(_)) => true,
            _ => false,
        }
    }
}

/// What to do about something that happened on a connection.
#[derive(Debug)]
pub enum FeedAction {
    /// Do nothing.
    Ignore,
    /// Hand the message to the handler, and send what the handler returns.
    Deliver(WebSocketMessage),
    /// Receiving failed on a connection that was already replaced. Do nothing but report it.
    OldReceiveFailed { report: AttemptReport, error: tungstenite::Error },
    /// Receiving failed. Report it, and wake up the reconnection where one was asked for.
    ReceiveFailed { report: AttemptReport, error: tungstenite::Error, requested: bool },
    /// No message came in time. Wake up the reconnection where one was asked for.
    TimedOut { requested: bool },
    /// The server closed the connection. Report it, and wake up the reconnection where one was
    /// asked for.
    Disconnected { report: AttemptReport, requested: bool },
    /// Close the connection for good, and tell the handler of it with this value.
    Shutdown { reconnect: bool },
}

/// What is known of a websocket connection that is made anew whenever it breaks.
pub struct ConnectionView {
    pub base_url: Seq<char>,
    pub next_connection_id: bool,
    pub attempts: Map<bool, AttemptView>,
    pub filter: FilterView,
    pub reconnect: ReconnectView,
    pub cycle: CycleView,
    /// Whether the connection in use was started since the last reconnection began.
    pub replaced: bool,
    /// Whether the connection was closed for good.
    pub closed: bool,
    pub message_timeout: Duration,
}

impl ConnectionView {
    /// A connection to `url` that was not started yet, as `config` has it.
    pub open spec fn initial(url: Seq<char>, config: WebSocketConfig) -> ConnectionView {
        ConnectionView {
            base_url: url,
            next_connection_id: false,
            attempts: Map::empty(),
            filter: FilterView::empty(config.ignore_duplicate_during_reconnection),
            reconnect: ReconnectView { reconnecting: false, requested: false },
            cycle: CycleView::start(config),
            replaced: false,
            closed: false,
            message_timeout: config.message_timeout,
        }
    }

    /// The flag says that a reconnection is under way exactly while it is. Once the attempt to
    /// connect was made, there is a new connection or the next attempt was asked for. After the
    /// end there is no reconnection. No history has outgrown its limit.
    pub open spec fn well_formed(self) -> bool {
        &&& self.reconnect.reconnecting == self.cycle.step.in_progress()
        &&& self.cycle.step.past_attempt() ==> self.replaced || self.reconnect.requested
        &&& self.closed ==> self.cycle.step is AwaitRequest
        &&& forall|id: bool| #[trigger] self.attempts.contains_key(id) ==> self.attempts[id].well_formed()
    }

    /// The id of the connection that was started last.
    pub open spec fn current_id(self) -> bool {
        !self.next_connection_id
    }

    /// What is known of the attempt with this id. Where there was none, it is the url alone,
    /// without the prefix.
    pub open spec fn report(self, id: bool) -> AttemptView {
        if self.attempts.contains_key(id) {
            self.attempts[id]
        } else {
            AttemptView {
                url: self.base_url,
                local_addr: None,
                peer_addr: None,
                sent_messages: Seq::empty(),
            }
        }
    }

    /// The connection after a reconnection was asked for.
    pub open spec fn after_request(self) -> ConnectionView {
        ConnectionView { reconnect: self.reconnect.after_request(), ..self }
    }

    /// Whether a breakdown of the connection in use asks for a reconnection. While one is under
    /// way that has yet to make the new connection, that one is the answer.
    pub open spec fn breakdown_asks(self) -> bool {
        !self.reconnect.reconnecting || self.replaced
    }

    /// The connection after the one in use broke down.
    pub open spec fn after_breakdown(self) -> ConnectionView {
        ConnectionView {
            reconnect: ReconnectView {
                requested: self.reconnect.requested || self.breakdown_asks(),
                ..self.reconnect
            },
            ..self
        }
    }

    /// The connection after it was closed for good. A reconnection under way is given up.
    pub open spec fn after_closing(self) -> ConnectionView {
        ConnectionView {
            reconnect: ReconnectView { reconnecting: false, requested: false },
            cycle: CycleView { step: ReconnectStep::AwaitRequest, ..self.cycle },
            closed: true,
            ..self
        }
    }

    /// The connection after a message was received.
    pub open spec fn after_receiving(self, id: bool, message: MessageView) -> ConnectionView {
        ConnectionView {
            filter: if self.reconnect.reconnecting {
                self.filter.after(message, id)
            } else {
                FilterView::empty(self.filter.ignore_repeats)
            },
            ..self
        }
    }

    /// Whether a received message goes to the handler. Duplicates are only looked for while a
    /// reconnection is under way.
    pub open spec fn delivers(self, id: bool, message: MessageView) -> bool {
        !self.reconnect.reconnecting || self.filter.admits(message, id)
    }

    /// Whether a message on connection `id` can still be counted.
    pub open spec fn has_room(self, event: Option<(bool, FeederMessage)>) -> bool {
        match event {
            Some((id, FeederMessage::Message(Ok(message)))) => match frame_content(message) {
                Some(content) => self.reconnect.reconnecting ==> self.filter.has_room(content, id),
                None => true,
            },
            _ => true,
        }
    }

    /// The connection after `event`, or after a time without any where there is none.
    pub open spec fn after_event(self, event: Option<(bool, FeederMessage)>) -> ConnectionView {
        match event {
            None => self.after_request(),
            Some((id, FeederMessage::Message(Ok(message)))) => match frame_content(message) {
                Some(content) => self.after_receiving(id, content),
                None => self,
            },
            Some((id, FeederMessage::Message(Err(_)))) => if id == self.current_id() {
                self.after_breakdown()
            } else {
                self
            },
            Some((id, FeederMessage::ConnectionClosed)) => if id == self.current_id() {
                self.after_breakdown()
            } else {
                self
            },
            Some((_, FeederMessage::DropConnectionRequest)) => self.after_closing(),
        }
    }

    /// Whether `action` is what to do about `event`, or about a time without any.
    pub open spec fn asks_for(self, event: Option<(bool, FeederMessage)>, action: FeedAction) -> bool {
        match event {
            None => action == (FeedAction::TimedOut { requested: !self.reconnect.reconnecting }),
            Some((id, FeederMessage::Message(Ok(message)))) => match frame_content(message) {
                Some(content) => if self.delivers(id, content) {
                    action matches FeedAction::Deliver(delivered) && delivered@ == content
                } else {
                    action is Ignore
                },
                None => action is Ignore,
            },
            Some((id, FeederMessage::Message(Err(failure)))) => if id == self.current_id() {
                action matches FeedAction::ReceiveFailed { report, error, requested } && report@ == self.report(id)
                    && error == failure && requested == self.breakdown_asks()
            } else {
                action matches FeedAction::OldReceiveFailed { report, error } && report@ == self.report(id)
                    && error == failure
            },
            Some((id, FeederMessage::ConnectionClosed)) => if id == self.current_id() {
                action matches FeedAction::Disconnected { report, requested } && report@ == self.report(id)
                    && requested == self.breakdown_asks()
            } else {
                action is Ignore
            },
            Some((_, FeederMessage::DropConnectionRequest)) => action == (FeedAction::Shutdown {
                reconnect: false,
            }),
        }
    }

    /// The connection after a new one was started to `url`, over which `messages` were sent.
    pub open spec fn after_start(
        self,
        url: Seq<char>,
        local_addr: Option<Seq<char>>,
        peer_addr: Option<Seq<char>>,
        messages: Seq<MessageView>,
    ) -> ConnectionView {
        ConnectionView {
            next_connection_id: !self.next_connection_id,
            replaced: true,
            attempts: self.attempts.insert(
                self.next_connection_id,
                AttemptView {
                    url,
                    local_addr,
                    peer_addr,
                    sent_messages: remember_all(Seq::empty(), messages),
                },
            ),
            ..self
        }
    }

    /// The connection after `message` was sent over the connection with this id.
    pub open spec fn after_sending(self, id: bool, message: MessageView) -> ConnectionView {
        if self.attempts.contains_key(id) {
            ConnectionView {
                attempts: self.attempts.insert(id, self.attempts[id].after_sending(message)),
                ..self
            }
        } else {
            self
        }
    }

    /// The connection after the present step of its reconnection was done. One that was closed
    /// for good stays as it is.
    pub open spec fn after_step(self, succeeded: bool) -> ConnectionView {
        if self.closed {
            self
        } else {
            ConnectionView {
                reconnect: self.cycle.step.effect(self.reconnect, self.cycle.waits, succeeded),
                cycle: self.cycle.after(succeeded),
                replaced: match self.cycle.step {
                    ReconnectStep::CoolDown => false,
                    ReconnectStep::Connect => self.replaced || succeeded,
                    _ => self.replaced,
                },
                ..self
            }
        }
    }
}

/// The state of a websocket connection that is made anew whenever it breaks.
///
/// It tells what to do, and whoever holds the sockets does it. Connections come one after the
/// other, and their ids alternate, so that what still comes from a connection that was replaced
/// can be told from what comes from the one that replaced it.
///
/// # Reconnecting
/// A new connection is asked for when an error occurs, when no message comes in time, when the
/// server closes the connection, and when the user requests it.
/// Note, that during reconnection, it is **possible** that the handler receives multiple identical messages
/// even though the message was sent only once by the server, or receives only one message even though
/// multiple identical messages were sent by the server, because there could be a time difference in the new connection and
/// the old connection.
pub struct WebSocketConnection {
    base_url: String,
    next_connection_id: bool,
    attempts: HashMap<bool, ConnectionAttemptInfo>,
    filter: DuplicateFilter,
    reconnect_state: ReconnectState,
    cycle: ReconnectCycle,
    replaced: bool,
    closed: bool,
    message_timeout: Duration,
}

/// What is known of each of the attempts.
spec fn attempt_views(attempts: Map<bool, ConnectionAttemptInfo>) -> Map<bool, AttemptView> {
    Map::new(|id: bool| attempts.contains_key(id), |id: bool| attempts[id]@)
}

impl View for WebSocketConnection {
    type V = ConnectionView;

    closed spec fn view(&self) -> ConnectionView {
        ConnectionView {
            base_url: self.base_url@,
            next_connection_id: self.next_connection_id,
            attempts: attempt_views(self.attempts@),
            filter: self.filter@,
            reconnect: self.reconnect_state@,
            cycle: self.cycle@,
            replaced: self.replaced,
            closed: self.closed,
            message_timeout: self.message_timeout,
        }
    }
}

impl WebSocketConnection {
    /// A connection to `url` that was not started yet, as the handler configures it.
    pub fn new<H: WebSocketHandler>(url: &str, handler: &H) -> (connection: Self)
        ensures
            exists|config: WebSocketConfig|
                call_ensures(H::websocket_config, (handler,), config)
                    && connection@ == #[trigger] ConnectionView::initial(url@, config),
            connection@.well_formed(),
    {
        let config = handler.websocket_config();
        Self::with_config(url, &config)
    }

    /// A connection to `url` that was not started yet, as `config` has it.
    pub fn with_config(url: &str, config: &WebSocketConfig) -> (connection: Self)
        ensures
            connection@ == ConnectionView::initial(url@, *config),
            connection@.well_formed(),
    {
        let connection = WebSocketConnection {
            base_url: url.to_owned(),
            next_connection_id: false,
            attempts: HashMap::new(),
            filter: DuplicateFilter::new(config.ignore_duplicate_during_reconnection),
            reconnect_state: ReconnectState::new(),
            cycle: ReconnectCycle::new(config),
            replaced: false,
            closed: false,
            message_timeout: config.message_timeout,
        };
        assert(connection@.attempts =~= Map::empty());
        connection
    }

    /// The time that has to lie between two attempts to connect.
    pub fn connect_cooldown(&self) -> (cooldown: Duration)
        ensures
            cooldown == self@.cycle.connect_cooldown,
    {
        self.cycle.connect_cooldown()
    }

    /// How long to cool down when the last attempt to connect, be it the first one, began
    /// `since_attempt` ago: what is left of [connect_cooldown][Self::connect_cooldown], less the
    /// wait before connecting where there is one.
    pub fn cooldown_left(&self, since_attempt: Duration) -> (wait: Duration)
        ensures
            self@.cycle.is_cooldown_left(wait, since_attempt),
    {
        self.cycle.cooldown_left(since_attempt)
    }

    /// How long to wait on for something to happen on a connection, when the wait for a message
    /// began `waited` ago. It begins anew after what
    /// [restarts the wait][FeederMessage::restarts_wait], and after no message came in time.
    pub fn receive_timeout(&self, waited: Duration) -> (timeout: Duration)
        ensures
            is_rest_of_wait(timeout, self@.message_timeout, waited),
    {
        rest_of_wait(self.message_timeout, waited)
    }

    /// Whether the arrival of what [feed_handler][Self::feed_handler] would be told of can still
    /// be counted.
    pub fn can_feed(&self, event: &Option<(bool, FeederMessage)>) -> (room: bool)
        ensures
            room == self@.has_room(*event),
    {
        if !self.reconnect_state.is_reconnecting() {
            return true;
        }
        match event {
            Some((id, FeederMessage::Message(Ok(message)))) => match WebSocketMessage::read_message(message) {
                Some(content) => self.filter.can_register(&content, *id),
                None => true,
            },
            _ => true,
        }
    }

    /// Decides what to do about `event`, which is what a connection told and the id of that
    /// connection, or `None` where no connection told anything in time.
    pub fn feed_handler(&mut self, event: Option<(bool, FeederMessage)>) -> (action: FeedAction)
        requires
            old(self)@.has_room(event),
        ensures
            old(self)@.asks_for(event, action),
            final(self)@ == old(self)@.after_event(event),
            old(self)@.well_formed() ==> final(self)@.well_formed(),
    {
        match event {
            Some((id, FeederMessage::Message(Ok(message)))) => {
                match WebSocketMessage::from_message(message) {
                    Some(content) => {
                        if self.reconnect_state.is_reconnecting() {
                            if !self.filter.register(&content, id) {
                                return FeedAction::Ignore;
                            }
                        } else {
                            self.filter.clear();
                        }
                        FeedAction::Deliver(content)
                    },
                    None => FeedAction::Ignore,
                }
            },
            Some((id, FeederMessage::Message(Err(error)))) => {
                let report = self.report(id);
                if id != self.current_id() {
                    return FeedAction::OldReceiveFailed { report, error };
                }
                let requested = self.note_breakdown();
                FeedAction::ReceiveFailed { report, error, requested }
            },
            None => {
                let requested = self.reconnect_state.request_reconnect();
                FeedAction::TimedOut { requested }
            },
            Some((id, FeederMessage::ConnectionClosed)) => {
                if id != self.current_id() {
                    return FeedAction::Ignore;
                }
                let requested = self.note_breakdown();
                FeedAction::Disconnected { report: self.report(id), requested }
            },
            Some((_, FeederMessage::DropConnectionRequest)) => {
                self.reconnect_state.give_up();
                self.cycle.give_up();
                self.closed = true;
                FeedAction::Shutdown { reconnect: false }
            },
        }
    }

    /// Notes that the connection in use broke down, and tells whether that asks for a
    /// reconnection.
    fn note_breakdown(&mut self) -> (requested: bool)
        ensures
            requested == old(self)@.breakdown_asks(),
            final(self)@ == old(self)@.after_breakdown(),
    {
        if !self.reconnect_state.is_reconnecting() || self.replaced {
            self.reconnect_state.demand_reconnect();
            true
        } else {
            false
        }
    }

    /// The id of the connection that was started last.
    pub fn current_id(&self) -> (id: bool)
        ensures
            id == self@.current_id(),
    {
        !self.next_connection_id
    }

    /// What is known of the attempt with this id. Where there was none, it is the url alone,
    /// without the prefix.
    pub fn report(&self, id: bool) -> (report: AttemptReport)
        ensures
            report@ == self@.report(id),
    {
        match self.attempts.get(&id) {
            Some(info) => info.report(),
            None => {
                let report = AttemptReport {
                    url: self.base_url.clone(),
                    local_addr: None,
                    peer_addr: None,
                    sent_messages: Vec::new(),
                };
                assert(report@.sent_messages =~= Seq::empty());
                report
            },
        }
    }

    /// The url to connect to, as `config` has it.
    pub fn url(&self, config: &WebSocketConfig) -> (url: String)
        ensures
            url@ == config.url_prefix@ + self@.base_url,
    {
        let mut url = config.url_prefix.clone();
        url.append(self.base_url.as_str());
        url
    }

    /// Makes the request that opens a new connection, as `config` has it.
    pub fn handshake_request(&self, config: &WebSocketConfig) -> (result: Result<Request<()>, HandshakeError>)
        ensures
            ({
                let url = config.url_prefix@ + self@.base_url;
                let headers = header_texts(config.handshake_headers@);
                &&& result matches Ok(request) ==> is_request_for(request, url, headers)
                &&& result matches Err(error) ==> (error is Url <==> client_request(url) is None)
                &&& result matches Err(HandshakeError::TooManyHeaders) ==> header_names(
                    (client_request(url)->0).1,
                    headers,
                ).len() > HEADER_ROOM
            }),
    {
        let url = self.url(config);
        open_request(url.as_str(), &config.handshake_headers)
    }

    /// Notes that a new connection was started to `url` and that `messages` were sent over it
    /// already, and gives it an id.
    pub fn start_connection(
        &mut self,
        url: String,
        local_addr: Option<String>,
        peer_addr: Option<String>,
        messages: &Vec<WebSocketMessage>,
    ) -> (id: bool)
        ensures
            id == old(self)@.next_connection_id,
            id == final(self)@.current_id(),
            final(self)@ == old(self)@.after_start(
                url@,
                optional_text(local_addr),
                optional_text(peer_addr),
                contents(messages@),
            ),
            old(self)@.well_formed() ==> final(self)@.well_formed(),
    {
        let id = self.next_connection_id;
        self.next_connection_id = !id;
        self.replaced = true;
        let mut info = ConnectionAttemptInfo::new(url, local_addr, peer_addr);
        let ghost fresh = info@;
        let ghost sent = contents(messages@);
        let mut i: usize = 0;
        assert(sent.take(0) =~= Seq::empty());
        while i < messages.len()
            invariant
                i <= messages@.len(),
                sent == contents(messages@),
                fresh.sent_messages == Seq::<Seq<char>>::empty(),
                info@ == (AttemptView { sent_messages: remember_all(Seq::empty(), sent.take(i as int)), ..fresh }),
                info@.well_formed(),
            decreases messages@.len() - i,
        {
            info.record_sent(&messages[i]);
            i += 1;
            assert(sent.take(i as int).drop_last() =~= sent.take(i - 1));
        }
        assert(sent.take(messages@.len() as int) =~= sent);
        self.attempts.insert(id, info);
        assert(self@.attempts =~= old(self)@.after_start(
            url@,
            optional_text(local_addr),
            optional_text(peer_addr),
            contents(messages@),
        ).attempts);
        id
    }

    /// Notes that `message` is sent over the connection with the id `sink_id`, and makes of it
    /// what is to be sent.
    pub fn send_message(&mut self, sink_id: bool, message: WebSocketMessage) -> (frame: tungstenite::Message)
        ensures
            frame_content(frame) == Some(message@),
            final(self)@ == old(self)@.after_sending(sink_id, message@),
            old(self)@.well_formed() ==> final(self)@.well_formed(),
    {
        if let Some(mut info) = self.attempts.remove(&sink_id) {
            info.record_sent(&message);
            self.attempts.insert(sink_id, info);
        }
        assert(self@.attempts =~= old(self)@.after_sending(sink_id, message@).attempts);
        message.into_message()
    }

    /// What tells the one who hands messages to the handler that no connection is needed any
    /// longer.
    pub fn drop_request(&self) -> (event: (bool, FeederMessage))
        ensures
            event == (self@.current_id(), FeederMessage::DropConnectionRequest),
    {
        (self.current_id(), FeederMessage::DropConnectionRequest)
    }

    /// The state of this connection's reconnections, to ask whether one is under way or to request
    /// one.
    ///
    /// See [ReconnectState] for more information.
    pub fn reconnect_state(&mut self) -> (state: &mut ReconnectState)
        ensures
            state@ == old(self)@.reconnect,
            final(self)@ == (ConnectionView { reconnect: final(state)@, ..old(self)@ }),
    {
        &mut self.reconnect_state
    }

    /// Request the connection to perform a reconnect.
    ///
    /// Will return `false` if it is already in a reconnection process.
    pub fn request_reconnect(&mut self) -> (accepted: bool)
        ensures
            accepted == !old(self)@.reconnect.reconnecting,
            final(self)@ == old(self)@.after_request(),
            old(self)@.well_formed() ==> final(self)@.well_formed(),
    {
        self.reconnect_state.request_reconnect()
    }

    /// What to do next for a reconnection, when the last connection was started `since_start` ago
    /// and the last attempt to connect, be it the first one, began `since_attempt` ago.
    pub fn reconnect_action(&self, since_start: Duration, since_attempt: Duration) -> (action: ReconnectAction)
        ensures
            self@.cycle.asks_for(since_start, since_attempt, action),
    {
        self.cycle.action(since_start, since_attempt)
    }

    /// Goes on with the reconnection once what [reconnect_action][Self::reconnect_action] asked
    /// for was done, with or without success. Once the connection was closed for good, nothing
    /// goes on.
    pub fn reconnect_advance(&mut self, succeeded: bool)
        requires
            old(self)@.well_formed(),
        ensures
            final(self)@ == old(self)@.after_step(succeeded),
            final(self)@.well_formed(),
    {
        if self.closed {
            return;
        }
        match self.cycle.step() {
            ReconnectStep::CoolDown => {
                self.replaced = false;
            },
            ReconnectStep::Connect => {
                self.replaced = self.replaced || succeeded;
            },
            _ => {},
        }
        self.cycle.advance(&mut self.reconnect_state, succeeded);
    }
}

} // verus!
