use crate::attempt::{contents, history_ends_with_what_was_sent, summary, AttemptReport};
use crate::config::{header_texts, nanos, WebSocketConfig};
use crate::connection::{ConnectionView, FeedAction, FeederMessage, WebSocketConnection};
use crate::handler::WebSocketHandler;
use crate::handshake::{
    client_request, is_websocket_request, lemma_few_names, lemma_request_is_told, opening_headers, HandshakeError,
};
use crate::laws::is_breakdown;
use crate::message::{frame_content, says, MessageView, WebSocketMessage};
use crate::reconnect::{ReconnectAction, ReconnectState, ReconnectStep};
use std::time::Duration;
use tungstenite::http::Request;
use vstd::prelude::*;

verus! {

/// Whether an optional string says `said`.
pub open spec fn is_said(string: Option<String>, said: Option<Seq<char>>) -> bool {
    match string {
        Some(text) => said == Some(text@),
        None => said is None,
    }
}

/// Whether `connection` is one to `url` that was not started, with the settings of `config`:
/// nothing was attempted, seen or asked for, and the first id is `false`.
pub open spec fn is_unstarted(connection: ConnectionView, url: Seq<char>, config: WebSocketConfig) -> bool {
    &&& connection.base_url == url
    &&& !connection.next_connection_id
    &&& forall|id: bool| !#[trigger] connection.attempts.contains_key(id)
    &&& forall|message: MessageView| !#[trigger] connection.filter.counts.contains_key(message)
    &&& connection.filter.ignore_repeats == config.ignore_duplicate_during_reconnection
    &&& !connection.reconnect.reconnecting
    &&& !connection.reconnect.requested
    &&& !connection.replaced
    &&& !connection.closed
    &&& connection.cycle.step is AwaitRequest
    &&& connection.cycle.connect_cooldown == config.connect_cooldown
    &&& connection.cycle.refresh_after == config.refresh_after
    &&& connection.cycle.waits == config.ignore_duplicate_during_reconnection
    &&& connection.cycle.wait == config.reconnection_wait
    &&& connection.message_timeout == config.message_timeout
}

/// A connection begins with the settings that it was given, and with nothing done.
pub proof fn connection_begins_as_configured(url: &str, config: &WebSocketConfig, connection: WebSocketConnection)
    requires
        call_ensures(WebSocketConnection::with_config, (url, config), connection),
    ensures
        is_unstarted(connection@, url@, *config),
{
}

/// A connection begins with the settings that its handler gives.
pub proof fn connection_begins_as_its_handler_has_it<H: WebSocketHandler>(
    url: &str,
    handler: &H,
    connection: WebSocketConnection,
)
    requires
        call_ensures(WebSocketConnection::new::<H>, (url, handler), connection),
    ensures
        exists|config: WebSocketConfig|
            #[trigger] call_ensures(H::websocket_config, (handler,), config) && is_unstarted(
                connection@,
                url@,
                config,
            ),
{
}

/// Starting a connection gives it the next id and notes what is known of it: the url, the
/// addresses and the last 50 messages sent over it. It neither asks for a reconnection nor ends
/// one, and changes nothing that was seen, set or known of the other connection.
pub proof fn started_connection_takes_the_next_place(
    connection: &mut WebSocketConnection,
    url: String,
    local_addr: Option<String>,
    peer_addr: Option<String>,
    messages: &Vec<WebSocketMessage>,
    id: bool,
)
    requires
        call_ensures(
            WebSocketConnection::start_connection,
            (connection, url, local_addr, peer_addr, messages),
            id,
        ),
    ensures
        ({
            let before = old(connection)@;
            let after = final(connection)@;
            let sent = after.attempts[id].sent_messages;
            let count = messages@.len();
            &&& after.reconnect == before.reconnect
            &&& after.cycle == before.cycle
            &&& after.filter == before.filter
            &&& after.closed == before.closed
            &&& after.base_url == before.base_url
            &&& after.message_timeout == before.message_timeout
            &&& after.replaced
            &&& id == before.next_connection_id
            &&& after.next_connection_id == !id
            &&& after.attempts.contains_key(id)
            &&& after.attempts.contains_key(!id) <==> before.attempts.contains_key(!id)
            &&& after.attempts[!id] == before.attempts[!id]
            &&& after.attempts[id].url == url@
            &&& is_said(local_addr, after.attempts[id].local_addr)
            &&& is_said(peer_addr, after.attempts[id].peer_addr)
            &&& sent.len() == if count <= 50 {
                count
            } else {
                50
            }
            &&& forall|i: int|
                0 <= i < sent.len() ==> #[trigger] sent[i] == summary(messages@[count - sent.len() + i]@)
        }),
{
    history_ends_with_what_was_sent(Seq::empty(), contents(messages@));
    assert(!id != id);
}

/// What is sent is what was given, and the attempt with its id remembers it last, after as much as
/// the history holds of what it remembered before. Nothing else changes, and where there was no
/// such attempt nothing changes at all.
pub proof fn sent_message_is_remembered_for_its_connection(
    connection: &mut WebSocketConnection,
    id: bool,
    message: WebSocketMessage,
    frame: tungstenite::Message,
)
    requires
        call_ensures(WebSocketConnection::send_message, (connection, id, message), frame),
    ensures
        ({
            let before = old(connection)@;
            let after = final(connection)@;
            &&& says(frame, message@)
            &&& after == (ConnectionView { attempts: after.attempts, ..before })
            &&& !before.attempts.contains_key(id) ==> after.attempts == before.attempts
            &&& after.attempts.dom() == before.attempts.dom()
            &&& after.attempts[!id] == before.attempts[!id]
            &&& before.attempts.contains_key(id) ==> {
                let old_history = before.attempts[id].sent_messages;
                let new_history = after.attempts[id].sent_messages;
                &&& after.attempts[id].url == before.attempts[id].url
                &&& after.attempts[id].local_addr == before.attempts[id].local_addr
                &&& after.attempts[id].peer_addr == before.attempts[id].peer_addr
                &&& new_history.last() == summary(message@)
                &&& old_history.len() < 50 ==> new_history.drop_last() == old_history
                &&& old_history.len() == 50 ==> new_history.drop_last() == old_history.skip(1)
            }
        }),
{
    let before = old(connection)@;
    let after = final(connection)@;
    assert(!id != id);
    assert(after.attempts.dom() =~= before.attempts.dom());
    if before.attempts.contains_key(id) {
        let old_history = before.attempts[id].sent_messages;
        let new_history = after.attempts[id].sent_messages;
        if old_history.len() < 50 {
            assert(new_history.drop_last() =~= old_history);
        } else if old_history.len() == 50 {
            assert(new_history.drop_last() =~= old_history.skip(1));
        }
    }
}

/// Whether `report` tells what `connection` knows of the attempt with this id. Where there was
/// none, that is the url without the prefix.
pub open spec fn tells_of(report: AttemptReport, connection: ConnectionView, id: bool) -> bool {
    if connection.attempts.contains_key(id) {
        let attempt = connection.attempts[id];
        &&& report.url@ == attempt.url
        &&& is_said(report.local_addr, attempt.local_addr)
        &&& is_said(report.peer_addr, attempt.peer_addr)
        &&& report.sent_messages@.len() == attempt.sent_messages.len()
        &&& forall|i: int|
            0 <= i < attempt.sent_messages.len() ==> (#[trigger] report.sent_messages@[i])@
                == attempt.sent_messages[i]
    } else {
        &&& report.url@ == connection.base_url
        &&& report.local_addr is None
        &&& report.peer_addr is None
        &&& report.sent_messages@.len() == 0
    }
}

/// A report with a view tells what the view tells.
proof fn lemma_tells_of(report: AttemptReport, connection: ConnectionView, id: bool)
    requires
        report@ == connection.report(id),
    ensures
        tells_of(report, connection, id),
{
    let sent = report@.sent_messages;
    assert(sent.len() == report.sent_messages@.len());
    assert forall|i: int| 0 <= i < sent.len() implies (#[trigger] report.sent_messages@[i])@ == sent[i] by {}
}

/// What is told of an attempt is what is known of it.
pub proof fn report_tells_what_is_known(connection: &WebSocketConnection, id: bool, report: AttemptReport)
    requires
        call_ensures(WebSocketConnection::report, (connection, id), report),
    ensures
        tells_of(report, connection@, id),
{
    lemma_tells_of(report, connection@, id);
}

/// A message that is received goes to the handler as it came, unless a reconnection is under way
/// and it was seen before: then only where repeats are not ignored and the other connection has
/// not brought it more often. Outside a reconnection what was seen is forgotten. Within one, an
/// arrival counts for its connection. Nothing else changes.
pub proof fn received_message_is_delivered_unless_it_is_a_duplicate(
    connection: &mut WebSocketConnection,
    id: bool,
    message: tungstenite::Message,
    content: MessageView,
    action: FeedAction,
)
    requires
        call_ensures(
            WebSocketConnection::feed_handler,
            (connection, Some((id, FeederMessage::Message(Ok(message))))),
            action,
        ),
        says(message, content),
    ensures
        ({
            let before = old(connection)@;
            let after = final(connection)@;
            let seen = before.filter.counts;
            let ignores = before.filter.ignore_repeats;
            let duplicate = before.reconnect.reconnecting && seen.contains_key(content) && (ignores || if id {
                seen[content] < 0
            } else {
                seen[content] > 0
            });
            &&& !duplicate ==> (action matches FeedAction::Deliver(delivered) && delivered@ == content)
            &&& duplicate ==> action is Ignore
            &&& after == (ConnectionView { filter: after.filter, ..before })
            &&& after.filter.ignore_repeats == ignores
            &&& !before.reconnect.reconnecting ==> forall|other: MessageView|
                !#[trigger] after.filter.counts.contains_key(other)
            &&& before.reconnect.reconnecting && seen.contains_key(content) && ignores ==> after.filter.counts
                == seen
            &&& before.reconnect.reconnecting && !(seen.contains_key(content) && ignores) ==> {
                let earlier = if seen.contains_key(content) {
                    seen[content]
                } else {
                    0
                };
                after.filter.counts == seen.insert(
                    content,
                    if id {
                        earlier + 1
                    } else {
                        earlier - 1
                    },
                )
            }
        }),
{
}

/// A close message, with or without a close frame, and a raw frame are ignored and change nothing.
pub proof fn close_messages_and_raw_frames_are_ignored(
    connection: &mut WebSocketConnection,
    id: bool,
    message: tungstenite::Message,
    action: FeedAction,
)
    requires
        call_ensures(
            WebSocketConnection::feed_handler,
            (connection, Some((id, FeederMessage::Message(Ok(message))))),
            action,
        ),
        message is Close || message is Frame,
    ensures
        action is Ignore,
        final(connection)@ == old(connection)@,
{
}

/// When a connection breaks down that was replaced, nothing changes, and only an error is
/// reported. When the one in use breaks down, a reconnection is asked for, unless one is under way
/// that has yet to make the new connection. Nothing else changes. The report is that of the
/// connection that broke down, and the error is the one that it told.
pub proof fn breakdown_of_the_connection_in_use_asks_for_another(
    connection: &mut WebSocketConnection,
    id: bool,
    event: FeederMessage,
    action: FeedAction,
)
    requires
        call_ensures(WebSocketConnection::feed_handler, (connection, Some((id, event))), action),
        event is ConnectionClosed || (event matches FeederMessage::Message(Err(_))),
    ensures
        ({
            let before = old(connection)@;
            let after = final(connection)@;
            let asks = !before.reconnect.reconnecting || before.replaced;
            &&& id == before.next_connection_id ==> after == before
            &&& id != before.next_connection_id ==> {
                &&& after == (ConnectionView { reconnect: after.reconnect, ..before })
                &&& after.reconnect.reconnecting == before.reconnect.reconnecting
                &&& after.reconnect.requested <==> before.reconnect.requested || asks
            }
            &&& event matches FeederMessage::Message(Err(failure)) ==> if id == before.next_connection_id {
                action matches FeedAction::OldReceiveFailed { report, error } && tells_of(report, before, id)
                    && error == failure
            } else {
                action matches FeedAction::ReceiveFailed { report, error, requested } && tells_of(
                    report,
                    before,
                    id,
                ) && error == failure && requested == asks
            }
            &&& event is ConnectionClosed ==> if id == before.next_connection_id {
                action is Ignore
            } else {
                action matches FeedAction::Disconnected { report, requested } && tells_of(report, before, id)
                    && requested == asks
            }
        }),
{
    let before = old(connection)@;
    match action {
        FeedAction::OldReceiveFailed { report, .. } => lemma_tells_of(report, before, id),
        FeedAction::ReceiveFailed { report, .. } => lemma_tells_of(report, before, id),
        FeedAction::Disconnected { report, .. } => lemma_tells_of(report, before, id),
        _ => {},
    }
}

/// When no message comes in time, a reconnection is asked for unless one is under way. Nothing
/// else changes.
pub proof fn silence_asks_for_a_reconnection(connection: &mut WebSocketConnection, action: FeedAction)
    requires
        call_ensures(WebSocketConnection::feed_handler, (connection, None), action),
    ensures
        ({
            let before = old(connection)@;
            let after = final(connection)@;
            &&& action matches FeedAction::TimedOut { requested } && requested == !before.reconnect.reconnecting
            &&& after == (ConnectionView { reconnect: after.reconnect, ..before })
            &&& after.reconnect.reconnecting == before.reconnect.reconnecting
            &&& after.reconnect.requested <==> before.reconnect.requested || !before.reconnect.reconnecting
        }),
{
}

/// When the connection is dropped, whatever its id and whatever is going on, it is closed for
/// good: no reconnection is under way or asked for any longer. What was seen, set and known stays.
pub proof fn dropped_connection_is_closed_for_good(
    connection: &mut WebSocketConnection,
    id: bool,
    action: FeedAction,
)
    requires
        call_ensures(
            WebSocketConnection::feed_handler,
            (connection, Some((id, FeederMessage::DropConnectionRequest))),
            action,
        ),
    ensures
        ({
            let before = old(connection)@;
            let after = final(connection)@;
            &&& action matches FeedAction::Shutdown { reconnect } && !reconnect
            &&& after.closed
            &&& !after.reconnect.reconnecting
            &&& !after.reconnect.requested
            &&& after.cycle.step is AwaitRequest
            &&& after.cycle.connect_cooldown == before.cycle.connect_cooldown
            &&& after.cycle.refresh_after == before.cycle.refresh_after
            &&& after.cycle.waits == before.cycle.waits
            &&& after.cycle.wait == before.cycle.wait
            &&& after == (ConnectionView {
                closed: true,
                reconnect: after.reconnect,
                cycle: after.cycle,
                ..before
            })
        }),
{
}

/// What tells that the connection is dropped is told in the name of the connection in use.
pub proof fn drop_is_told_for_the_connection_in_use(
    connection: &WebSocketConnection,
    event: (bool, FeederMessage),
    id: bool,
)
    requires
        call_ensures(WebSocketConnection::drop_request, (connection,), event),
        call_ensures(WebSocketConnection::current_id, (connection,), id),
    ensures
        id != connection@.next_connection_id,
        event.0 == id,
        event.1 is DropConnectionRequest,
{
}

/// Everything can be fed but a message whose count has come to the end of what a machine word
/// holds, while a reconnection is under way and repeats are not ignored.
pub proof fn events_can_be_fed_up_to_a_machine_word(
    connection: &WebSocketConnection,
    event: Option<(bool, FeederMessage)>,
    room: bool,
)
    requires
        call_ensures(WebSocketConnection::can_feed, (connection, &event), room),
    ensures
        !room ==> connection@.reconnect.reconnecting && !connection@.filter.ignore_repeats,
        !room ==> (event matches Some((id, FeederMessage::Message(Ok(message)))) && exists|content: MessageView|
            #[trigger] says(message, content) && connection@.filter.counts.contains_key(content) && if id {
                !(isize::MIN <= connection@.filter.counts[content] < isize::MAX)
            } else {
                !(isize::MIN < connection@.filter.counts[content] <= isize::MAX)
            }),
{
    if !room {
        match event {
            Some((id, FeederMessage::Message(Ok(message)))) => {
                assert(says(message, frame_content(message)->0));
            },
            _ => {},
        }
    }
}

/// A request is heard unless a reconnection is under way, and nothing else changes. It makes no
/// difference whether it is made to the connection or to its state.
pub proof fn request_is_heard_by_the_connection(connection: &mut WebSocketConnection, accepted: bool)
    requires
        call_ensures(WebSocketConnection::request_reconnect, (connection,), accepted),
    ensures
        ({
            let before = old(connection)@;
            let after = final(connection)@;
            &&& accepted <==> !before.reconnect.reconnecting
            &&& after == (ConnectionView { reconnect: after.reconnect, ..before })
            &&& after.reconnect.reconnecting == before.reconnect.reconnecting
            &&& after.reconnect.requested <==> before.reconnect.requested || accepted
        }),
{
}

/// The state of a connection's reconnections is the connection's own: it tells what holds of the
/// connection, and what is done to it is done to the connection, and nothing else.
pub proof fn state_is_the_connections_own(connection: &mut WebSocketConnection, state: &mut ReconnectState)
    requires
        call_ensures(WebSocketConnection::reconnect_state, (connection,), state),
    ensures
        old(state)@ == old(connection)@.reconnect,
        final(connection)@.reconnect == final(state)@,
        final(connection)@ == (ConnectionView {
            reconnect: final(connection)@.reconnect,
            ..old(connection)@
        }),
{
}

/// What a state tells is what holds of it.
pub proof fn state_tells_what_holds(state: &ReconnectState, reconnecting: bool, requested: bool)
    requires
        call_ensures(ReconnectState::is_reconnecting, (state,), reconnecting),
        call_ensures(ReconnectState::is_requested, (state,), requested),
    ensures
        reconnecting == state@.reconnecting,
        requested == state@.requested,
{
}

/// Going on with a reconnection leads from one step to the next: from a request over the cooling
/// down to the attempt to connect, then to the closing of the old connection, with waits in
/// between where the connection looks out for duplicates. An attempt that fails skips the closing
/// and asks for another. As a reconnection begins it answers every request so far, and has no new
/// connection yet. A connection that was closed for good goes nowhere. Nothing else changes.
pub proof fn reconnection_goes_on_step_by_step(connection: &mut WebSocketConnection, succeeded: bool)
    requires
        call_ensures(WebSocketConnection::reconnect_advance, (connection, succeeded), ()),
    ensures
        ({
            let before = old(connection)@;
            let after = final(connection)@;
            let waits = before.cycle.waits;
            let step = before.cycle.step;
            let next = after.cycle.step;
            &&& before.closed ==> after == before
            &&& after == (ConnectionView {
                reconnect: after.reconnect,
                cycle: after.cycle,
                replaced: after.replaced,
                ..before
            })
            &&& after.cycle.connect_cooldown == before.cycle.connect_cooldown
            &&& after.cycle.refresh_after == before.cycle.refresh_after
            &&& after.cycle.wait == before.cycle.wait
            &&& after.cycle.waits == waits
            &&& !before.closed ==> {
                &&& step is AwaitRequest ==> next is CoolDown
                &&& step is CoolDown ==> if waits {
                    next is WaitBefore
                } else {
                    next is Connect
                }
                &&& step is WaitBefore ==> next is Connect
                &&& step is Connect && succeeded ==> if waits {
                    next is WaitOverlap
                } else {
                    next is CloseOld
                }
                &&& step is Connect && !succeeded ==> if waits {
                    next is WaitAfter
                } else {
                    next is AwaitRequest
                }
                &&& step is WaitOverlap ==> next is CloseOld
                &&& step is CloseOld ==> if waits {
                    next is WaitAfter
                } else {
                    next is AwaitRequest
                }
                &&& step is WaitAfter ==> next is AwaitRequest
                &&& after.reconnect.reconnecting <==> !(next is AwaitRequest) && !(next is CoolDown)
                &&& after.reconnect.requested <==> (step is Connect && !succeeded) || (before.reconnect.requested
                    && !(step is CoolDown))
                &&& after.replaced <==> (step is Connect && succeeded) || (before.replaced && !(step is CoolDown))
            }
        }),
{
}

/// What is to be done next is what the step is for: await a request until a refresh is due, cool
/// down until the next attempt is due, wait as set, connect, or close the old connection.
pub proof fn next_action_is_due_in_time(
    connection: &WebSocketConnection,
    since_start: Duration,
    since_attempt: Duration,
    action: ReconnectAction,
)
    requires
        call_ensures(WebSocketConnection::reconnect_action, (connection, since_start, since_attempt), action),
    ensures
        ({
            let cycle = connection@.cycle;
            let due = nanos(cycle.refresh_after);
            let before = if cycle.waits {
                nanos(cycle.wait)
            } else {
                0
            };
            let passed = nanos(since_attempt) + before;
            match cycle.step {
                ReconnectStep::AwaitRequest => action matches ReconnectAction::AwaitRequest(limit) && {
                    &&& due == 0 ==> forall|other: Duration| nanos(other) <= nanos(limit)
                    &&& 0 < due && nanos(since_start) <= due ==> nanos(since_start) + nanos(limit) == due
                    &&& 0 < due < nanos(since_start) ==> nanos(limit) == 0
                },
                ReconnectStep::CoolDown => action matches ReconnectAction::CoolDown(wait) && {
                    &&& passed <= nanos(cycle.connect_cooldown) ==> passed + nanos(wait) == nanos(
                        cycle.connect_cooldown,
                    )
                    &&& passed > nanos(cycle.connect_cooldown) ==> nanos(wait) == 0
                },
                ReconnectStep::Connect => action is Connect,
                ReconnectStep::CloseOld => action matches ReconnectAction::CloseOld { reconnect } && reconnect,
                _ => action matches ReconnectAction::Sleep(wait) && wait == cycle.wait,
            }
        }),
{
}

/// The time to cool down fills up the cooldown after the last attempt, the wait before connecting
/// counted in.
pub proof fn cooldown_is_counted_from_the_last_attempt(
    connection: &WebSocketConnection,
    since_attempt: Duration,
    wait: Duration,
    cooldown: Duration,
)
    requires
        call_ensures(WebSocketConnection::cooldown_left, (connection, since_attempt), wait),
        call_ensures(WebSocketConnection::connect_cooldown, (connection,), cooldown),
    ensures
        ({
            let before = if connection@.cycle.waits {
                nanos(connection@.cycle.wait)
            } else {
                0
            };
            let passed = nanos(since_attempt) + before;
            &&& cooldown == connection@.cycle.connect_cooldown
            &&& passed <= nanos(cooldown) ==> passed + nanos(wait) == nanos(cooldown)
            &&& passed > nanos(cooldown) ==> nanos(wait) == 0
        }),
{
}

/// The wait for a message ends when the timeout has passed since it began, and never where there
/// is none. Only a received message makes it begin anew.
pub proof fn messages_are_waited_for_until_the_timeout(
    connection: &WebSocketConnection,
    waited: Duration,
    timeout: Duration,
    event: &FeederMessage,
    restarts: bool,
)
    requires
        call_ensures(WebSocketConnection::receive_timeout, (connection, waited), timeout),
        call_ensures(FeederMessage::restarts_wait, (event,), restarts),
    ensures
        ({
            let set = nanos(connection@.message_timeout);
            &&& set == 0 ==> forall|other: Duration| nanos(other) <= nanos(timeout)
            &&& 0 < set && nanos(waited) <= set ==> nanos(waited) + nanos(timeout) == set
            &&& 0 < set < nanos(waited) ==> nanos(timeout) == 0
            &&& restarts <==> (*event matches FeederMessage::Message(Ok(_)))
        }),
{
}

/// A connection is opened at its url behind the prefix of the configuration, with the headers of
/// the configuration. There is a request wherever that is the url of a websocket and there are at
/// most 6548 headers.
pub proof fn connection_is_opened_at_its_url(
    connection: &WebSocketConnection,
    config: &WebSocketConfig,
    url: String,
    result: Result<Request<()>, HandshakeError>,
    at: int,
    name: Seq<u8>,
)
    requires
        call_ensures(WebSocketConnection::url, (connection, config), url),
        call_ensures(WebSocketConnection::handshake_request, (connection, config), result),
    ensures
        url@ == config.url_prefix@ + connection@.base_url,
        client_request(url@) is None <==> (result matches Err(HandshakeError::Url(_))),
        client_request(url@) is Some && config.handshake_headers@.len() <= 6548 ==> result is Ok,
        result matches Ok(request) ==> is_websocket_request(
            request,
            url@,
            config.handshake_headers@,
            at,
            name,
        ),
{
    let headers = config.handshake_headers@;
    lemma_few_names(
        opening_headers((client_request(url@)->0).1, Seq::empty()),
        header_texts(headers),
    );
    match result {
        Ok(request) => lemma_request_is_told(request, url@, headers, at, name),
        Err(_) => {},
    }
}

/// Something that happens to a connection.
pub enum Happening {
    /// A connection was started.
    Started {
        url: Seq<char>,
        local_addr: Option<Seq<char>>,
        peer_addr: Option<Seq<char>>,
        messages: Seq<MessageView>,
    },
    /// A message was sent.
    Sent { id: bool, message: MessageView },
    /// A connection told something, or none did in time.
    Told(Option<(bool, FeederMessage)>),
    /// A reconnection was requested.
    Requested,
    /// A step of a reconnection was done.
    Advanced { succeeded: bool },
}

/// The connection after something happened to it.
pub open spec fn after_happening(connection: ConnectionView, happening: Happening) -> ConnectionView {
    match happening {
        Happening::Started { url, local_addr, peer_addr, messages } => connection.after_start(
            url,
            local_addr,
            peer_addr,
            messages,
        ),
        Happening::Sent { id, message } => connection.after_sending(id, message),
        Happening::Told(event) => connection.after_event(event),
        Happening::Requested => connection.after_request(),
        Happening::Advanced { succeeded } => connection.after_step(succeeded),
    }
}

/// Whether what happens is a reason for a reconnection: a request or a silence while none is under
/// way, a breakdown of the connection in use unless a new one is still to be made, or an attempt
/// to connect that failed.
pub open spec fn is_reason(connection: ConnectionView, happening: Happening) -> bool {
    match happening {
        Happening::Started { .. } => false,
        Happening::Sent { .. } => false,
        Happening::Told(None) => !connection.reconnect.reconnecting,
        Happening::Told(Some((id, told))) => id != connection.next_connection_id && is_breakdown(told) && (
        !connection.reconnect.reconnecting || connection.replaced),
        Happening::Requested => !connection.reconnect.reconnecting,
        Happening::Advanced { succeeded } => !connection.closed && connection.cycle.step is Connect
            && !succeeded,
    }
}

/// A reconnection is asked for exactly where there is a reason for it, or where there was one that
/// no reconnection has answered since and the connection was not dropped.
pub proof fn reconnection_is_asked_for_with_reason(connection: ConnectionView, happening: Happening)
    ensures
        after_happening(connection, happening).reconnect.requested <==> {
            ||| is_reason(connection, happening)
            ||| connection.reconnect.requested && !(happening matches Happening::Told(
                Some((_, FeederMessage::DropConnectionRequest)),
            )) && !(happening is Advanced && connection.cycle.step is CoolDown && !connection.closed)
        },
{
}

/// Whether a reconnection is under way changes only as a step is done or the connection is dropped.
pub proof fn reconnection_begins_and_ends_with_a_step(connection: ConnectionView, happening: Happening)
    requires
        !(happening is Advanced),
        !(happening matches Happening::Told(Some((_, FeederMessage::DropConnectionRequest)))),
    ensures
        after_happening(connection, happening).reconnect.reconnecting == connection.reconnect.reconnecting,
        after_happening(connection, happening).cycle == connection.cycle,
        after_happening(connection, happening).closed == connection.closed,
{
}

/// Nothing that happens changes the url or the settings of a connection.
pub proof fn settings_stay(connection: ConnectionView, happening: Happening)
    ensures
        ({
            let after = after_happening(connection, happening);
            &&& after.base_url == connection.base_url
            &&& after.message_timeout == connection.message_timeout
            &&& after.filter.ignore_repeats == connection.filter.ignore_repeats
            &&& after.cycle.connect_cooldown == connection.cycle.connect_cooldown
            &&& after.cycle.refresh_after == connection.cycle.refresh_after
            &&& after.cycle.waits == connection.cycle.waits
            &&& after.cycle.wait == connection.cycle.wait
        }),
{
}

/// Only starting a connection changes which one is in use, and only starting it and sending over
/// it change what is known of it.
pub proof fn only_starting_changes_the_connection_in_use(connection: ConnectionView, happening: Happening)
    ensures
        ({
            let after = after_happening(connection, happening);
            &&& happening is Started <==> after.next_connection_id != connection.next_connection_id
            &&& !(happening is Started) && !(happening is Sent) ==> after.attempts == connection.attempts
        }),
{
}

/// Whether `states` are those of a connection to which `happenings` happen one after the other.
pub open spec fn is_run(states: Seq<ConnectionView>, happenings: Seq<Happening>) -> bool {
    &&& states.len() == happenings.len() + 1
    &&& forall|i: int|
        0 <= i < happenings.len() ==> states[i + 1] == after_happening(states[i], #[trigger] happenings[i])
}

/// A reconnection that succeeds comes to rest. Where nothing was asked for as it began and nothing
/// happened since that is a reason for another, no reconnection is asked for as the next request
/// is awaited.
pub proof fn reconnection_without_a_reason_for_another_comes_to_rest(
    states: Seq<ConnectionView>,
    happenings: Seq<Happening>,
)
    requires
        is_run(states, happenings),
        !states[0].reconnect.requested,
        forall|i: int| 0 <= i < happenings.len() ==> !is_reason(states[i], #[trigger] happenings[i]),
    ensures
        !states.last().reconnect.requested,
    decreases happenings.len(),
{
    if happenings.len() > 0 {
        let fewer = happenings.drop_last();
        assert forall|i: int| 0 <= i < fewer.len() implies states.drop_last()[i + 1] == after_happening(
            states.drop_last()[i],
            #[trigger] fewer[i],
        ) && !is_reason(states.drop_last()[i], fewer[i]) by {
            assert(fewer[i] == happenings[i]);
        }
        reconnection_without_a_reason_for_another_comes_to_rest(states.drop_last(), fewer);
        let last = happenings.len() - 1;
        assert(!is_reason(states[last], happenings[last]));
        reconnection_is_asked_for_with_reason(states[last], happenings[last]);
    }
}

/// What was a reason for a reconnection is one until a reconnection begins: where nothing begins
/// one and the connection is not dropped, what was asked for is still asked for.
pub proof fn reason_stands_until_it_is_answered(states: Seq<ConnectionView>, happenings: Seq<Happening>)
    requires
        is_run(states, happenings),
        states[0].reconnect.requested,
        forall|i: int|
            0 <= i < happenings.len() ==> !((#[trigger] happenings[i]) matches Happening::Told(
                Some((_, FeederMessage::DropConnectionRequest)),
            )) && !(happenings[i] is Advanced && states[i].cycle.step is CoolDown),
    ensures
        states.last().reconnect.requested,
    decreases happenings.len(),
{
    if happenings.len() > 0 {
        let fewer = happenings.drop_last();
        assert forall|i: int| 0 <= i < fewer.len() implies states.drop_last()[i + 1] == after_happening(
            states.drop_last()[i],
            #[trigger] fewer[i],
        ) && !(fewer[i] matches Happening::Told(Some((_, FeederMessage::DropConnectionRequest)))) && !(
        fewer[i] is Advanced && states.drop_last()[i].cycle.step is CoolDown) by {
            assert(fewer[i] == happenings[i]);
        }
        reason_stands_until_it_is_answered(states.drop_last(), fewer);
        let last = happenings.len() - 1;
        assert(!(happenings[last] is Advanced && states[last].cycle.step is CoolDown));
        reconnection_is_asked_for_with_reason(states[last], happenings[last]);
    }
}

/// A reconnection from a request to its end puts the new connection in the place of the old one
/// and rests: none is under way or asked for, the ids have alternated, what is known of the old
/// connection stays, and the messages seen and the settings are as they were.
pub proof fn successful_reconnection_replaces_the_connection(
    connection: ConnectionView,
    url: Seq<char>,
    local_addr: Option<Seq<char>>,
    peer_addr: Option<Seq<char>>,
    messages: Seq<MessageView>,
)
    requires
        connection.well_formed(),
        connection.cycle.step is AwaitRequest,
        !connection.closed,
    ensures
        ({
            let begun = connection.after_request().after_step(true).after_step(true);
            let connecting = if connection.cycle.waits {
                begun.after_step(true)
            } else {
                begun
            };
            let connected = connecting.after_start(url, local_addr, peer_addr, messages).after_step(true);
            let closing = if connection.cycle.waits {
                connected.after_step(true)
            } else {
                connected
            };
            let end = if connection.cycle.waits {
                closing.after_step(true).after_step(true)
            } else {
                closing.after_step(true)
            };
            &&& begun.reconnect.reconnecting && !begun.reconnect.requested
            &&& connecting.cycle.step is Connect && !connecting.replaced
            &&& closing.cycle.step is CloseOld && closing.reconnect.reconnecting
            &&& end.cycle == connection.cycle
            &&& !end.reconnect.reconnecting
            &&& !end.reconnect.requested
            &&& !end.closed
            &&& end.replaced
            &&& end.next_connection_id != connection.next_connection_id
            &&& end.attempts[connection.next_connection_id].url == url
            &&& end.attempts[!connection.next_connection_id] == connection.attempts[!connection.next_connection_id]
            &&& end.filter == connection.filter
            &&& end.base_url == connection.base_url
            &&& end.message_timeout == connection.message_timeout
        }),
{
    assert(!connection.next_connection_id != connection.next_connection_id);
}

/// A reconnection whose attempt to connect fails leaves the connection in use and what is known of
/// it as they are, and ends with another one asked for.
pub proof fn failed_reconnection_is_repeated(connection: ConnectionView)
    requires
        connection.well_formed(),
        connection.cycle.step is AwaitRequest,
        !connection.closed,
    ensures
        ({
            let begun = connection.after_request().after_step(true).after_step(true);
            let failed = if connection.cycle.waits {
                begun.after_step(true).after_step(false)
            } else {
                begun.after_step(false)
            };
            let end = if connection.cycle.waits {
                failed.after_step(true)
            } else {
                failed
            };
            &&& end.cycle == connection.cycle
            &&& !end.reconnect.reconnecting
            &&& end.reconnect.requested
            &&& end.next_connection_id == connection.next_connection_id
            &&& end.attempts == connection.attempts
            &&& end.filter == connection.filter
        }),
{
}

} // verus!
