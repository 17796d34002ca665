use crate::attempt::{history_holds_what_was_sent_last, remember, summary, AttemptView};
use crate::config::{is_longest, nanos};
use crate::connection::{ConnectionView, FeedAction, FeederMessage};
use crate::duplicates::{
    admitted_as_often_as_one_connection_brought_it, admitted_once_where_repeats_are_ignored, after_all,
    times_admitted, times_arrived, FilterView,
};
use crate::message::{frame_content, MessageView};
use crate::reconnect::{CycleView, ReconnectAction};
use std::time::Duration;
use vstd::prelude::*;

verus! {

/// Whether `event` tells that a connection can no longer be used: receiving failed or it was
/// closed.
pub open spec fn is_breakdown(event: FeederMessage) -> bool {
    ||| event is ConnectionClosed
    ||| event matches FeederMessage::Message(Err(_))
}

/// Once a connection was replaced, its breakdown changes nothing, and nothing is done about it
/// but, perhaps, a report.
pub proof fn breakdown_of_a_replaced_connection_is_ignored(
    connection: ConnectionView,
    url: Seq<char>,
    local_addr: Option<Seq<char>>,
    peer_addr: Option<Seq<char>>,
    messages: Seq<MessageView>,
    event: FeederMessage,
    action: FeedAction,
)
    requires
        is_breakdown(event),
        connection.after_start(url, local_addr, peer_addr, messages).asks_for(
            Some((connection.current_id(), event)),
            action,
        ),
    ensures
        ({
            let replaced = connection.after_start(url, local_addr, peer_addr, messages);
            &&& replaced.after_event(Some((connection.current_id(), event))) == replaced
            &&& action is Ignore || action is OldReceiveFailed
        }),
{
}

/// When the connection in use breaks down, another one will follow: a reconnection is asked for,
/// or the one under way has yet to make its attempt to connect.
pub proof fn breakdown_is_followed_by_an_attempt(
    connection: ConnectionView,
    event: FeederMessage,
    action: FeedAction,
)
    requires
        connection.well_formed(),
        is_breakdown(event),
        connection.asks_for(Some((connection.current_id(), event)), action),
    ensures
        ({
            let after = connection.after_event(Some((connection.current_id(), event)));
            let step = after.cycle.step;
            &&& after.reconnect.requested || step is WaitBefore || (step is Connect && !after.replaced)
            &&& !connection.reconnect.reconnecting ==> after.reconnect.requested
            &&& connection.replaced ==> after.reconnect.requested
            &&& connection.cycle.step.past_attempt() ==> after.reconnect.requested
        }),
{
}

/// The action about a breakdown of the connection in use says whether it asked for a
/// reconnection.
pub proof fn breakdown_asks_for_a_reconnection(
    connection: ConnectionView,
    event: FeederMessage,
    action: FeedAction,
)
    requires
        is_breakdown(event),
        connection.asks_for(Some((connection.current_id(), event)), action),
    ensures
        ({
            let after = connection.after_event(Some((connection.current_id(), event)));
            let requested = match action {
                FeedAction::ReceiveFailed { requested, .. } => requested,
                FeedAction::Disconnected { requested, .. } => requested,
                _ => false,
            };
            &&& requested <==> !connection.reconnect.reconnecting || connection.replaced
            &&& requested ==> after.reconnect.requested
            &&& !requested ==> after == connection
        }),
{
}

/// When nothing comes in time, a reconnection is asked for, unless one is under way. The action
/// says which.
pub proof fn timeout_asks_for_a_reconnection(connection: ConnectionView, action: FeedAction)
    requires
        connection.asks_for(None, action),
    ensures
        action == (FeedAction::TimedOut { requested: !connection.reconnect.reconnecting }),
        !connection.reconnect.reconnecting ==> connection.after_event(None).reconnect.requested,
        connection.reconnect.reconnecting ==> connection.after_event(None) == connection,
{
}

/// While a reconnection is under way, nothing that happens on the connections ends it or changes
/// its course, only a breakdown of the new connection asks for another, and a request changes
/// nothing.
pub proof fn reconnection_is_not_disturbed(connection: ConnectionView, event: Option<(bool, FeederMessage)>)
    requires
        connection.reconnect.reconnecting,
        !(event matches Some((_, FeederMessage::DropConnectionRequest))),
    ensures
        connection.after_event(event).reconnect.reconnecting,
        connection.after_event(event).cycle == connection.cycle,
        connection.after_event(event).reconnect.requested <==> {
            ||| connection.reconnect.requested
            ||| connection.replaced && (event matches Some((id, told)) && id == connection.current_id()
                && is_breakdown(told))
        },
        connection.after_request() == connection,
{
}

/// A connection that was dropped undergoes no reconnection, also where it was dropped in the
/// middle of one, and none is asked for any longer.
pub proof fn dropped_connection_undergoes_no_reconnection(connection: ConnectionView, id: bool)
    ensures
        ({
            let dropped = connection.after_event(Some((id, FeederMessage::DropConnectionRequest)));
            &&& dropped.closed
            &&& dropped.cycle.step is AwaitRequest
            &&& !dropped.reconnect.reconnecting
            &&& !dropped.reconnect.requested
        }),
{
}

/// Whatever happens to a connection after it was closed for good, it stays closed, and no
/// reconnection begins.
pub proof fn closed_connection_stays_closed(
    connection: ConnectionView,
    event: Option<(bool, FeederMessage)>,
    id: bool,
    message: MessageView,
    succeeded: bool,
    url: Seq<char>,
    local_addr: Option<Seq<char>>,
    peer_addr: Option<Seq<char>>,
    messages: Seq<MessageView>,
)
    requires
        connection.well_formed(),
        connection.closed,
    ensures
        !connection.reconnect.reconnecting,
        connection.after_step(succeeded) == connection,
        connection.after_start(url, local_addr, peer_addr, messages).closed,
        connection.after_event(event).closed,
        connection.after_request().closed,
        connection.after_sending(id, message).closed,
{
}

/// Outside a reconnection every message is delivered, also one that came before, and what was
/// seen until then is forgotten.
pub proof fn every_message_is_delivered_outside_a_reconnection(
    connection: ConnectionView,
    id: bool,
    message: tungstenite::Message,
    action: FeedAction,
)
    requires
        !connection.reconnect.reconnecting,
        frame_content(message) is Some,
        connection.asks_for(Some((id, FeederMessage::Message(Ok(message)))), action),
    ensures
        action matches FeedAction::Deliver(delivered) && Some(delivered@) == frame_content(message),
        connection.after_event(Some((id, FeederMessage::Message(Ok(message))))).filter == FilterView::empty(
            connection.filter.ignore_repeats,
        ),
{
}

/// Only a message that arrives changes what was seen. Starting a connection, sending over it, a
/// request, a step of a reconnection and everything else that a connection tells leave it as it is.
pub proof fn only_messages_change_what_was_seen(
    connection: ConnectionView,
    event: Option<(bool, FeederMessage)>,
    id: bool,
    message: MessageView,
    succeeded: bool,
    url: Seq<char>,
    local_addr: Option<Seq<char>>,
    peer_addr: Option<Seq<char>>,
    messages: Seq<MessageView>,
)
    ensures
        connection.after_start(url, local_addr, peer_addr, messages).filter == connection.filter,
        connection.after_sending(id, message).filter == connection.filter,
        connection.after_request().filter == connection.filter,
        connection.after_step(succeeded).filter == connection.filter,
        connection.after_event(event).filter == match event {
            Some((source, FeederMessage::Message(Ok(told)))) => match frame_content(told) {
                Some(content) => connection.after_receiving(source, content).filter,
                None => connection.filter,
            },
            _ => connection.filter,
        },
{
}

/// Whether `states` are those of a connection while a reconnection is under way. Between one and
/// the next, a message arrives over a connection with an id, or something happens that leaves what
/// was seen as it is.
pub open spec fn is_reconnection(
    states: Seq<ConnectionView>,
    arrivals: Seq<Option<(MessageView, bool)>>,
) -> bool {
    &&& states.len() == arrivals.len() + 1
    &&& forall|i: int| 0 <= i < states.len() ==> (#[trigger] states[i]).reconnect.reconnecting
    &&& forall|i: int| 0 <= i < arrivals.len() ==> #[trigger] is_followed(states, arrivals, i)
}

/// Whether what was seen after the state at `at` is what the arrival there, if any, makes of it.
pub open spec fn is_followed(
    states: Seq<ConnectionView>,
    arrivals: Seq<Option<(MessageView, bool)>>,
    at: int,
) -> bool {
    states[at + 1].filter == match arrivals[at] {
        Some((message, id)) => states[at].after_receiving(id, message).filter,
        None => states[at].filter,
    }
}

/// The messages that arrive, each with the id of the connection that it came over.
pub open spec fn arrived(arrivals: Seq<Option<(MessageView, bool)>>) -> Seq<(MessageView, bool)>
    decreases arrivals.len(),
{
    if arrivals.len() == 0 {
        Seq::empty()
    } else {
        let before = arrived(arrivals.drop_last());
        match arrivals.last() {
            Some(arrival) => before.push(arrival),
            None => before,
        }
    }
}

/// How often `message` is delivered as messages arrive.
pub open spec fn times_delivered(
    states: Seq<ConnectionView>,
    arrivals: Seq<Option<(MessageView, bool)>>,
    message: MessageView,
) -> nat
    decreases arrivals.len(),
{
    if arrivals.len() == 0 {
        0
    } else {
        times_delivered(states, arrivals.drop_last(), message) + match arrivals.last() {
            Some((content, id)) => if content == message && states[arrivals.len() - 1].delivers(
                id,
                content,
            ) {
                1nat
            } else {
                0nat
            },
            None => 0nat,
        }
    }
}

/// During a reconnection the filter alone decides what is delivered.
proof fn lemma_filter_decides(
    states: Seq<ConnectionView>,
    arrivals: Seq<Option<(MessageView, bool)>>,
    message: MessageView,
)
    requires
        is_reconnection(states, arrivals),
    ensures
        states.last().filter == after_all(states[0].filter, arrived(arrivals)),
        times_delivered(states, arrivals, message) == times_admitted(
            states[0].filter,
            arrived(arrivals),
            message,
        ),
    decreases arrivals.len(),
{
    if arrivals.len() > 0 {
        let earlier = states.drop_last();
        let before = arrivals.drop_last();
        assert forall|i: int| 0 <= i < before.len() implies #[trigger] is_followed(earlier, before, i) by {
            assert(is_followed(states, arrivals, i));
        }
        lemma_filter_decides(earlier, before, message);
        lemma_states_before(states, before, message);
        assert(is_followed(states, arrivals, arrivals.len() - 1));
        if arrivals.last() is Some {
            assert(arrived(arrivals).drop_last() =~= arrived(before));
        }
    }
}

/// How often a message is delivered does not depend on the last state.
proof fn lemma_states_before(
    states: Seq<ConnectionView>,
    arrivals: Seq<Option<(MessageView, bool)>>,
    message: MessageView,
)
    requires
        arrivals.len() < states.len(),
    ensures
        times_delivered(states, arrivals, message) == times_delivered(
            states.drop_last(),
            arrivals,
            message,
        ),
    decreases arrivals.len(),
{
    if arrivals.len() > 0 {
        lemma_states_before(states, arrivals.drop_last(), message);
    }
}

/// During a reconnection that began with nothing seen, a message is delivered once where repeats
/// are ignored. Where they are not, it is delivered as often as the one of the two connections
/// that brought it more often brought it. Whatever else happens in between makes no difference.
pub proof fn message_is_delivered_as_often_as_it_was_sent(
    states: Seq<ConnectionView>,
    arrivals: Seq<Option<(MessageView, bool)>>,
    message: MessageView,
)
    requires
        is_reconnection(states, arrivals),
        states[0].filter == FilterView::empty(states[0].filter.ignore_repeats),
    ensures
        ({
            let over_true = times_arrived(arrived(arrivals), message, true);
            let over_false = times_arrived(arrived(arrivals), message, false);
            times_delivered(states, arrivals, message) == if states[0].filter.ignore_repeats {
                if over_true + over_false > 0 {
                    1nat
                } else {
                    0nat
                }
            } else if over_true >= over_false {
                over_true
            } else {
                over_false
            }
        }),
{
    lemma_filter_decides(states, arrivals, message);
    if states[0].filter.ignore_repeats {
        admitted_once_where_repeats_are_ignored(arrived(arrivals), message);
    } else {
        admitted_as_often_as_one_connection_brought_it(arrived(arrivals), message);
    }
}

/// The ids of connections alternate, and starting a connection keeps what is known of the one
/// before it.
pub proof fn ids_alternate(
    connection: ConnectionView,
    url: Seq<char>,
    local_addr: Option<Seq<char>>,
    peer_addr: Option<Seq<char>>,
    messages: Seq<MessageView>,
)
    ensures
        ({
            let started = connection.after_start(url, local_addr, peer_addr, messages);
            &&& started.current_id() == !connection.current_id()
            &&& started.report(connection.current_id()) == connection.report(connection.current_id())
            &&& started.report(started.current_id()).url == url
            &&& started.report(started.current_id()).local_addr == local_addr
            &&& started.report(started.current_id()).peer_addr == peer_addr
        }),
{
}

/// A message sent over a connection shows in the report of that connection, and in no other.
pub proof fn sent_message_is_reported_for_its_connection(
    connection: ConnectionView,
    id: bool,
    message: MessageView,
)
    requires
        connection.attempts.contains_key(id),
    ensures
        ({
            let sent = connection.after_sending(id, message);
            &&& sent.report(id) == (AttemptView {
                sent_messages: remember(connection.report(id).sent_messages, summary(message)),
                ..connection.report(id)
            })
            &&& sent.report(id).sent_messages.last() == summary(message)
            &&& sent.report(!id) == connection.report(!id)
        }),
{
}

/// Dropping a connection closes it for good, whatever else is going on, and nothing else does.
/// The handler is then told that there will be no other connection.
pub proof fn dropping_closes_the_connection(
    connection: ConnectionView,
    event: Option<(bool, FeederMessage)>,
    action: FeedAction,
)
    requires
        connection.asks_for(event, action),
    ensures
        action is Shutdown <==> (event matches Some((_, FeederMessage::DropConnectionRequest))),
        action matches FeedAction::Shutdown { reconnect } ==> !reconnect,
{
}

/// The handler is told that a connection was closed for a reconnection only where a new one took
/// its place: the attempt to connect right before has succeeded, with at most a wait in between.
pub proof fn closing_for_a_reconnection_is_told(
    cycle: CycleView,
    succeeded: bool,
    since_start: Duration,
    since_attempt: Duration,
    action: ReconnectAction,
)
    requires
        cycle.after(succeeded).asks_for(since_start, since_attempt, action),
    ensures
        action is CloseOld <==> cycle.step is WaitOverlap || (cycle.step is Connect && succeeded
            && !cycle.waits),
        action matches ReconnectAction::CloseOld { reconnect } ==> reconnect,
{
}

/// A refresh is due when the time set for it has passed since the last connection was started,
/// whatever was waited for in between, and never where no time is set.
pub proof fn refresh_is_counted_from_the_start(
    connection: ConnectionView,
    since_start: Duration,
    since_attempt: Duration,
    limit: Duration,
)
    requires
        connection.cycle.step is AwaitRequest,
        connection.cycle.asks_for(since_start, since_attempt, ReconnectAction::AwaitRequest(limit)),
    ensures
        nanos(connection.cycle.refresh_after) == 0 ==> is_longest(limit),
        0 < nanos(connection.cycle.refresh_after) && nanos(since_start) <= nanos(
            connection.cycle.refresh_after,
        ) ==> nanos(since_start) + nanos(limit) == nanos(connection.cycle.refresh_after),
        0 < nanos(connection.cycle.refresh_after) <= nanos(since_start) ==> nanos(limit) == 0,
{
}

/// Whatever happens to a connection, it keeps what [ConnectionView::well_formed] says of it.
pub proof fn connection_stays_well_formed(
    connection: ConnectionView,
    event: Option<(bool, FeederMessage)>,
    id: bool,
    message: MessageView,
    succeeded: bool,
    url: Seq<char>,
    local_addr: Option<Seq<char>>,
    peer_addr: Option<Seq<char>>,
    messages: Seq<MessageView>,
)
    requires
        connection.well_formed(),
    ensures
        connection.after_start(url, local_addr, peer_addr, messages).well_formed(),
        connection.after_event(event).well_formed(),
        connection.after_request().well_formed(),
        connection.after_sending(id, message).well_formed(),
        connection.after_step(succeeded).well_formed(),
{
    history_holds_what_was_sent_last(Seq::empty(), messages);
}

} // verus!
