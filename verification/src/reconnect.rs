use crate::config::{is_rest_of_wait, nanos, rest_of_wait, time_left, WebSocketConfig};
use std::time::Duration;
use vstd::prelude::*;

verus! {

/// Whether a reconnection is under way and whether one was asked for.
pub struct ReconnectView {
    pub reconnecting: bool,
    pub requested: bool,
}

impl ReconnectView {
    /// The state after a reconnection was asked for. While one is under way, nothing changes.
    pub open spec fn after_request(self) -> ReconnectView {
        ReconnectView { requested: self.requested || !self.reconnecting, ..self }
    }
}

/// Whether a connection undergoes a reconnection, and whether one was asked for.
///
/// It belongs to its connection and cannot be copied, so a request to it is one to the connection.
#[derive(Debug)]
pub struct ReconnectState {
    reconnecting: bool,
    requested: bool,
}

impl View for ReconnectState {
    type V = ReconnectView;

    closed spec fn view(&self) -> ReconnectView {
        ReconnectView { reconnecting: self.reconnecting, requested: self.requested }
    }
}

impl ReconnectState {
    /// The state of a connection that neither undergoes a reconnection nor was asked for one.
    pub(crate) fn new() -> (state: Self)
        ensures
            state@ == (ReconnectView { reconnecting: false, requested: false }),
    {
        ReconnectState { reconnecting: false, requested: false }
    }

    /// Returns `true` iff the connection is undergoing a reconnection process.
    pub fn is_reconnecting(&self) -> (reconnecting: bool)
        ensures
            reconnecting == self@.reconnecting,
    {
        self.reconnecting
    }

    /// Returns `true` iff a reconnection was asked for and has not begun.
    pub fn is_requested(&self) -> (requested: bool)
        ensures
            requested == self@.requested,
    {
        self.requested
    }

    /// Request the connection to perform a reconnect.
    ///
    /// Will return `false` if it is already in a reconnection process.
    pub fn request_reconnect(&mut self) -> (accepted: bool)
        ensures
            accepted == !old(self)@.reconnecting,
            final(self)@ == old(self)@.after_request(),
    {
        if self.is_reconnecting() {
            false
        } else {
            self.requested = true;
            true
        }
    }

    /// Asks for a reconnection, also while one is under way.
    pub(crate) fn demand_reconnect(&mut self)
        ensures
            final(self)@ == (ReconnectView { requested: true, ..old(self)@ }),
    {
        self.requested = true;
    }

    /// Gives up a reconnection, and whatever was asked for.
    pub(crate) fn give_up(&mut self)
        ensures
            final(self)@ == (ReconnectView { reconnecting: false, requested: false }),
    {
        self.reconnecting = false;
        self.requested = false;
    }
}

/// Where in the course of a reconnection a connection is.
#[derive(Debug, Clone, Copy)]
pub enum ReconnectStep {
    /// Nothing happens until a reconnection is asked for or the connection is due for a refresh.
    AwaitRequest,
    /// The time between two attempts to connect has to pass, but for what is waited later.
    CoolDown,
    /// The old connection goes on for a while before there is a new one.
    WaitBefore,
    /// A new connection is made.
    Connect,
    /// The old connection and the new one go on side by side for a while.
    WaitOverlap,
    /// The old connection is closed.
    CloseOld,
    /// The reconnection goes on for a while after the old connection was closed, or after no new
    /// one could be made.
    WaitAfter,
}

/// What to do next for a reconnection.
#[derive(Debug, Clone, Copy)]
pub enum ReconnectAction {
    /// Wait until a reconnection is asked for, but no longer than this.
    AwaitRequest(Duration),
    /// Wait for this long, so that the time between two attempts to connect has passed when the
    /// next one begins.
    CoolDown(Duration),
    /// Wait for this long.
    Sleep(Duration),
    /// Start a new connection and send over it from then on.
    Connect,
    /// Close the connection that was replaced, and tell the handler of it with this value.
    CloseOld { reconnect: bool },
}

impl ReconnectStep {
    /// The step after this one. `waits` tells whether the connection waits between the steps, and
    /// `succeeded` whether what the step does has succeeded, which matters where it connects.
    pub open spec fn next(self, waits: bool, succeeded: bool) -> ReconnectStep {
        match self {
            ReconnectStep::AwaitRequest => ReconnectStep::CoolDown,
            ReconnectStep::CoolDown => if waits {
                ReconnectStep::WaitBefore
            } else {
                ReconnectStep::Connect
            },
            ReconnectStep::WaitBefore => ReconnectStep::Connect,
            ReconnectStep::Connect => if succeeded && waits {
                ReconnectStep::WaitOverlap
            } else if succeeded {
                ReconnectStep::CloseOld
            } else if waits {
                ReconnectStep::WaitAfter
            } else {
                ReconnectStep::AwaitRequest
            },
            ReconnectStep::WaitOverlap => ReconnectStep::CloseOld,
            ReconnectStep::CloseOld => if waits {
                ReconnectStep::WaitAfter
            } else {
                ReconnectStep::AwaitRequest
            },
            ReconnectStep::WaitAfter => ReconnectStep::AwaitRequest,
        }
    }

    /// Whether the attempt to connect of the reconnection under way lies behind this step.
    pub open spec fn past_attempt(self) -> bool {
        self is WaitOverlap || self is CloseOld || self is WaitAfter
    }

    /// Whether a reconnection is under way at this step.
    pub open spec fn in_progress(self) -> bool {
        !(self is AwaitRequest) && !(self is CoolDown)
    }

    /// The state after this step was done. As a reconnection begins, it answers every request so
    /// far. One that fails asks for the next.
    pub open spec fn effect(self, state: ReconnectView, waits: bool, succeeded: bool) -> ReconnectView {
        ReconnectView {
            reconnecting: self.next(waits, succeeded).in_progress(),
            requested: match self {
                ReconnectStep::CoolDown => false,
                ReconnectStep::Connect => state.requested || !succeeded,
                _ => state.requested,
            },
        }
    }

    /// How many steps a reconnection can still take at most.
    pub open spec fn steps_left(self) -> nat {
        match self {
            ReconnectStep::AwaitRequest => 0,
            ReconnectStep::CoolDown => 6,
            ReconnectStep::WaitBefore => 5,
            ReconnectStep::Connect => 4,
            ReconnectStep::WaitOverlap => 3,
            ReconnectStep::CloseOld => 2,
            ReconnectStep::WaitAfter => 1,
        }
    }
}

/// The course of a connection's reconnections, one after the other.
#[verifier::ext_equal]
pub struct CycleView {
    pub step: ReconnectStep,
    pub connect_cooldown: Duration,
    pub refresh_after: Duration,
    pub waits: bool,
    pub wait: Duration,
}

impl CycleView {
    /// A course that has just begun, as `config` has it.
    pub open spec fn start(config: WebSocketConfig) -> CycleView {
        CycleView {
            step: ReconnectStep::AwaitRequest,
            connect_cooldown: config.connect_cooldown,
            refresh_after: config.refresh_after,
            waits: config.ignore_duplicate_during_reconnection,
            wait: config.reconnection_wait,
        }
    }

    /// The course after the present step was done.
    pub open spec fn after(self, succeeded: bool) -> CycleView {
        CycleView { step: self.step.next(self.waits, succeeded), ..self }
    }

    /// How long a reconnection waits before it connects.
    pub open spec fn wait_before(self) -> nat {
        if self.waits {
            nanos(self.wait)
        } else {
            0
        }
    }

    /// Whether `wait` is how long to cool down when the last attempt to connect began
    /// `since_attempt` ago: what is left of the time that has to lie between two attempts, less
    /// the wait that comes before the next one anyway.
    pub open spec fn is_cooldown_left(self, wait: Duration, since_attempt: Duration) -> bool {
        nanos(wait) == time_left(
            nanos(self.connect_cooldown),
            nanos(since_attempt) + self.wait_before(),
        )
    }

    /// Whether `action` is what the present step does, when the last connection was started
    /// `since_start` ago and the last attempt to connect began `since_attempt` ago.
    pub open spec fn asks_for(
        self,
        since_start: Duration,
        since_attempt: Duration,
        action: ReconnectAction,
    ) -> bool {
        match self.step {
            ReconnectStep::AwaitRequest => action matches ReconnectAction::AwaitRequest(limit)
                && is_rest_of_wait(limit, self.refresh_after, since_start),
            ReconnectStep::CoolDown => action matches ReconnectAction::CoolDown(wait)
                && self.is_cooldown_left(wait, since_attempt),
            ReconnectStep::WaitBefore => action == ReconnectAction::Sleep(self.wait),
            ReconnectStep::Connect => action is Connect,
            ReconnectStep::WaitOverlap => action == ReconnectAction::Sleep(self.wait),
            ReconnectStep::CloseOld => action == (ReconnectAction::CloseOld { reconnect: true }),
            ReconnectStep::WaitAfter => action == ReconnectAction::Sleep(self.wait),
        }
    }
}

/// Leads a connection through its reconnections.
#[derive(Debug)]
pub(crate) struct ReconnectCycle {
    step: ReconnectStep,
    connect_cooldown: Duration,
    refresh_after: Duration,
    waits: bool,
    wait: Duration,
}

impl View for ReconnectCycle {
    type V = CycleView;

    closed spec fn view(&self) -> CycleView {
        CycleView {
            step: self.step,
            connect_cooldown: self.connect_cooldown,
            refresh_after: self.refresh_after,
            waits: self.waits,
            wait: self.wait,
        }
    }
}

impl ReconnectCycle {
    /// A course that has just begun, as `config` has it.
    pub(crate) fn new(config: &WebSocketConfig) -> (cycle: Self)
        ensures
            cycle@ == CycleView::start(*config),
    {
        ReconnectCycle {
            step: ReconnectStep::AwaitRequest,
            connect_cooldown: config.connect_cooldown,
            refresh_after: config.refresh_after,
            waits: config.ignore_duplicate_during_reconnection,
            wait: config.reconnection_wait,
        }
    }

    /// The time that has to lie between two attempts to connect.
    pub(crate) fn connect_cooldown(&self) -> (cooldown: Duration)
        ensures
            cooldown == self@.connect_cooldown,
    {
        self.connect_cooldown
    }

    /// How long to cool down when the last attempt to connect began `since_attempt` ago.
    pub(crate) fn cooldown_left(&self, since_attempt: Duration) -> (wait: Duration)
        ensures
            self@.is_cooldown_left(wait, since_attempt),
    {
        let left = self.connect_cooldown.saturating_sub(since_attempt);
        if self.waits {
            left.saturating_sub(self.wait)
        } else {
            left
        }
    }

    /// What to do at the present step, when the last connection was started `since_start` ago and
    /// the last attempt to connect began `since_attempt` ago.
    pub(crate) fn action(&self, since_start: Duration, since_attempt: Duration) -> (action: ReconnectAction)
        ensures
            self@.asks_for(since_start, since_attempt, action),
    {
        match self.step {
            ReconnectStep::AwaitRequest => ReconnectAction::AwaitRequest(
                rest_of_wait(self.refresh_after, since_start),
            ),
            ReconnectStep::CoolDown => ReconnectAction::CoolDown(self.cooldown_left(since_attempt)),
            ReconnectStep::WaitBefore => ReconnectAction::Sleep(self.wait),
            ReconnectStep::Connect => ReconnectAction::Connect,
            ReconnectStep::WaitOverlap => ReconnectAction::Sleep(self.wait),
            ReconnectStep::CloseOld => ReconnectAction::CloseOld { reconnect: true },
            ReconnectStep::WaitAfter => ReconnectAction::Sleep(self.wait),
        }
    }

    /// The present step.
    pub(crate) fn step(&self) -> (step: ReconnectStep)
        ensures
            step == self@.step,
    {
        self.step
    }

    /// Goes back to where the next request is awaited.
    pub(crate) fn give_up(&mut self)
        ensures
            final(self)@ == (CycleView { step: ReconnectStep::AwaitRequest, ..old(self)@ }),
    {
        self.step = ReconnectStep::AwaitRequest;
    }

    /// Goes on to the next step, once the present one was done.
    ///
    /// `succeeded` tells whether it has succeeded. That a new connection could not be made starts
    /// another attempt; any other failure changes nothing.
    pub(crate) fn advance(&mut self, state: &mut ReconnectState, succeeded: bool)
        requires
            old(state)@.reconnecting == old(self)@.step.in_progress(),
        ensures
            final(self)@ == old(self)@.after(succeeded),
            final(state)@ == old(self)@.step.effect(old(state)@, old(self)@.waits, succeeded),
    {
        let waits = self.waits;
        match self.step {
            ReconnectStep::AwaitRequest => {
                self.step = ReconnectStep::CoolDown;
            },
            ReconnectStep::CoolDown => {
                state.reconnecting = true;
                state.requested = false;
                self.step = if waits { ReconnectStep::WaitBefore } else { ReconnectStep::Connect };
            },
            ReconnectStep::WaitBefore => {
                self.step = ReconnectStep::Connect;
            },
            ReconnectStep::Connect => {
                if succeeded {
                    self.step = if waits { ReconnectStep::WaitOverlap } else { ReconnectStep::CloseOld };
                } else {
                    state.requested = true;
                    self.finish(state);
                }
            },
            ReconnectStep::WaitOverlap => {
                self.step = ReconnectStep::CloseOld;
            },
            ReconnectStep::CloseOld => {
                self.finish(state);
            },
            ReconnectStep::WaitAfter => {
                state.reconnecting = false;
                self.step = ReconnectStep::AwaitRequest;
            },
        }
    }

    /// Ends a reconnection, after a last wait where there is one.
    fn finish(&mut self, state: &mut ReconnectState)
        ensures
            final(self)@ == (CycleView {
                step: if old(self)@.waits {
                    ReconnectStep::WaitAfter
                } else {
                    ReconnectStep::AwaitRequest
                },
                ..old(self)@
            }),
            final(state)@ == (ReconnectView {
                reconnecting: old(self)@.waits && old(state)@.reconnecting,
                ..old(state)@
            }),
    {
        if self.waits {
            self.step = ReconnectStep::WaitAfter;
        } else {
            state.reconnecting = false;
            self.step = ReconnectStep::AwaitRequest;
        }
    }
}

/// Whether the step at `at` comes after the one before it.
pub open spec fn comes_after(steps: Seq<ReconnectStep>, waits: bool, at: int) -> bool {
    exists|succeeded: bool| steps[at] == #[trigger] steps[at - 1].next(waits, succeeded)
}

/// Whether `steps` are steps that a course takes one after the other. `waits` tells whether it
/// waits between them.
pub open spec fn is_course(steps: Seq<ReconnectStep>, waits: bool) -> bool {
    forall|at: int| 0 < at < steps.len() ==> #[trigger] comes_after(steps, waits, at)
}

/// Every reconnection comes to an end: with each step fewer are left, until the next request is
/// awaited.
pub proof fn reconnection_comes_to_an_end(step: ReconnectStep, waits: bool, succeeded: bool)
    requires
        !(step is AwaitRequest),
    ensures
        step.next(waits, succeeded).steps_left() < step.steps_left(),
        step.next(waits, succeeded).steps_left() == 0 <==> step.next(waits, succeeded) is AwaitRequest,
{
}

/// A request leads to an attempt to connect: once it is no longer awaited and the time to cool
/// down has passed, a connection is made, with at most a wait before.
pub proof fn request_leads_to_an_attempt(waits: bool, succeeded: Seq<bool>)
    requires
        succeeded.len() == 3,
    ensures
        ({
            let first = ReconnectStep::AwaitRequest.next(waits, succeeded[0]);
            let second = first.next(waits, succeeded[1]);
            &&& first is CoolDown
            &&& waits ==> second is WaitBefore && second.next(waits, succeeded[2]) is Connect
            &&& !waits ==> second is Connect
        }),
{
}

/// Between two attempts to connect there is a time to cool down, and a request is awaited.
pub proof fn attempts_are_kept_apart(steps: Seq<ReconnectStep>, waits: bool, first: int, second: int)
    requires
        is_course(steps, waits),
        0 <= first < second < steps.len(),
        steps[first] is Connect,
        steps[second] is Connect,
    ensures
        exists|i: int| first < i < second && steps[i] is CoolDown,
        exists|i: int| first < i < second && steps[i] is AwaitRequest,
{
    if forall|i: int| first < i < second ==> !(#[trigger] steps[i] is AwaitRequest) {
        lemma_steps_left_sink(steps, waits, first, second);
    }
    let wake = choose|i: int| first < i < second && steps[i] is AwaitRequest;
    assert(comes_after(steps, waits, wake + 1));
    assert(steps[wake + 1] is CoolDown);
}

/// As long as no request is awaited, every step leaves fewer.
proof fn lemma_steps_left_sink(steps: Seq<ReconnectStep>, waits: bool, first: int, last: int)
    requires
        is_course(steps, waits),
        0 <= first < last < steps.len(),
        forall|i: int| first <= i < last ==> !(steps[i] is AwaitRequest),
    ensures
        steps[last].steps_left() < steps[first].steps_left(),
    decreases last - first,
{
    if first + 1 < last {
        lemma_steps_left_sink(steps, waits, first, last - 1);
    }
    assert(comes_after(steps, waits, last));
    assert(!(steps[last - 1] is AwaitRequest));
    reconnection_comes_to_an_end(steps[last - 1], waits, true);
    reconnection_comes_to_an_end(steps[last - 1], waits, false);
}

/// The old connection is closed only once there is a new one: the attempt to connect right before
/// has succeeded, with at most a wait in between.
pub proof fn old_connection_is_closed_after_the_new_one_is_there(
    step: ReconnectStep,
    waits: bool,
    succeeded: bool,
)
    ensures
        step.next(waits, succeeded) is CloseOld <==> step is WaitOverlap || (step is Connect && succeeded
            && !waits),
        step.next(waits, succeeded) is WaitOverlap <==> step is Connect && waits && succeeded,
{
}

/// Only a connection that looks out for duplicates waits between the steps of a reconnection.
pub proof fn waits_only_to_find_duplicates(step: ReconnectStep, succeeded: bool)
    ensures
        !(step.next(false, succeeded) is WaitBefore),
        !(step.next(false, succeeded) is WaitOverlap),
        !(step.next(false, succeeded) is WaitAfter),
{
}

/// A new connection that could not be made is tried again: when the next request is awaited, one
/// is there already.
pub proof fn failed_attempt_is_repeated(state: ReconnectView, waits: bool, last_wait: bool)
    ensures
        ({
            let failed = ReconnectStep::Connect.next(waits, false);
            let after_failure = ReconnectStep::Connect.effect(state, waits, false);
            let (end, after_end) = if waits {
                (failed.next(waits, last_wait), failed.effect(after_failure, waits, last_wait))
            } else {
                (failed, after_failure)
            };
            &&& end is AwaitRequest
            &&& after_end.requested
            &&& !after_end.reconnecting
        }),
{
}

/// A reconnection answers every request made before it began, and refuses those made while it is
/// under way.
pub proof fn reconnection_answers_the_requests_before_it(state: ReconnectView, waits: bool, succeeded: bool)
    ensures
        ({
            let begun = ReconnectStep::CoolDown.effect(state.after_request(), waits, succeeded);
            &&& begun.reconnecting
            &&& !begun.requested
            &&& begun.after_request() == begun
        }),
{
}

/// What was asked for stays asked for until the next reconnection begins.
pub proof fn request_stands_until_a_reconnection_begins(
    step: ReconnectStep,
    state: ReconnectView,
    waits: bool,
    succeeded: bool,
)
    requires
        state.requested,
        !(step is CoolDown),
    ensures
        step.effect(state, waits, succeeded).requested,
{
}

/// A step, what is done at it, and the time at which it begins, in nanoseconds.
pub struct TimedStep {
    pub step: ReconnectStep,
    pub action: ReconnectAction,
    pub at: int,
}

impl ReconnectAction {
    /// How long an action takes at least, in nanoseconds.
    pub open spec fn least_time(self) -> nat {
        match self {
            ReconnectAction::CoolDown(wait) => nanos(wait),
            ReconnectAction::Sleep(wait) => nanos(wait),
            _ => 0,
        }
    }
}

/// When the last attempt to connect before the step at `index` began. The one that made the first
/// connection, before the course, began at `first`.
pub open spec fn last_attempt(first: int, course: Seq<TimedStep>, index: int) -> int
    decreases index,
{
    if index <= 0 {
        first
    } else if course[index - 1].step is Connect {
        course[index - 1].at
    } else {
        last_attempt(first, course, index - 1)
    }
}

/// Whether the step at `index` begins once the one before it is done. What that one does is what
/// the course asks for, when no more time is counted since the last attempt to connect than has
/// passed. How much is counted since the last connection was started does not matter.
pub open spec fn begins_in_time(
    cycle: CycleView,
    first: int,
    course: Seq<TimedStep>,
    index: int,
) -> bool {
    let before = course[index - 1];
    &&& before.at + before.action.least_time() <= course[index].at
    &&& exists|since_start: Duration, since_attempt: Duration|
        nanos(since_attempt) <= before.at - last_attempt(first, course, index - 1) && (CycleView {
            step: before.step,
            ..cycle
        }).asks_for(since_start, since_attempt, before.action)
}

/// Whether `course` is one of a connection with the settings of `cycle` whose first attempt to
/// connect began at `first`: its steps come one after the other, and each waits as it has to.
pub open spec fn is_timed_course(cycle: CycleView, first: int, course: Seq<TimedStep>) -> bool {
    &&& course.len() > 0 ==> course[0].step is AwaitRequest && first <= course[0].at
    &&& is_course(Seq::new(course.len(), |i: int| course[i].step), cycle.waits)
    &&& forall|index: int|
        0 < index < course.len() ==> #[trigger] begins_in_time(cycle, first, course, index)
}

/// The last attempt lies in the past, and no earlier than any attempt before it.
proof fn lemma_last_attempt(
    cycle: CycleView,
    first: int,
    course: Seq<TimedStep>,
    index: int,
    earlier: int,
)
    requires
        is_timed_course(cycle, first, course),
        0 <= earlier <= index < course.len(),
    ensures
        first <= last_attempt(first, course, index) <= course[index].at,
        course[earlier].at <= course[index].at,
        earlier < index && course[earlier].step is Connect ==> course[earlier].at <= last_attempt(
            first,
            course,
            index,
        ),
    decreases index,
{
    if index > 0 {
        assert(begins_in_time(cycle, first, course, index));
        if earlier < index {
            lemma_last_attempt(cycle, first, course, index - 1, earlier);
        } else {
            lemma_last_attempt(cycle, first, course, index - 1, index - 1);
        }
    }
}

/// An attempt to connect lies at least the cooldown after every attempt before it, the first one
/// included, however often a reconnection was asked for and whatever became of the attempts.
pub proof fn attempts_lie_a_cooldown_apart(
    cycle: CycleView,
    first: int,
    course: Seq<TimedStep>,
    earlier: int,
    later: int,
)
    requires
        is_timed_course(cycle, first, course),
        0 <= earlier < later < course.len(),
        course[later].step is Connect,
    ensures
        course[later].at - first >= nanos(cycle.connect_cooldown),
        course[earlier].step is Connect ==> course[later].at - course[earlier].at >= nanos(
            cycle.connect_cooldown,
        ),
{
    let steps = Seq::new(course.len(), |i: int| course[i].step);
    lemma_last_attempt(cycle, first, course, later, earlier);
    assert(comes_after(steps, cycle.waits, later));
    assert(steps[later] == course[later].step && steps[later - 1] == course[later - 1].step);
    assert(begins_in_time(cycle, first, course, later));
    let cooling = if cycle.waits {
        later - 2
    } else {
        later - 1
    };
    lemma_cooling_down_is_enough(cycle);
    if course[later - 1].step is WaitBefore {
        assert(comes_after(steps, cycle.waits, later - 1));
        assert(steps[later - 2] == course[later - 2].step);
        assert(begins_in_time(cycle, first, course, later - 1));
    }
    assert(course[cooling].step is CoolDown);
    lemma_last_attempt(cycle, first, course, cooling, cooling);
    reveal_with_fuel(last_attempt, 3);
    assert(last_attempt(first, course, later) == last_attempt(first, course, cooling));
}

/// The wait before connecting counts toward the time between two attempts: where that has not
/// passed yet, what has passed, the cooling down and the wait make it up, and no more.
pub proof fn wait_counts_toward_the_cooldown(cycle: CycleView, cooling: Duration, since_attempt: Duration)
    requires
        cycle.is_cooldown_left(cooling, since_attempt),
    ensures
        ({
            let to_come = nanos(since_attempt) + nanos(cooling) + cycle.wait_before();
            let at_once = nanos(since_attempt) + cycle.wait_before();
            to_come == if at_once <= nanos(cycle.connect_cooldown) {
                nanos(cycle.connect_cooldown)
            } else {
                at_once
            }
        }),
{
}

/// When it is time to cool down, what has passed since the last attempt to connect, the cooling
/// down and the wait before connecting make up the cooldown, or more where more has passed
/// already. When the last connection was started makes no difference.
pub proof fn cooling_down_fills_up_the_cooldown(
    cycle: CycleView,
    since_start: Duration,
    since_attempt: Duration,
    action: ReconnectAction,
)
    requires
        cycle.step is CoolDown,
        cycle.asks_for(since_start, since_attempt, action),
    ensures
        ({
            let before = if cycle.waits {
                nanos(cycle.wait)
            } else {
                0
            };
            let passed = nanos(since_attempt) + before;
            action matches ReconnectAction::CoolDown(wait) && nanos(wait) + passed == if passed
                <= nanos(cycle.connect_cooldown) {
                nanos(cycle.connect_cooldown)
            } else {
                passed
            }
        }),
{
}

/// The same at any time since the last connection was started and the last attempt began.
proof fn lemma_cooling_down_is_enough(cycle: CycleView)
    ensures
        forall|since_start: Duration, since_attempt: Duration, action: ReconnectAction|
            #[trigger] (CycleView { step: ReconnectStep::CoolDown, ..cycle }).asks_for(
                since_start,
                since_attempt,
                action,
            ) ==> action.least_time() + nanos(since_attempt) + cycle.wait_before() >= nanos(
                cycle.connect_cooldown,
            ),
{
}

/// What is awaited, slept for or done at a step depends on the settings and on the time since the
/// last connection was started, and on nothing else. Only where the step is to cool down it
/// depends on the last attempt, and not on that start.
pub proof fn every_step_does_what_it_is_for(
    cycle: CycleView,
    since_start: Duration,
    since_attempt: Duration,
    action: ReconnectAction,
)
    requires
        cycle.asks_for(since_start, since_attempt, action),
    ensures
        cycle.step is CoolDown <==> action is CoolDown,
        cycle.step is Connect <==> action is Connect,
        cycle.step is CloseOld <==> action is CloseOld,
        action matches ReconnectAction::CloseOld { reconnect } ==> reconnect,
        cycle.step is WaitBefore || cycle.step is WaitOverlap || cycle.step is WaitAfter <==> action is Sleep,
        action matches ReconnectAction::Sleep(wait) ==> wait == cycle.wait,
        cycle.step is AwaitRequest <==> action is AwaitRequest,
        action matches ReconnectAction::AwaitRequest(limit) ==> {
            let due = nanos(cycle.refresh_after);
            &&& due == 0 ==> forall|other: Duration| nanos(other) <= nanos(limit)
            &&& 0 < due && nanos(since_start) <= due ==> nanos(since_start) + nanos(limit) == due
            &&& 0 < due < nanos(since_start) ==> nanos(limit) == 0
        },
{
}

/// A reconnection that succeeds takes these steps and comes back to where the next request is
/// awaited: it cools down, connects and closes the old connection, with a wait before, between
/// and after where the connection looks out for duplicates.
pub proof fn successful_reconnection_takes_every_step_once(cycle: CycleView)
    requires
        cycle.step is AwaitRequest,
    ensures
        ({
            let cooling = cycle.after(true);
            let next = cooling.after(true);
            let connecting = if cycle.waits {
                next.after(true)
            } else {
                next
            };
            let connected = connecting.after(true);
            let closing = if cycle.waits {
                connected.after(true)
            } else {
                connected
            };
            let closed = closing.after(true);
            let end = if cycle.waits {
                closed.after(true)
            } else {
                closed
            };
            &&& cooling.step is CoolDown
            &&& cycle.waits ==> next.step is WaitBefore && connected.step is WaitOverlap && closed.step is WaitAfter
            &&& connecting.step is Connect
            &&& closing.step is CloseOld
            &&& end == cycle
        }),
{
}

/// Where no new connection could be made, nothing is closed: the next request is awaited, after a
/// last wait where the connection looks out for duplicates.
pub proof fn failed_reconnection_closes_nothing(cycle: CycleView, succeeded: bool)
    requires
        cycle.step is Connect,
    ensures
        cycle.waits ==> cycle.after(false).step is WaitAfter && cycle.after(false).after(succeeded).step is AwaitRequest,
        !cycle.waits ==> cycle.after(false).step is AwaitRequest,
{
}

/// A step changes where in the course a connection is, and none of the settings.
pub proof fn steps_keep_the_settings(cycle: CycleView, succeeded: bool)
    ensures
        cycle.after(succeeded).connect_cooldown == cycle.connect_cooldown,
        cycle.after(succeeded).refresh_after == cycle.refresh_after,
        cycle.after(succeeded).waits == cycle.waits,
        cycle.after(succeeded).wait == cycle.wait,
{
}

/// Only an attempt to connect can go two ways. What becomes of any other step makes no difference.
pub proof fn only_the_attempt_can_fail(step: ReconnectStep, state: ReconnectView, waits: bool)
    requires
        !(step is Connect),
    ensures
        step.next(waits, true) == step.next(waits, false),
        step.effect(state, waits, true) == step.effect(state, waits, false),
{
}

/// A reconnection is under way from the moment the cooling down is over until the next request is
/// awaited.
pub proof fn reconnection_is_under_way_from_cooling_down_to_rest(
    step: ReconnectStep,
    state: ReconnectView,
    waits: bool,
    succeeded: bool,
)
    ensures
        ({
            let next = step.next(waits, succeeded);
            let after = step.effect(state, waits, succeeded);
            &&& after.reconnecting <==> next is WaitBefore || next is Connect || next is WaitOverlap || next is CloseOld
                || next is WaitAfter
            &&& step is CoolDown ==> after.reconnecting
            &&& step is AwaitRequest ==> !after.reconnecting
            &&& step is WaitAfter ==> !after.reconnecting
        }),
{
}

/// A step asks for a reconnection only where it is an attempt to connect that failed, and takes
/// back what was asked for only where it begins one.
pub proof fn only_a_failed_attempt_asks_for_another(
    step: ReconnectStep,
    state: ReconnectView,
    waits: bool,
    succeeded: bool,
)
    ensures
        step.effect(state, waits, succeeded).requested <==> {
            ||| step is Connect && !succeeded
            ||| state.requested && !(step is CoolDown)
        },
{
}

/// A request is heard unless a reconnection is under way, and never changes whether one is. The
/// answer says whether it was heard.
pub proof fn request_is_heard_unless_under_way(state: &mut ReconnectState, accepted: bool)
    requires
        call_ensures(ReconnectState::request_reconnect, (state,), accepted),
    ensures
        accepted <==> !old(state)@.reconnecting,
        final(state)@.reconnecting == old(state)@.reconnecting,
        final(state)@.requested <==> old(state)@.requested || accepted,
{
}

} // verus!
