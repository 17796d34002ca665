use std::time::Duration;
use vstd::prelude::*;

verus! {

/// How long `duration` is, in nanoseconds: what [Duration::as_nanos] returns.
pub uninterp spec fn nanos(duration: Duration) -> nat;

/// [Duration::from_millis] makes a duration of as many milliseconds as it is given.
pub assume_specification[ Duration::from_millis ](millis: u64) -> (duration: Duration)
    ensures
        nanos(duration) == millis * 1_000_000,
;

/// [Duration::is_zero] tells whether a duration spans no time.
pub assume_specification[ Duration::is_zero ](duration: &Duration) -> (zero: bool)
    ensures
        zero == (nanos(*duration) == 0),
;

/// [Duration::saturating_sub] takes one duration off another, and leaves none where it is the
/// longer one.
pub assume_specification[ Duration::saturating_sub ](duration: Duration, taken: Duration) -> (rest: Duration)
    ensures
        nanos(rest) == time_left(nanos(duration), nanos(taken)),
;

/// [Duration::MAX] is the longest duration there is. How long that is may depend on the platform.
#[verifier::external_body]
fn longest_duration() -> (duration: Duration)
    ensures
        is_longest(duration),
{
    Duration::MAX
}

/// Whether no duration is longer than `duration`.
pub open spec fn is_longest(duration: Duration) -> bool {
    forall|other: Duration| nanos(other) <= nanos(duration)
}

/// What is left of `total` after `elapsed`.
pub open spec fn time_left(total: nat, elapsed: nat) -> nat {
    if elapsed <= total {
        (total - elapsed) as nat
    } else {
        0
    }
}

/// Whether `wait` is what is left of a wait for `configured` after `elapsed`, where a setting of
/// zero stands for a wait that never ends.
pub open spec fn is_rest_of_wait(wait: Duration, configured: Duration, elapsed: Duration) -> bool {
    if nanos(configured) == 0 {
        is_longest(wait)
    } else {
        nanos(wait) == time_left(nanos(configured), nanos(elapsed))
    }
}

/// How long to wait on where `configured` was set and `elapsed` has passed. A setting of zero
/// switches the wait's end off.
pub fn rest_of_wait(configured: Duration, elapsed: Duration) -> (wait: Duration)
    ensures
        is_rest_of_wait(wait, configured, elapsed),
{
    if configured.is_zero() {
        longest_duration()
    } else {
        configured.saturating_sub(elapsed)
    }
}

/// What a list of names and values says.
pub open spec fn header_texts(headers: Seq<(String, String)>) -> Seq<(Seq<char>, Seq<char>)> {
    Seq::new(headers.len(), |i: int| (headers[i].0@, headers[i].1@))
}

/// Configuration of a handler's connections.
///
/// Should be returned by
/// [WebSocketHandler::websocket_config()][crate::handler::WebSocketHandler::websocket_config()].
#[derive(Debug)]
#[non_exhaustive]
pub struct WebSocketConfig {
    /// Duration that should elapse between each attempt to start a new connection.
    ///
    /// This matters because a connection is made anew on error. If the error
    /// continues to happen, it could spam the server if `connect_cooldown` is too short. [Default]s to 3000ms.
    pub connect_cooldown: Duration,
    /// The connection is automatically made anew when `refresh_after` has elapsed since
    /// the last connection started. If you don't want this feature, set it to [Duration::ZERO]. [Default]s to [Duration::ZERO].
    pub refresh_after: Duration,
    /// Prefix which will be used for connections that started using this `WebSocketConfig`. [Default]s to `""`.
    ///
    /// Example usage: `"wss://example.com"`
    pub url_prefix: String,
    /// During reconnection, the handler might receive two identical messages
    /// even though the server sent only one message. By setting this to `true`,
    /// duplicate messages are not sent to the handler. You should set this option to `true`
    /// when messages contain some sort of ID and are distinguishable.
    ///
    /// Note, that duplicate messages are **not** looked for when no reconnection is under way,
    /// even if this option is set to `true`.
    pub ignore_duplicate_during_reconnection: bool,
    /// When `ignore_duplicate_during_reconnection` is set to `true`, a reconnection waits for a
    /// certain amount of time to make sure no message is lost. [Default]s to 300ms
    pub reconnection_wait: Duration,
    /// A reconnection will be triggered if no messages are received within this amount of time.
    /// [Default]s to [Duration::ZERO], which means no timeout will be applied.
    pub message_timeout: Duration,
    /// Additional HTTP headers to include in the WebSocket handshake request.
    ///
    /// This is useful for servers that require authentication at handshake time.
    /// [Default]s to empty.
    pub handshake_headers: Vec<(String, String)>,
}

impl WebSocketConfig {
    /// Whether every field has its default.
    pub open spec fn is_default(self) -> bool {
        &&& nanos(self.connect_cooldown) == 3_000_000_000
        &&& nanos(self.refresh_after) == 0
        &&& self.url_prefix@ == Seq::<char>::empty()
        &&& !self.ignore_duplicate_during_reconnection
        &&& nanos(self.reconnection_wait) == 300_000_000
        &&& nanos(self.message_timeout) == 0
        &&& self.handshake_headers@ == Seq::<(String, String)>::empty()
    }

    /// Constructs a new `WebSocketConfig` with its fields set to [default][WebSocketConfig::default()].
    pub fn new() -> (config: Self)
        ensures
            config.is_default(),
    {
        Self::default()
    }
}

impl Clone for WebSocketConfig {
    fn clone(&self) -> (copy: Self)
        ensures
            copy.connect_cooldown == self.connect_cooldown,
            copy.refresh_after == self.refresh_after,
            copy.url_prefix@ == self.url_prefix@,
            copy.ignore_duplicate_during_reconnection == self.ignore_duplicate_during_reconnection,
            copy.reconnection_wait == self.reconnection_wait,
            copy.message_timeout == self.message_timeout,
            header_texts(copy.handshake_headers@) == header_texts(self.handshake_headers@),
    {
        let mut handshake_headers: Vec<(String, String)> = Vec::new();
        let mut i: usize = 0;
        while i < self.handshake_headers.len()
            invariant
                i <= self.handshake_headers@.len(),
                handshake_headers@.len() == i,
                forall|j: int|
                    0 <= j < i ==> handshake_headers@[j].0@ == self.handshake_headers@[j].0@
                        && handshake_headers@[j].1@ == self.handshake_headers@[j].1@,
            decreases self.handshake_headers@.len() - i,
        {
            let header = &self.handshake_headers[i];
            handshake_headers.push((header.0.clone(), header.1.clone()));
            i += 1;
        }
        assert(header_texts(handshake_headers@) =~= header_texts(self.handshake_headers@));
        WebSocketConfig {
            connect_cooldown: self.connect_cooldown,
            refresh_after: self.refresh_after,
            url_prefix: self.url_prefix.clone(),
            ignore_duplicate_during_reconnection: self.ignore_duplicate_during_reconnection,
            reconnection_wait: self.reconnection_wait,
            message_timeout: self.message_timeout,
            handshake_headers,
        }
    }
}

impl Default for WebSocketConfig {
    fn default() -> (config: Self)
        ensures
            config.is_default(),
    {
        Self {
            connect_cooldown: Duration::from_millis(3000),
            refresh_after: Duration::from_millis(0),
            url_prefix: String::new(),
            ignore_duplicate_during_reconnection: false,
            reconnection_wait: Duration::from_millis(300),
            message_timeout: Duration::from_millis(0),
            handshake_headers: Vec::new(),
        }
    }
}

/// A wait and what has passed of it make up what was set, or what has passed where that is more.
/// A setting of zero makes a wait that no other outlasts, whatever has passed.
pub proof fn wait_ends_when_it_was_set_to(configured: Duration, elapsed: Duration, wait: Duration)
    requires
        call_ensures(rest_of_wait, (configured, elapsed), wait),
    ensures
        nanos(configured) == 0 ==> forall|other: Duration| nanos(other) <= nanos(wait),
        0 < nanos(configured) && nanos(elapsed) <= nanos(configured) ==> nanos(elapsed) + nanos(wait)
            == nanos(configured),
        0 < nanos(configured) < nanos(elapsed) ==> nanos(wait) == 0,
{
}

/// A configuration that nobody changed cools down for three seconds, waits for 300 milliseconds
/// in a reconnection, knows neither refresh nor timeout, and adds nothing to the url, the headers
/// or the search for duplicates. It is the same whichever way it is made.
pub proof fn new_config_has_defaults(config: WebSocketConfig, other: WebSocketConfig)
    requires
        call_ensures(WebSocketConfig::new, (), config),
        call_ensures(<WebSocketConfig as Default>::default, (), other),
    ensures
        nanos(config.connect_cooldown) == 3_000_000_000,
        nanos(config.refresh_after) == 0,
        config.url_prefix@.len() == 0,
        !config.ignore_duplicate_during_reconnection,
        nanos(config.reconnection_wait) == 300_000_000,
        nanos(config.message_timeout) == 0,
        config.handshake_headers@.len() == 0,
        nanos(other.connect_cooldown) == nanos(config.connect_cooldown),
        nanos(other.refresh_after) == nanos(config.refresh_after),
        other.url_prefix@ == config.url_prefix@,
        other.ignore_duplicate_during_reconnection == config.ignore_duplicate_during_reconnection,
        nanos(other.reconnection_wait) == nanos(config.reconnection_wait),
        nanos(other.message_timeout) == nanos(config.message_timeout),
        other.handshake_headers@ == config.handshake_headers@,
{
}

/// A copy of a configuration has its settings, and its headers one by one.
pub proof fn copied_config_is_the_same(config: WebSocketConfig, copy: WebSocketConfig)
    requires
        call_ensures(<WebSocketConfig as Clone>::clone, (&config,), copy),
    ensures
        copy.connect_cooldown == config.connect_cooldown,
        copy.refresh_after == config.refresh_after,
        copy.url_prefix@ == config.url_prefix@,
        copy.ignore_duplicate_during_reconnection == config.ignore_duplicate_during_reconnection,
        copy.reconnection_wait == config.reconnection_wait,
        copy.message_timeout == config.message_timeout,
        copy.handshake_headers@.len() == config.handshake_headers@.len(),
        forall|i: int|
            0 <= i < config.handshake_headers@.len() ==> {
                &&& (#[trigger] copy.handshake_headers@[i]).0@ == config.handshake_headers@[i].0@
                &&& copy.handshake_headers@[i].1@ == config.handshake_headers@[i].1@
            },
{
    let left = header_texts(copy.handshake_headers@);
    let right = header_texts(config.handshake_headers@);
    assert(left.len() == right.len());
    assert forall|i: int| 0 <= i < config.handshake_headers@.len() implies {
        &&& (#[trigger] copy.handshake_headers@[i]).0@ == config.handshake_headers@[i].0@
        &&& copy.handshake_headers@[i].1@ == config.handshake_headers@[i].1@
    } by {
        assert(left[i] == right[i]);
    }
}

} // verus!
