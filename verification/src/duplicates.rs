use crate::message::{MessageView, WebSocketMessage};
use vstd::prelude::*;

verus! {

/// What a connection's id adds to the count of a message that came over it. The two connections
/// that overlap during a reconnection count against each other.
pub open spec fn id_sign(id: bool) -> int {
    if id {
        1
    } else {
        -1
    }
}

/// The sign of `count`: `1`, `0` or `-1`.
pub open spec fn signum(count: int) -> int {
    if count > 0 {
        1
    } else if count < 0 {
        -1
    } else {
        0
    }
}

/// The messages seen since the filter was last cleared, each with the number of times it came
/// over connection `true` less the number of times it came over connection `false`. Where
/// repeats are ignored, only the first arrival counts.
#[verifier::ext_equal]
pub struct FilterView {
    pub ignore_repeats: bool,
    pub counts: Map<MessageView, int>,
}

impl FilterView {
    /// A filter that has seen nothing.
    pub open spec fn empty(ignore_repeats: bool) -> FilterView {
        FilterView { ignore_repeats, counts: Map::empty() }
    }

    /// The count of `message`, zero where it was not seen.
    pub open spec fn count(self, message: MessageView) -> int {
        if self.counts.contains_key(message) {
            self.counts[message]
        } else {
            0
        }
    }

    /// Whether `message`, come over connection `id`, is new rather than a duplicate.
    ///
    /// A message not seen before is new. A repeat is a duplicate where repeats are ignored.
    /// Otherwise it is one as long as the other connection brought the message more often, or as
    /// often, counting this arrival.
    pub open spec fn admits(self, message: MessageView, id: bool) -> bool {
        ||| !self.counts.contains_key(message)
        ||| !self.ignore_repeats && signum(self.counts[message] + id_sign(id)) == id_sign(id)
    }

    /// The filter after `message` came over connection `id`.
    pub open spec fn after(self, message: MessageView, id: bool) -> FilterView {
        if self.counts.contains_key(message) && self.ignore_repeats {
            self
        } else {
            FilterView { counts: self.counts.insert(message, self.count(message) + id_sign(id)), ..self }
        }
    }

    /// Whether the count of `message` can still be kept after it came over connection `id`.
    pub open spec fn has_room(self, message: MessageView, id: bool) -> bool {
        self.ignore_repeats || isize::MIN <= self.count(message) + id_sign(id) <= isize::MAX
    }
}

/// The count that the first entry for `message` holds.
spec fn entry_count(entries: Seq<(WebSocketMessage, isize)>, message: MessageView) -> Option<int>
    decreases entries.len(),
{
    if entries.len() == 0 {
        None
    } else if entries[0].0@ == message {
        Some(entries[0].1 as int)
    } else {
        entry_count(entries.drop_first(), message)
    }
}

/// Changing the first entry for a message changes the count of that message alone.
proof fn lemma_update(
    entries: Seq<(WebSocketMessage, isize)>,
    at: int,
    entry: (WebSocketMessage, isize),
    message: MessageView,
)
    requires
        0 <= at < entries.len(),
        entry.0@ == entries[at].0@,
        forall|i: int| 0 <= i < at ==> entries[i].0@ != entry.0@,
    ensures
        entry_count(entries, entry.0@) == Some(entries[at].1 as int),
        entry_count(entries.update(at, entry), message) == if message == entry.0@ {
            Some(entry.1 as int)
        } else {
            entry_count(entries, message)
        },
    decreases entries.len(),
{
    if at == 0 {
        assert(entries.update(0, entry).drop_first() =~= entries.drop_first());
    } else {
        let rest = entries.drop_first();
        assert forall|i: int| 0 <= i < at - 1 implies rest[i].0@ != entry.0@ by {
            assert(rest[i] == entries[i + 1]);
        }
        lemma_update(rest, at - 1, entry, message);
        assert(entries.update(at, entry).drop_first() =~= rest.update(at - 1, entry));
    }
}

/// A new entry at the end gives a message without one its count.
proof fn lemma_push(
    entries: Seq<(WebSocketMessage, isize)>,
    entry: (WebSocketMessage, isize),
    message: MessageView,
)
    requires
        forall|i: int| 0 <= i < entries.len() ==> entries[i].0@ != entry.0@,
    ensures
        entry_count(entries, entry.0@) is None,
        entry_count(entries.push(entry), message) == if message == entry.0@ {
            Some(entry.1 as int)
        } else {
            entry_count(entries, message)
        },
    decreases entries.len(),
{
    if entries.len() == 0 {
        assert(entries.push(entry).drop_first() =~= entries);
    } else {
        let rest = entries.drop_first();
        assert forall|i: int| 0 <= i < rest.len() implies rest[i].0@ != entry.0@ by {
            assert(rest[i] == entries[i + 1]);
        }
        lemma_push(rest, entry, message);
        assert(entries.push(entry).drop_first() =~= rest.push(entry));
    }
}

/// Tells messages that arrive over both connections of a reconnection from new ones.
pub struct DuplicateFilter {
    ignore_repeats: bool,
    entries: Vec<(WebSocketMessage, isize)>,
}

impl View for DuplicateFilter {
    type V = FilterView;

    closed spec fn view(&self) -> FilterView {
        FilterView {
            ignore_repeats: self.ignore_repeats,
            counts: Map::new(
                |message: MessageView| entry_count(self.entries@, message) is Some,
                |message: MessageView| entry_count(self.entries@, message)->0,
            ),
        }
    }
}

impl DuplicateFilter {
    /// A filter that has seen nothing. With `ignore_repeats` it lets each message through once.
    pub fn new(ignore_repeats: bool) -> (filter: Self)
        ensures
            filter@ == FilterView::empty(ignore_repeats),
    {
        let filter = DuplicateFilter { ignore_repeats, entries: Vec::new() };
        assert(filter@ =~= FilterView::empty(ignore_repeats));
        filter
    }

    /// Forgets everything seen.
    pub fn clear(&mut self)
        ensures
            final(self)@ == FilterView::empty(old(self)@.ignore_repeats),
    {
        self.entries.clear();
        assert(self@ =~= FilterView::empty(old(self)@.ignore_repeats));
    }

    /// The index of the first entry for `message`, or the number of entries where there is none.
    fn find(&self, message: &WebSocketMessage) -> (at: usize)
        ensures
            at <= self.entries@.len(),
            forall|i: int| 0 <= i < at ==> self.entries@[i].0@ != message@,
            at < self.entries@.len() ==> self.entries@[at as int].0@ == message@,
    {
        let mut at: usize = 0;
        while at < self.entries.len()
            invariant
                at <= self.entries@.len(),
                forall|i: int| 0 <= i < at ==> self.entries@[i].0@ != message@,
            decreases self.entries@.len() - at,
        {
            if self.entries[at].0 == *message {
                return at;
            }
            at += 1;
        }
        at
    }

    /// Whether [register][Self::register] can count one more arrival of `message` over connection `id`.
    pub fn can_register(&self, message: &WebSocketMessage, id: bool) -> (room: bool)
        ensures
            room == self@.has_room(message@, id),
    {
        if self.ignore_repeats {
            return true;
        }
        let at = self.find(message);
        if at < self.entries.len() {
            proof {
                lemma_update(self.entries@, at as int, self.entries@[at as int], message@);
            }
            if id {
                self.entries[at].1 < isize::MAX
            } else {
                self.entries[at].1 > isize::MIN
            }
        } else {
            proof {
                lemma_push(self.entries@, (*message, 0), message@);
            }
            true
        }
    }

    /// Counts `message`, come over connection `id`, and tells whether it is new.
    pub fn register(&mut self, message: &WebSocketMessage, id: bool) -> (new: bool)
        requires
            old(self)@.has_room(message@, id),
        ensures
            new == old(self)@.admits(message@, id),
            final(self)@ == old(self)@.after(message@, id),
    {
        let sign: isize = if id { 1 } else { -1 };
        let at = self.find(message);
        let ghost before = self.entries@;
        if at < self.entries.len() {
            proof {
                lemma_update(before, at as int, before[at as int], message@);
            }
            if self.ignore_repeats {
                return false;
            }
            let count: isize = self.entries[at].1 + sign;
            self.entries[at].1 = count;
            proof {
                assert(self.entries@ =~= before.update(at as int, (before[at as int].0, count)));
                assert forall|m: MessageView| #[trigger] entry_count(self.entries@, m) == if m == message@ {
                    Some(count as int)
                } else {
                    entry_count(before, m)
                } by {
                    lemma_update(before, at as int, (before[at as int].0, count), m);
                }
                assert(self@ =~= old(self)@.after(message@, id));
            }
            if id {
                count > 0
            } else {
                count < 0
            }
        } else {
            let copy = message.clone();
            proof {
                lemma_push(before, (copy, sign), message@);
            }
            self.entries.push((copy, sign));
            proof {
                assert forall|m: MessageView| #[trigger] entry_count(self.entries@, m) == if m == message@ {
                    Some(sign as int)
                } else {
                    entry_count(before, m)
                } by {
                    lemma_push(before, (copy, sign), m);
                }
                assert(self@ =~= old(self)@.after(message@, id));
            }
            true
        }
    }
}

/// A filter's state after `arrivals`, each a message and the connection that it came over.
pub open spec fn after_all(filter: FilterView, arrivals: Seq<(MessageView, bool)>) -> FilterView
    decreases arrivals.len(),
{
    if arrivals.len() == 0 {
        filter
    } else {
        after_all(filter, arrivals.drop_last()).after(arrivals.last().0, arrivals.last().1)
    }
}

/// How often `message` came over connection `id`.
pub open spec fn times_arrived(arrivals: Seq<(MessageView, bool)>, message: MessageView, id: bool) -> nat
    decreases arrivals.len(),
{
    if arrivals.len() == 0 {
        0
    } else {
        times_arrived(arrivals.drop_last(), message, id) + if arrivals.last() == (message, id) {
            1nat
        } else {
            0nat
        }
    }
}

/// How often `filter` lets `message` through as `arrivals` come.
pub open spec fn times_admitted(
    filter: FilterView,
    arrivals: Seq<(MessageView, bool)>,
    message: MessageView,
) -> nat
    decreases arrivals.len(),
{
    if arrivals.len() == 0 {
        0
    } else {
        let before = after_all(filter, arrivals.drop_last());
        times_admitted(filter, arrivals.drop_last(), message) + if arrivals.last().0 == message
            && before.admits(message, arrivals.last().1) {
            1nat
        } else {
            0nat
        }
    }
}

/// Over one reconnection, where repeats are not ignored, a message is let through as often as
/// the connection that brought it more often brought it.
pub proof fn admitted_as_often_as_one_connection_brought_it(
    arrivals: Seq<(MessageView, bool)>,
    message: MessageView,
)
    ensures
        ({
            let over_true = times_arrived(arrivals, message, true);
            let over_false = times_arrived(arrivals, message, false);
            &&& times_admitted(FilterView::empty(false), arrivals, message) == if over_true >= over_false {
                over_true
            } else {
                over_false
            }
            &&& after_all(FilterView::empty(false), arrivals).count(message) == over_true - over_false
        }),
    decreases arrivals.len(),
{
    lemma_ignore_repeats_kept(FilterView::empty(false), arrivals);
    if arrivals.len() > 0 {
        admitted_as_often_as_one_connection_brought_it(arrivals.drop_last(), message);
        lemma_ignore_repeats_kept(FilterView::empty(false), arrivals.drop_last());
        lemma_seen_iff_arrived(FilterView::empty(false), arrivals.drop_last(), message);
    }
}

/// Over one reconnection, where repeats are ignored, a message is let through once, however
/// often it arrives.
pub proof fn admitted_once_where_repeats_are_ignored(
    arrivals: Seq<(MessageView, bool)>,
    message: MessageView,
)
    ensures
        times_admitted(FilterView::empty(true), arrivals, message) == if times_arrived(arrivals, message, true)
            + times_arrived(arrivals, message, false) > 0 {
            1nat
        } else {
            0nat
        },
    decreases arrivals.len(),
{
    if arrivals.len() > 0 {
        admitted_once_where_repeats_are_ignored(arrivals.drop_last(), message);
        lemma_ignore_repeats_kept(FilterView::empty(true), arrivals.drop_last());
        lemma_seen_iff_arrived(FilterView::empty(true), arrivals.drop_last(), message);
    }
}

/// Arrivals do not change whether repeats are ignored.
proof fn lemma_ignore_repeats_kept(filter: FilterView, arrivals: Seq<(MessageView, bool)>)
    ensures
        after_all(filter, arrivals).ignore_repeats == filter.ignore_repeats,
    decreases arrivals.len(),
{
    if arrivals.len() > 0 {
        lemma_ignore_repeats_kept(filter, arrivals.drop_last());
    }
}

/// A filter knows the messages it knew and those that arrived.
proof fn lemma_seen_iff_arrived(filter: FilterView, arrivals: Seq<(MessageView, bool)>, message: MessageView)
    ensures
        after_all(filter, arrivals).counts.contains_key(message) <==> {
            ||| filter.counts.contains_key(message)
            ||| times_arrived(arrivals, message, true) + times_arrived(arrivals, message, false) > 0
        },
    decreases arrivals.len(),
{
    if arrivals.len() > 0 {
        lemma_seen_iff_arrived(filter, arrivals.drop_last(), message);
    }
}

/// A filter that is new has seen nothing, and one that was cleared has seen nothing either. It
/// keeps to how it treats repeats.
pub proof fn cleared_filter_has_seen_nothing(
    filter: &mut DuplicateFilter,
    ignore_repeats: bool,
    fresh: DuplicateFilter,
    message: MessageView,
)
    requires
        call_ensures(DuplicateFilter::clear, (filter,), ()),
        call_ensures(DuplicateFilter::new, (ignore_repeats,), fresh),
    ensures
        !final(filter)@.counts.contains_key(message),
        final(filter)@.ignore_repeats == old(filter)@.ignore_repeats,
        !fresh@.counts.contains_key(message),
        fresh@.ignore_repeats == ignore_repeats,
{
}

/// A message that was not seen is new. One that was seen is not where repeats are ignored. Else it
/// is new exactly where the other connection has not brought it more often than this one did
/// before.
pub proof fn message_is_new_unless_the_other_connection_is_ahead(
    filter: &mut DuplicateFilter,
    message: &WebSocketMessage,
    id: bool,
    new: bool,
)
    requires
        call_ensures(DuplicateFilter::register, (filter, message, id), new),
    ensures
        ({
            let seen = old(filter)@.counts;
            &&& !seen.contains_key(message@) ==> new
            &&& seen.contains_key(message@) && old(filter)@.ignore_repeats ==> !new
            &&& seen.contains_key(message@) && !old(filter)@.ignore_repeats && id ==> (new
                <==> seen[message@] >= 0)
            &&& seen.contains_key(message@) && !old(filter)@.ignore_repeats && !id ==> (new
                <==> seen[message@] <= 0)
        }),
{
}

/// An arrival counts for its connection and against the other one. Where repeats are ignored only
/// the first counts. Arrivals of other messages make no difference.
pub proof fn arrival_counts_for_its_connection(
    filter: &mut DuplicateFilter,
    message: &WebSocketMessage,
    id: bool,
    new: bool,
    other: MessageView,
)
    requires
        call_ensures(DuplicateFilter::register, (filter, message, id), new),
    ensures
        ({
            let before = old(filter)@.counts;
            let after = final(filter)@.counts;
            &&& final(filter)@.ignore_repeats == old(filter)@.ignore_repeats
            &&& after.contains_key(message@)
            &&& !before.contains_key(message@) ==> after[message@] == if id {
                1int
            } else {
                -1int
            }
            &&& before.contains_key(message@) && old(filter)@.ignore_repeats ==> after[message@]
                == before[message@]
            &&& before.contains_key(message@) && !old(filter)@.ignore_repeats ==> after[message@]
                == before[message@] + if id {
                1int
            } else {
                -1int
            }
            &&& other != message@ ==> (after.contains_key(other) <==> before.contains_key(other))
            &&& other != message@ && before.contains_key(other) ==> after[other] == before[other]
        }),
{
}

/// One more arrival can be counted unless the count has come to the end of what a machine word
/// holds. Where repeats are ignored it always can.
pub proof fn arrivals_can_be_counted_up_to_a_machine_word(
    filter: &DuplicateFilter,
    message: &WebSocketMessage,
    id: bool,
    room: bool,
)
    requires
        call_ensures(DuplicateFilter::can_register, (filter, message, id), room),
    ensures
        filter@.ignore_repeats || !filter@.counts.contains_key(message@) ==> room,
        !filter@.ignore_repeats && filter@.counts.contains_key(message@) && isize::MIN
            <= filter@.counts[message@] <= isize::MAX ==> (room <==> filter@.counts[message@] != if id {
            isize::MAX
        } else {
            isize::MIN
        }),
{
}

} // verus!
