//! The counters under sequences of events, and what holds of them.

use vstd::prelude::*;
use crate::state::{
    closed, connected, connection_count, connection_readable, lemma_namespaces, received,
    timed_out, timeout_count, Counts, CONNECTION_COUNTS, TIMEOUT_COUNTS,
};

verus! {

/// An event that changes the counters, with the local channel it is about.
pub enum Event {
    /// The handshake of the channel was completed.
    Connect(Seq<char>),
    /// The channel was closed.
    Close(Seq<char>),
    /// An `Increment` packet was applied on the channel.
    Receive(Seq<char>),
    /// A packet sent over the channel timed out.
    Timeout(Seq<char>),
}

/// The counters after one event.
pub open spec fn after(counts: Counts, event: Event) -> Counts {
    match event {
        Event::Connect(channel) => connected(counts, channel),
        Event::Close(channel) => closed(counts, channel),
        Event::Receive(channel) => received(counts, channel),
        Event::Timeout(channel) => timed_out(counts, channel),
    }
}

/// The counters after a sequence of events, the first event first.
pub open spec fn after_all(counts: Counts, events: Seq<Event>) -> Counts
    decreases events.len(),
{
    if events.len() == 0 {
        counts
    } else {
        after(after_all(counts, events.drop_last()), events.last())
    }
}

/// How many of the events are timeouts on `channel`.
pub open spec fn timeouts_on(events: Seq<Event>, channel: Seq<char>) -> nat
    decreases events.len(),
{
    if events.len() == 0 {
        0
    } else if events.last() == Event::Timeout(channel) {
        timeouts_on(events.drop_last(), channel) + 1
    } else {
        timeouts_on(events.drop_last(), channel)
    }
}

/// `count` packets received on `channel`, one after the other.
pub open spec fn receives(channel: Seq<char>, count: nat) -> Seq<Event> {
    Seq::new(count, |i: int| Event::Receive(channel))
}

/// After a channel connected, its count can be read and reads 0, whatever
/// was stored before.
pub proof fn law_connect_resets(counts: Counts, channel: Seq<char>)
    ensures
        connection_readable(connected(counts, channel), channel),
        connection_count(connected(counts, channel), channel) == 0,
{
}

/// A packet on a channel that never connected counts from 0: afterwards the
/// count reads 1.
pub proof fn law_receive_without_connect(counts: Counts, channel: Seq<char>)
    requires
        !counts.dom().contains((CONNECTION_COUNTS@, channel)),
    ensures
        connection_readable(counts, channel),
        connection_count(counts, channel) == 0,
        connection_count(received(counts, channel), channel) == 1,
{
}

/// After a channel connected and `count` packets were applied on it, its
/// count reads `count`. A counter holds no more than `u32::MAX`.
pub proof fn law_receives_count(counts: Counts, channel: Seq<char>, count: nat)
    requires
        count <= u32::MAX,
    ensures
        connection_readable(
            after_all(connected(counts, channel), receives(channel, count)),
            channel,
        ),
        connection_count(
            after_all(connected(counts, channel), receives(channel, count)),
            channel,
        ) == count,
    decreases count,
{
    if count > 0 {
        law_receives_count(counts, channel, (count - 1) as nat);
        assert(receives(channel, count).drop_last() == receives(channel, (count - 1) as nat));
    }
}

/// After a channel closed, its count can be read and reads 0, as it does
/// right after the channel connected, though nothing is stored for it.
pub proof fn law_close_reads_default(counts: Counts, channel: Seq<char>)
    ensures
        connection_readable(closed(counts, channel), channel),
        connection_count(closed(counts, channel), channel) == 0,
        connection_count(closed(counts, channel), channel) == connection_count(
            connected(counts, channel),
            channel,
        ),
        !closed(counts, channel).dom().contains((CONNECTION_COUNTS@, channel)),
{
}

/// Every timeout on a channel adds one to its timeout count, and no other
/// event changes it: not a connect, a close or a packet on that channel,
/// and no event on another one. A counter holds no more than `u32::MAX`.
pub proof fn law_timeouts_count(counts: Counts, events: Seq<Event>, channel: Seq<char>)
    requires
        timeout_count(counts, channel) + timeouts_on(events, channel) <= u32::MAX,
    ensures
        timeout_count(after_all(counts, events), channel) == timeout_count(counts, channel)
            + timeouts_on(events, channel),
        !counts.dom().contains((TIMEOUT_COUNTS@, channel)) ==> timeout_count(
            after_all(counts, events),
            channel,
        ) == timeouts_on(events, channel),
    decreases events.len(),
{
    lemma_namespaces();
    if events.len() > 0 {
        law_timeouts_count(counts, events.drop_last(), channel);
    }
}

/// A timeout leaves every connection count as it is.
pub proof fn law_timeout_keeps_counts(counts: Counts, channel: Seq<char>, other: Seq<char>)
    ensures
        connection_count(timed_out(counts, channel), other) == connection_count(counts, other),
        timed_out(counts, channel).dom().contains((CONNECTION_COUNTS@, other))
            == counts.dom().contains((CONNECTION_COUNTS@, other)),
{
    lemma_namespaces();
}

/// A connection counter follows the life of its channel: after any events
/// that end in the channel's connect it is stored, and after any that end
/// in its close it is not.
pub proof fn law_counter_follows_channel(counts: Counts, events: Seq<Event>, channel: Seq<char>)
    requires
        events.len() > 0,
    ensures
        events.last() == Event::Connect(channel) ==> after_all(counts, events).dom().contains(
            (CONNECTION_COUNTS@, channel),
        ),
        events.last() == Event::Close(channel) ==> !after_all(counts, events).dom().contains(
            (CONNECTION_COUNTS@, channel),
        ),
{
}

} // verus!
