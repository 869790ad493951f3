//! The bounded broadcast primitive that every topic handle sits on.
//!
//! A [`Topic`] is a multi-consumer broadcast channel: `publish` never
//! blocks and never fails, and each [`Subscriber`] owns a cursor into
//! the stream of published messages.  The channel buffers at most
//! `capacity` undelivered messages per subscriber; when a slow
//! subscriber falls further behind, the oldest unread messages are
//! dropped and counted as lag instead of failing the read.
//!
//! The ghost state of a channel is the full sequence of messages ever
//! published (`messages()`); the buffer retains the last `capacity` of
//! them, which is exactly the window any subscriber may still read.

use vstd::prelude::*;

verus! {

/// Index of the next message a subscriber with cursor `cursor` reads
/// from a stream `msgs` on a channel of capacity `cap`: its own cursor,
/// unless the channel has already dropped that far back, in which case
/// the read skips forward to the oldest retained message.
pub open spec fn effective_index<T>(cursor: int, msgs: Seq<T>, cap: int) -> int {
    if msgs.len() - cursor > cap {
        msgs.len() - cap
    } else {
        cursor
    }
}

/// Number of messages such a read skips over (the lag it incurs).
pub open spec fn skipped<T>(cursor: int, msgs: Seq<T>, cap: int) -> int {
    effective_index(cursor, msgs, cap) - cursor
}

/// The message such a read delivers, or `None` when the subscriber has
/// seen everything published so far.
pub open spec fn read_at<T>(cursor: int, msgs: Seq<T>, cap: int) -> Option<T> {
    if effective_index(cursor, msgs, cap) < msgs.len() {
        Some(msgs[effective_index(cursor, msgs, cap)])
    } else {
        None
    }
}

/// A broadcast channel: the runtime object behind one topic or
/// sub-topic of the bus.
pub struct Topic<T> {
    capacity: usize,
    total: usize,
    buffer: Vec<T>,
    history: Ghost<Seq<T>>,
}

/// A cursor into a channel's message stream, created by
/// [`Topic::subscribe`]; it never blocks publishers or other
/// subscribers.
pub struct Subscriber {
    cursor: usize,
    lost: u64,
}

impl<T> Topic<T> {
    /// All messages ever published on this channel, oldest first.
    pub closed spec fn messages(&self) -> Seq<T> {
        self.history@
    }

    /// The per-subscriber backlog bound this channel was created with.
    pub closed spec fn capacity_spec(&self) -> nat {
        self.capacity as nat
    }

    /// Structural invariant: the buffer retains exactly the last
    /// `capacity` published messages (all of them while fewer have been
    /// published).
    pub closed spec fn wf(&self) -> bool {
        &&& self.capacity >= 1
        &&& self.total == self.history@.len()
        &&& self.buffer@.len() == if self.total <= self.capacity {
            self.total as int
        } else {
            self.capacity as int
        }
        &&& self.buffer@ == self.history@.subrange(
            self.total - self.buffer@.len(),
            self.total as int,
        )
    }

    /// Create a channel retaining up to `capacity` undelivered messages
    /// per subscriber.
    pub fn new(capacity: usize) -> (r: Self)
        requires
            capacity >= 1,
        ensures
            r.wf(),
            r.capacity_spec() == capacity,
            r.messages() == Seq::<T>::empty(),
    {
        let r = Topic { capacity, total: 0, buffer: Vec::new(), history: Ghost(Seq::empty()) };
        assert(r.buffer@ =~= r.history@.subrange(0, 0));
        r
    }

    /// The capacity this channel was created with.
    pub fn capacity(&self) -> (r: usize)
        requires
            self.wf(),
        ensures
            r == self.capacity_spec(),
    {
        self.capacity
    }

    /// Append `payload` to the channel's stream.  Publishing never
    /// blocks and never fails; with no live subscriber the value is
    /// simply never read.
    pub fn publish(&mut self, payload: T)
        requires
            old(self).wf(),
            old(self).messages().len() < usize::MAX,
        ensures
            final(self).wf(),
            final(self).capacity_spec() == old(self).capacity_spec(),
            final(self).messages() == old(self).messages().push(payload),
    {
        if self.buffer.len() == self.capacity {
            self.buffer.remove(0);
        }
        self.buffer.push(payload);
        self.total = self.total + 1;
        proof {
            self.history@ = self.history@.push(payload);
        }
        assert(self.buffer@ =~= self.history@.subrange(
            self.total - self.buffer@.len(),
            self.total as int,
        ));
    }

    /// The number of messages published on this channel so far.
    pub fn published(&self) -> (r: usize)
        requires
            self.wf(),
        ensures
            r == self.messages().len(),
    {
        self.total
    }

    /// Create a subscriber whose backlog starts empty: it sees only
    /// messages published after this call.
    pub fn subscribe(&self) -> (r: Subscriber)
        requires
            self.wf(),
        ensures
            r.wf(self),
            r.index() == self.messages().len(),
            r.lost() == 0,
    {
        Subscriber { cursor: self.total, lost: 0 }
    }
}

impl Subscriber {
    /// Position of the subscriber's cursor in the channel's stream: the
    /// number of messages it has read or skipped.
    pub closed spec fn index(&self) -> nat {
        self.cursor as nat
    }

    /// The accumulated lag counter since it was last read.
    pub closed spec fn lost(&self) -> nat {
        self.lost as nat
    }

    /// The cursor's position in the channel's stream.
    pub fn position(&self) -> (r: usize)
        ensures
            r == self.index(),
    {
        self.cursor
    }

    /// Validity of this subscriber against the channel it was created
    /// on.
    pub open spec fn wf<T>(&self, chan: &Topic<T>) -> bool {
        &&& self.index() <= chan.messages().len()
        &&& self.lost() <= self.index()
    }

    /// Deliver the next undelivered message, or `None` when none is
    /// buffered.  When the next entry was already dropped for exceeding
    /// the channel capacity, the read skips to the oldest retained
    /// message and adds the number of dropped messages to the lag
    /// counter; lag is never surfaced as an error.
    pub fn try_recv<'a, T>(&mut self, chan: &'a Topic<T>) -> (r: Option<&'a T>)
        requires
            old(self).wf(chan),
            chan.wf(),
        ensures
            final(self).wf(chan),
            final(self).lost() == old(self).lost() + skipped(
                old(self).index() as int,
                chan.messages(),
                chan.capacity_spec() as int,
            ),
            ({
                let nxt = effective_index(
                    old(self).index() as int,
                    chan.messages(),
                    chan.capacity_spec() as int,
                );
                if nxt < chan.messages().len() {
                    &&& r is Some
                    &&& r->0 == chan.messages()[nxt]
                    &&& final(self).index() == nxt + 1
                } else {
                    &&& r is None
                    &&& final(self).index() == nxt
                }
            }),
    {
        let len = chan.total;
        let cap = chan.capacity;
        let start = if len - self.cursor > cap {
            len - cap
        } else {
            self.cursor
        };
        self.lost = self.lost + ((start - self.cursor) as u64);
        if start < len {
            self.cursor = start + 1;
            let offset = len - chan.buffer.len();
            Some(&chan.buffer[start - offset])
        } else {
            self.cursor = start;
            None
        }
    }

    /// True when no unread message is currently buffered for this
    /// subscriber.
    pub fn is_empty<T>(&self, chan: &Topic<T>) -> (r: bool)
        requires
            self.wf(chan),
            chan.wf(),
        ensures
            r == (read_at(
                self.index() as int,
                chan.messages(),
                chan.capacity_spec() as int,
            ) is None),
    {
        self.cursor >= chan.total
    }

    /// Return the number of messages dropped from this subscriber's
    /// backlog since the last call, and reset the counter.
    pub fn messages_lost(&mut self) -> (r: u64)
        ensures
            r == old(self).lost(),
            final(self).lost() == 0,
            final(self).index() == old(self).index(),
    {
        let n = self.lost;
        self.lost = 0;
        n
    }
}

/// Publish/subscribe round trip: a subscriber created before a publish
/// reads exactly the published value, and one created after it reads
/// nothing.
///
/// `msgs` is the channel's stream before the publish; a subscriber
/// created at that point has cursor `msgs.len()`, and one created after
/// the publish has cursor `msgs.push(v).len()`.
pub proof fn lemma_round_trip<T>(msgs: Seq<T>, v: T, cap: int)
    requires
        cap >= 1,
    ensures
        read_at(msgs.len() as int, msgs.push(v), cap) == Some(v),
        skipped(msgs.len() as int, msgs.push(v), cap) == 0,
        read_at(msgs.push(v).len() as int, msgs.push(v), cap) is None,
{
}

/// Lag handling: on a channel of capacity 1 whose stream has grown by
/// three messages since the subscriber's cursor, the next read delivers
/// the last published value and skips exactly two.
pub proof fn lemma_lag_skips_to_latest<T>(msgs: Seq<T>, v1: T, v2: T, v3: T)
    ensures
        read_at(msgs.len() as int, msgs.push(v1).push(v2).push(v3), 1) == Some(v3),
        skipped(msgs.len() as int, msgs.push(v1).push(v2).push(v3), 1) == 2,
{
}

/// A read that incurs no lag leaves the lag counter alone, so two
/// consecutive `messages_lost` calls with no intervening lag return 0
/// the second time.
pub proof fn lemma_no_lag_no_loss<T>(cursor: int, msgs: Seq<T>, cap: int)
    requires
        msgs.len() - cursor <= cap,
    ensures
        skipped(cursor, msgs, cap) == 0,
{
}

} // verus!
