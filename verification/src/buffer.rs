//! The bounded event store: the most recent events, in arrival order, with
//! strict FIFO eviction once the fixed capacity is reached.
//!
//! The buffer itself is a plain value; it is meant to be constructed once,
//! explicitly, and injected behind whatever mutual exclusion the surrounding
//! program uses (producers append, one consumer at a time reads). Every
//! operation here is a short, bounded mutation, so an exclusive section
//! around a call is held only as long as strictly necessary.

use vstd::prelude::*;

use crate::event::Event;

verus! {

/// What one append leaves in a buffer of capacity `cap`: the event goes to
/// the logical tail, and when the buffer is already full the single oldest
/// entry is evicted first.
pub open spec fn appended(buf: Seq<Event>, cap: nat, e: Event) -> Seq<Event> {
    if buf.len() >= cap {
        buf.drop_first().push(e)
    } else {
        buf.push(e)
    }
}

/// The contents after a whole sequence of appends into an initially empty
/// buffer of capacity `cap`.
pub open spec fn buffer_after(appends: Seq<Event>, cap: nat) -> Seq<Event>
    decreases appends.len(),
{
    if appends.len() == 0 {
        Seq::<Event>::empty()
    } else {
        appended(buffer_after(appends.drop_last(), cap), cap, appends.last())
    }
}

/// The `cap` most recently appended events (all of them, when fewer came).
pub open spec fn fifo_retained(appends: Seq<Event>, cap: nat) -> Seq<Event> {
    if appends.len() <= cap {
        appends
    } else {
        appends.skip(appends.len() - cap)
    }
}

/// FIFO eviction correctness: after any sequence of appends into an empty
/// buffer of capacity `cap`, the buffer holds exactly the `cap` most recent
/// events, in arrival order, and its length never exceeds `cap`.
pub proof fn lemma_fifo_retention(appends: Seq<Event>, cap: nat)
    requires
        cap >= 1,
    ensures
        buffer_after(appends, cap) == fifo_retained(appends, cap),
        buffer_after(appends, cap).len() <= cap,
    decreases appends.len(),
{
    if appends.len() == 0 {
    } else {
        let s = appends.drop_last();
        let e = appends.last();
        lemma_fifo_retention(s, cap);
        if s.len() < cap {
            assert(fifo_retained(s, cap) == s);
            assert(s.push(e) =~= appends);
            assert(fifo_retained(appends, cap) == appends);
        } else {
            assert(fifo_retained(s, cap) =~= s.skip(s.len() - cap));
            assert(fifo_retained(s, cap).len() == cap);
            assert(buffer_after(appends, cap) == fifo_retained(s, cap).drop_first().push(e));
            assert(fifo_retained(s, cap).drop_first().push(e) =~= appends.skip(
                appends.len() - cap,
            ));
        }
    }
}

/// The bounded, most-recent window of events.
pub struct EventBuffer {
    events: Vec<Event>,
    capacity: usize,
}

impl View for EventBuffer {
    type V = Seq<Event>;

    /// The retained events, oldest first.
    closed spec fn view(&self) -> Seq<Event> {
        self.events@
    }
}

impl EventBuffer {
    /// The fixed capacity the buffer was created with.
    pub closed spec fn cap(&self) -> nat {
        self.capacity as nat
    }

    /// The buffer invariant: at least one slot, and never more events than
    /// the capacity allows.
    pub open spec fn wf(&self) -> bool {
        self.cap() >= 1 && self@.len() <= self.cap()
    }

    /// An empty buffer bounded at `capacity` events.
    pub fn new(capacity: usize) -> (r: EventBuffer)
        requires
            capacity >= 1,
        ensures
            r.wf(),
            r.cap() == capacity,
            r@ =~= Seq::<Event>::empty(),
    {
        EventBuffer { events: Vec::new(), capacity }
    }

    /// The fixed capacity.
    pub fn capacity(&self) -> (r: usize)
        ensures
            r == self.cap(),
    {
        self.capacity
    }

    /// How many events are currently retained.
    pub fn len(&self) -> (r: usize)
        ensures
            r == self@.len(),
    {
        self.events.len()
    }

    /// The `i`-th retained event, oldest first.
    pub fn get(&self, i: usize) -> (r: &Event)
        requires
            i < self@.len(),
        ensures
            *r == self@[i as int],
    {
        &self.events[i]
    }

    /// The consumer's consistent read view of the retained events, oldest
    /// first. Exclusive access for the duration of the borrow is the
    /// caller's (its lock's) business.
    pub fn events(&self) -> (r: &Vec<Event>)
        ensures
            r@ == self@,
    {
        &self.events
    }

    /// Inserts `e` at the logical tail; when the buffer is full, evicts
    /// exactly the single oldest entry first. Never grows past capacity and
    /// never drops the new event.
    pub fn append(&mut self, e: Event)
        requires
            old(self).wf(),
        ensures
            final(self).wf(),
            final(self).cap() == old(self).cap(),
            final(self)@ == appended(old(self)@, old(self).cap(), e),
    {
        if self.events.len() == self.capacity {
            self.events.remove(0);
            proof {
                assert(self.events@ =~= old(self)@.drop_first());
            }
        }
        self.events.push(e);
    }

    /// Consumption-time maintenance: evicts the single oldest entry iff the
    /// buffer is over capacity at this moment. On a well-formed buffer this
    /// is a no-op, so running it after append-time eviction never
    /// double-evicts, and it never reorders the remaining entries.
    pub fn maintain(&mut self)
        ensures
            final(self).cap() == old(self).cap(),
            final(self)@ == if old(self)@.len() > old(self).cap() {
                old(self)@.drop_first()
            } else {
                old(self)@
            },
            old(self).wf() ==> final(self)@ == old(self)@,
    {
        if self.events.len() > self.capacity {
            self.events.remove(0);
            proof {
                assert(self.events@ =~= old(self)@.drop_first());
            }
        }
    }

    /// Full-buffer reset: drops every retained event.
    pub fn clear(&mut self)
        ensures
            final(self).cap() == old(self).cap(),
            final(self)@ =~= Seq::<Event>::empty(),
    {
        self.events.clear();
    }
}

} // verus!
