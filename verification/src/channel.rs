//! Append-only event logs with reader cursors.
//!
//! An `EventChannel` is a multi-producer log of events; each consumer owns a
//! `ReaderId` cursor that advances monotonically and never re-reads a
//! delivered event.  The layout engine reads its resize backlog with
//! last-wins semantics (`read_last`) and its visibility backlog losslessly
//! (`read_all`).

use vstd::prelude::*;

verus! {

/// An append-only log of events of one type.
pub struct EventChannel<T> {
    events: Vec<T>,
}

/// A reader cursor into an `EventChannel`: the index of the first unread
/// event.
pub struct ReaderId {
    at: usize,
}

impl ReaderId {
    /// The index of the first event this reader has not seen.
    pub closed spec fn position(self) -> int {
        self.at as int
    }
}

impl<T> View for EventChannel<T> {
    type V = Seq<T>;

    closed spec fn view(&self) -> Seq<T> {
        self.events@
    }
}

impl<T: Copy> EventChannel<T> {
    /// An empty channel.
    pub fn new() -> (c: Self)
        ensures
            c@.len() == 0,
    {
        EventChannel { events: Vec::new() }
    }

    /// Appends one event to the log.
    pub fn single_write(&mut self, ev: T)
        ensures
            final(self)@ == old(self)@.push(ev),
    {
        self.events.push(ev);
    }

    /// A cursor that will see every event written after this call and none
    /// written before.
    pub fn register_reader(&self) -> (r: ReaderId)
        ensures
            r.position() == self@.len(),
    {
        ReaderId { at: self.events.len() }
    }

    /// Reads the whole backlog, keeping only the most recent unread event;
    /// the cursor skips to the end of the log.
    pub fn read_last(&self, r: &mut ReaderId) -> (ev: Option<T>)
        requires
            old(r).position() <= self@.len(),
        ensures
            final(r).position() == self@.len(),
            ev == (if old(r).position() < self@.len() {
                Some(self@.last())
            } else {
                None::<T>
            }),
    {
        let last = if r.at < self.events.len() {
            Some(self.events[self.events.len() - 1])
        } else {
            None
        };
        r.at = self.events.len();
        last
    }

    /// Reads every unread event, in the order written; the cursor skips to
    /// the end of the log.
    pub fn read_all(&self, r: &mut ReaderId) -> (evs: Vec<T>)
        requires
            old(r).position() <= self@.len(),
        ensures
            final(r).position() == self@.len(),
            evs@ == self@.subrange(old(r).position(), self@.len() as int),
    {
        let mut evs: Vec<T> = Vec::new();
        let mut i: usize = r.at;
        while i < self.events.len()
            invariant
                r.at <= i <= self@.len(),
                evs@ == self@.subrange(r.at as int, i as int),
            decreases self@.len() - i,
        {
            evs.push(self.events[i]);
            proof {
                assert(evs@ =~= self@.subrange(r.at as int, i + 1 as int));
            }
            i = i + 1;
        }
        proof {
            assert(evs@ =~= self@.subrange(r.at as int, self@.len() as int));
        }
        r.at = self.events.len();
        evs
    }
}

} // verus!
