//! The fan-in hand-off from shard readers to the single downstream
//! consumer, modelled as an ordered queue with an explicit closed flag.
//! The contracts state the channel's rules: sending appends the event, in
//! order, and fails exactly when the consumer side has been closed — a
//! severed sink is fatal to the sender; receiving yields the oldest event
//! first, so events keep the order in which each producer sent them. The
//! concurrent run in the surrounding program uses an unbounded
//! multi-producer single-consumer channel obeying these same rules.

use vstd::prelude::*;

use crate::event::Event;

verus! {

/// The fan-in channel: pure hand-off, no filtering or transformation.
pub struct Dispatcher {
    /// Events sent and not yet received, oldest first.
    pub queue: Vec<Event>,
    /// Whether the consumer end has been closed.
    pub closed: bool,
}

impl Dispatcher {
    /// An open channel holding nothing.
    pub fn new() -> (r: Dispatcher)
        ensures
            r.queue@ == Seq::<Event>::empty(),
            !r.closed,
    {
        Dispatcher { queue: Vec::new(), closed: false }
    }

    /// Send an event: appended behind the events already queued, never
    /// blocking the producer. Fails exactly when the consumer is gone, and
    /// then hands the event back untouched.
    pub fn send(&mut self, event: Event) -> (r: Result<(), Event>)
        ensures
            !old(self).closed ==> r is Ok && final(self).queue@ == old(self).queue@.push(event)
                && !final(self).closed,
            old(self).closed ==> (r matches Err(e) && e == event) && *final(self) == *old(self),
    {
        if self.closed {
            Err(event)
        } else {
            self.queue.push(event);
            Ok(())
        }
    }

    /// Receive the oldest queued event, if any.
    pub fn recv(&mut self) -> (r: Option<Event>)
        ensures
            old(self).queue@.len() == 0 ==> r is None && *final(self) == *old(self),
            old(self).queue@.len() > 0 ==> (r matches Some(e) && e == old(self).queue@[0])
                && final(self).queue@ == old(self).queue@.drop_first() && final(self).closed == old(
                self,
            ).closed,
    {
        if self.queue.len() == 0 {
            None
        } else {
            let e = self.queue.remove(0);
            proof {
                assert(self.queue@ =~= old(self).queue@.drop_first());
            }
            Some(e)
        }
    }

    /// Close the consumer end: later sends fail; queued events stay
    /// receivable.
    pub fn close(&mut self)
        ensures
            final(self).closed,
            final(self).queue@ == old(self).queue@,
    {
        self.closed = true;
    }
}

} // verus!
