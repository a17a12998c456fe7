//! The hand-off queue between workers and the reducer.
//!
//! A channel keeps the events in the order in which they were sent.  The
//! receiving side never waits: it takes what is queued and returns.

use std::collections::VecDeque;
use vstd::prelude::*;

verus! {

/// A first-in, first-out queue of events, unbounded or with a fixed
/// capacity.  Its view is the queued events, oldest first.
pub struct Channel<T> {
    queue: VecDeque<T>,
    limit: Option<usize>,
}

impl<T> View for Channel<T> {
    type V = Seq<T>;

    closed spec fn view(&self) -> Seq<T> {
        self.queue@
    }
}

/// The queue after `events` were sent onto `queue` one after another.
pub open spec fn after_sends<T>(queue: Seq<T>, events: Seq<T>) -> Seq<T>
    decreases events.len(),
{
    if events.len() == 0 {
        queue
    } else {
        after_sends(queue.push(events[0]), events.drop_first())
    }
}

/// Events sent one after another are queued behind what was there, in
/// the order in which they were sent; so one drain of a channel that was
/// empty before hands out exactly the events sent, in send order.
pub proof fn lemma_sends_keep_order<T>(queue: Seq<T>, events: Seq<T>)
    ensures
        after_sends(queue, events) == queue + events,
        after_sends(Seq::<T>::empty(), events) == events,
    decreases events.len(), queue.len(),
{
    if events.len() == 0 {
        assert(queue + events =~= queue);
    } else {
        lemma_sends_keep_order(queue.push(events[0]), events.drop_first());
        assert(queue.push(events[0]) + events.drop_first() =~= queue + events);
    }
    if queue.len() > 0 {
        lemma_sends_keep_order(Seq::<T>::empty(), events);
    } else {
        assert(queue + events =~= events);
        assert(queue =~= Seq::<T>::empty());
    }
}

impl<T> Channel<T> {
    /// The capacity the channel was made with; `None` for an unbounded
    /// channel.
    pub closed spec fn capacity(&self) -> Option<usize> {
        self.limit
    }

    /// A bounded channel never holds more events than its capacity.
    pub open spec fn wf(&self) -> bool {
        match self.capacity() {
            Some(n) => self@.len() <= n,
            None => true,
        }
    }

    /// No further event can be queued.
    pub open spec fn is_full(&self) -> bool {
        match self.capacity() {
            Some(n) => self@.len() >= n,
            None => false,
        }
    }

    /// An empty channel without a capacity limit.
    pub fn unbounded() -> (ch: Self)
        ensures
            ch.wf(),
            ch@ == Seq::<T>::empty(),
            ch.capacity() is None,
    {
        Channel { queue: VecDeque::new(), limit: None }
    }

    /// An empty channel that holds at most `capacity` events.
    pub fn bounded(capacity: usize) -> (ch: Self)
        ensures
            ch.wf(),
            ch@ == Seq::<T>::empty(),
            ch.capacity() == Some(capacity),
    {
        Channel { queue: VecDeque::new(), limit: Some(capacity) }
    }

    /// Number of queued events.
    pub fn len(&self) -> (n: usize)
        ensures
            n == self@.len(),
    {
        self.queue.len()
    }

    /// Whether nothing is queued.
    pub fn is_empty(&self) -> (b: bool)
        ensures
            b == (self@.len() == 0),
    {
        self.queue.len() == 0
    }

    /// Queues `event` behind the events already there.  A full channel
    /// hands the event back and stays as it is.
    pub fn try_send(&mut self, event: T) -> (r: Result<(), T>)
        ensures
            old(self).wf() ==> final(self).wf(),
            final(self).capacity() == old(self).capacity(),
            match r {
                Ok(_) => !old(self).is_full() && final(self)@ == old(self)@.push(event),
                Err(back) => old(self).is_full() && back == event && final(self)@ == old(self)@,
            },
    {
        let full = match self.limit {
            Some(n) => self.queue.len() >= n,
            None => false,
        };
        if full {
            Err(event)
        } else {
            self.queue.push_back(event);
            Ok(())
        }
    }

    /// Takes the oldest queued event, or returns `None` at once when the
    /// channel is empty.
    pub fn try_receive(&mut self) -> (r: Option<T>)
        ensures
            old(self).wf() ==> final(self).wf(),
            final(self).capacity() == old(self).capacity(),
            match r {
                Some(event) => old(self)@.len() > 0 && event == old(self)@[0] && final(self)@
                    == old(self)@.drop_first(),
                None => old(self)@.len() == 0 && final(self)@ == old(self)@,
            },
    {
        let r = self.queue.pop_front();
        proof {
            if r is Some {
                assert(old(self)@.subrange(1, old(self)@.len() as int) =~= old(self)@.drop_first());
            }
        }
        r
    }

    /// Takes every queued event, oldest first, and leaves the channel
    /// empty.
    pub fn drain(&mut self) -> (events: Vec<T>)
        ensures
            old(self).wf() ==> final(self).wf(),
            final(self).capacity() == old(self).capacity(),
            events@ == old(self)@,
            final(self)@ == Seq::<T>::empty(),
    {
        let mut events: Vec<T> = Vec::new();
        loop
            invariant
                old(self).wf() ==> self.wf(),
                self.capacity() == old(self).capacity(),
                events@ + self@ == old(self)@,
            ensures
                self@.len() == 0,
            decreases self@.len(),
        {
            match self.try_receive() {
                Some(event) => {
                    let ghost before = events@;
                    events.push(event);
                    assert(events@ + self@ =~= old(self)@) by {
                        assert(before.push(event) + self@ =~= before + (seq![event] + self@));
                    }
                },
                None => {
                    break ;
                },
            }
        }
        assert(events@ =~= events@ + self@);
        assert(self@ =~= Seq::<T>::empty());
        events
    }

    /// Takes every queued event and returns the newest, if there was one:
    /// of several snapshots of one kind only the last one counts.
    pub fn drain_latest(&mut self) -> (latest: Option<T>)
        ensures
            old(self).wf() ==> final(self).wf(),
            final(self).capacity() == old(self).capacity(),
            final(self)@ == Seq::<T>::empty(),
            match latest {
                Some(event) => old(self)@.len() > 0 && event == old(self)@.last(),
                None => old(self)@.len() == 0,
            },
    {
        let mut events = self.drain();
        events.pop()
    }
}

} // verus!
