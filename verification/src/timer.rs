//! The debounced one-shot timer: a single slot that holds at most one
//! pending handle.  Arming the slot again replaces the handle that was
//! there, so a burst of events ends in one fire after the last of them.

use vstd::prelude::*;

verus! {

/// Token of one armed timer: its number and the time at which it is due,
/// in milliseconds.
#[derive(Clone, Copy, Debug)]
pub struct TimerHandle {
    pub id: u64,
    pub deadline_ms: u64,
}

/// What a slot holds: the pending handle, if any, and the number that the
/// next handle gets.
pub struct TimerModel {
    pub pending: Option<TimerHandle>,
    pub next_id: u64,
}

/// What arming a slot hands back: the new handle, and the handle it
/// replaced, which the caller cancels.
#[derive(Clone, Copy, Debug)]
pub struct ArmOutcome {
    pub armed: TimerHandle,
    pub cancelled: Option<TimerHandle>,
}

/// A cancel-and-replace one-shot timer slot.
pub struct DebouncedTimer {
    pending: Option<TimerHandle>,
    next_id: u64,
}

/// `now + duration`, held to the range of `u64`.
pub open spec fn deadline_after(now_ms: u64, duration_ms: u64) -> u64 {
    if now_ms + duration_ms > u64::MAX {
        u64::MAX
    } else {
        (now_ms + duration_ms) as u64
    }
}

/// The number after `id`, starting over from 0 after the largest.
pub open spec fn id_after(id: u64) -> u64 {
    if id == u64::MAX {
        0
    } else {
        (id + 1) as u64
    }
}

impl TimerModel {
    /// The handle that arming this slot at `now_ms` installs.
    pub open spec fn handle_for(self, now_ms: u64, duration_ms: u64) -> TimerHandle {
        TimerHandle { id: self.next_id, deadline_ms: deadline_after(now_ms, duration_ms) }
    }

    /// The slot after it was armed at `now_ms` for `duration_ms`.
    pub open spec fn arm(self, now_ms: u64, duration_ms: u64) -> TimerModel {
        TimerModel {
            pending: Some(self.handle_for(now_ms, duration_ms)),
            next_id: id_after(self.next_id),
        }
    }

    /// The slot with nothing pending.
    pub open spec fn cleared(self) -> TimerModel {
        TimerModel { pending: None, next_id: self.next_id }
    }

    /// `handle` is the one that is pending: its timeout takes effect.
    pub open spec fn fires(self, handle: TimerHandle) -> bool {
        self.pending == Some(handle)
    }

    /// A handle is pending and its deadline has come at `now_ms`.
    pub open spec fn due(self, now_ms: u64) -> bool {
        match self.pending {
            Some(h) => h.deadline_ms <= now_ms,
            None => false,
        }
    }
}

impl View for DebouncedTimer {
    type V = TimerModel;

    closed spec fn view(&self) -> TimerModel {
        TimerModel { pending: self.pending, next_id: self.next_id }
    }
}

/// Arming a slot twice leaves exactly one pending fire: the first handle
/// is the one handed back for cancelling and no longer takes effect, the
/// second is due exactly from `duration` after the second arming on, and
/// once it has fired nothing is left to fire.
pub proof fn lemma_rearm_fires_once(
    slot: TimerModel,
    first_ms: u64,
    second_ms: u64,
    first_duration: u64,
    second_duration: u64,
)
    ensures
        ({
            let h1 = slot.handle_for(first_ms, first_duration);
            let armed_once = slot.arm(first_ms, first_duration);
            let h2 = armed_once.handle_for(second_ms, second_duration);
            let armed_twice = armed_once.arm(second_ms, second_duration);
            &&& armed_once.pending == Some(h1)
            &&& armed_twice.pending == Some(h2)
            &&& h1 != h2
            &&& !armed_twice.fires(h1)
            &&& armed_twice.fires(h2)
            &&& forall|now: u64|
                armed_twice.due(now) <==> now >= deadline_after(second_ms, second_duration)
            &&& !armed_twice.cleared().fires(h2)
            &&& forall|now: u64| !armed_twice.cleared().due(now)
        }),
{
}

impl DebouncedTimer {
    /// A slot with nothing pending.
    pub fn new() -> (t: Self)
        ensures
            t@ == (TimerModel { pending: None, next_id: 0 }),
    {
        DebouncedTimer { pending: None, next_id: 0 }
    }

    /// The pending handle, if any.
    pub fn pending(&self) -> (h: Option<TimerHandle>)
        ensures
            h == self@.pending,
    {
        self.pending
    }

    /// Arms the slot at `now_ms` for `duration_ms`: whatever was pending
    /// is replaced and handed back for cancelling.
    pub fn arm(&mut self, now_ms: u64, duration_ms: u64) -> (out: ArmOutcome)
        ensures
            final(self)@ == old(self)@.arm(now_ms, duration_ms),
            out.armed == old(self)@.handle_for(now_ms, duration_ms),
            out.cancelled == old(self)@.pending,
    {
        let deadline_ms: u64 = if duration_ms > u64::MAX - now_ms {
            u64::MAX
        } else {
            now_ms + duration_ms
        };
        let armed = TimerHandle { id: self.next_id, deadline_ms };
        let cancelled = self.pending;
        self.pending = Some(armed);
        self.next_id = if self.next_id == u64::MAX {
            0
        } else {
            self.next_id + 1
        };
        ArmOutcome { armed, cancelled }
    }

    /// Clears the slot and hands back the handle that was pending.
    pub fn cancel(&mut self) -> (h: Option<TimerHandle>)
        ensures
            h == old(self)@.pending,
            final(self)@ == old(self)@.cleared(),
    {
        let h = self.pending;
        self.pending = None;
        h
    }

    /// Reports the timeout of `handle`.  Returns whether the timeout takes
    /// effect: it does for the pending handle only, and the slot is
    /// cleared before the caller acts on it.
    pub fn on_fire(&mut self, handle: TimerHandle) -> (run: bool)
        ensures
            run == old(self)@.fires(handle),
            final(self)@ == if run {
                old(self)@.cleared()
            } else {
                old(self)@
            },
    {
        let run = match self.pending {
            Some(h) => h.id == handle.id && h.deadline_ms == handle.deadline_ms,
            None => false,
        };
        if run {
            self.pending = None;
        }
        run
    }

    /// Fires the pending handle if its deadline has come at `now_ms`:
    /// the slot is cleared and the handle returned.
    pub fn poll(&mut self, now_ms: u64) -> (fired: Option<TimerHandle>)
        ensures
            fired == if old(self)@.due(now_ms) {
                old(self)@.pending
            } else {
                None
            },
            final(self)@ == if old(self)@.due(now_ms) {
                old(self)@.cleared()
            } else {
                old(self)@
            },
    {
        match self.pending {
            Some(h) => {
                if h.deadline_ms <= now_ms {
                    self.pending = None;
                    Some(h)
                } else {
                    None
                }
            },
            None => None,
        }
    }
}

} // verus!
