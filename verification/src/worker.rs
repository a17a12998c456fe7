//! Polling workers: a worker sleeps for its interval, takes a sample, and
//! sends what came of it, for as long as the program runs.  A sample
//! that failed is sent as an error, and the worker goes on with the next
//! interval.
//!
//! The worker itself neither sleeps nor samples.  It is told that the
//! sleep is over or how the sample ended, and answers with what to do
//! next.

use crate::channel::Channel;
use crate::config::WidgetKind;
use vstd::prelude::*;

verus! {

/// Period of the reducer's tick, in milliseconds.
pub const TICK_MS: u64 = 100;

/// What a polling worker sends: a snapshot, or the text of a failure.
#[derive(Debug)]
pub enum WorkerEvent<S> {
    Snapshot(S),
    Error(String),
}

/// What the worker asks its driver to do next.
#[derive(Clone, Copy, Debug, PartialEq, Eq, Structural)]
pub enum WorkerAction {
    /// Sleep for this many milliseconds.
    Sleep(u64),
    /// Take a sample.
    Sample,
}

/// Where the worker stands.
#[derive(Clone, Copy, Debug, PartialEq, Eq, Structural)]
pub enum WorkerPhase {
    Sleeping,
    Sampling,
}

/// A worker that samples once in every interval.
pub struct PollingWorker {
    interval_ms: u64,
    phase: WorkerPhase,
}

/// A [`PollingWorker`] as a mathematical value.
pub struct PollingWorkerView {
    pub interval_ms: u64,
    pub phase: WorkerPhase,
}

impl View for PollingWorker {
    type V = PollingWorkerView;

    closed spec fn view(&self) -> PollingWorkerView {
        PollingWorkerView { interval_ms: self.interval_ms, phase: self.phase }
    }
}

/// The interval at which the widget of a kind is sampled, in
/// milliseconds: one second for the clock, two for volume, load and
/// media, five for battery and network.  The other widgets are not
/// polled.
pub open spec fn interval_of(kind: WidgetKind) -> Option<u64> {
    match kind {
        WidgetKind::Clock => Some(1000),
        WidgetKind::Audio => Some(2000),
        WidgetKind::SysInfo => Some(2000),
        WidgetKind::Mpris => Some(2000),
        WidgetKind::Battery => Some(5000),
        WidgetKind::Network => Some(5000),
        WidgetKind::Workspaces => None,
        WidgetKind::Power => None,
        WidgetKind::Spacer => None,
    }
}

/// The event that reports how a sample ended.
pub open spec fn event_of<S>(outcome: Result<S, String>) -> WorkerEvent<S> {
    match outcome {
        Ok(snapshot) => WorkerEvent::Snapshot(snapshot),
        Err(text) => WorkerEvent::Error(text),
    }
}

/// The snapshot that was queued last among `events`, if any was.
pub open spec fn last_snapshot<S>(events: Seq<WorkerEvent<S>>) -> Option<S>
    decreases events.len(),
{
    if events.len() == 0 {
        None
    } else {
        match events.last() {
            WorkerEvent::Snapshot(snapshot) => Some(snapshot),
            WorkerEvent::Error(_) => last_snapshot(events.drop_last()),
        }
    }
}

/// The texts of the errors among `events`, in the order of the events.
pub open spec fn error_texts<S>(events: Seq<WorkerEvent<S>>) -> Seq<Seq<char>>
    decreases events.len(),
{
    if events.len() == 0 {
        Seq::empty()
    } else {
        match events.last() {
            WorkerEvent::Snapshot(_) => error_texts(events.drop_last()),
            WorkerEvent::Error(text) => error_texts(events.drop_last()).push(text@),
        }
    }
}

/// The texts of strings, element by element.
pub open spec fn texts(v: Seq<String>) -> Seq<Seq<char>> {
    Seq::new(v.len(), |i: int| v[i]@)
}

impl PollingWorkerView {
    /// What the driver is to do while the worker is in this state.
    pub open spec fn action(self) -> WorkerAction {
        match self.phase {
            WorkerPhase::Sleeping => WorkerAction::Sleep(self.interval_ms),
            WorkerPhase::Sampling => WorkerAction::Sample,
        }
    }
}

/// The interval at which the widget of a kind is sampled.
pub fn poll_interval_ms(kind: WidgetKind) -> (interval: Option<u64>)
    ensures
        interval == interval_of(kind),
{
    match kind {
        WidgetKind::Clock => Some(1000),
        WidgetKind::Audio => Some(2000),
        WidgetKind::SysInfo => Some(2000),
        WidgetKind::Mpris => Some(2000),
        WidgetKind::Battery => Some(5000),
        WidgetKind::Network => Some(5000),
        WidgetKind::Workspaces => None,
        WidgetKind::Power => None,
        WidgetKind::Spacer => None,
    }
}

impl PollingWorker {
    /// A worker that is about to sleep for its first interval.
    pub fn new(interval_ms: u64) -> (w: Self)
        ensures
            w@.interval_ms == interval_ms,
            w@.phase == WorkerPhase::Sleeping,
    {
        PollingWorker { interval_ms, phase: WorkerPhase::Sleeping }
    }

    /// What the driver is to do in the current state.
    pub fn action(&self) -> (a: WorkerAction)
        ensures
            a == self@.action(),
    {
        match self.phase {
            WorkerPhase::Sleeping => WorkerAction::Sleep(self.interval_ms),
            WorkerPhase::Sampling => WorkerAction::Sample,
        }
    }

    /// Reports that the sleep is over: a sample is due.
    pub fn on_wake(&mut self) -> (a: WorkerAction)
        ensures
            final(self)@.interval_ms == old(self)@.interval_ms,
            final(self)@.phase == WorkerPhase::Sampling,
            a == WorkerAction::Sample,
    {
        self.phase = WorkerPhase::Sampling;
        WorkerAction::Sample
    }

    /// Reports how the sample ended.  The snapshot, or the error that
    /// tells of the failure, is queued on the channel unless the channel
    /// is full; either way the worker sleeps for its next interval.  A
    /// report that was not asked for changes nothing.
    pub fn on_sample<S>(
        &mut self,
        outcome: Result<S, String>,
        channel: &mut Channel<WorkerEvent<S>>,
    ) -> (a: WorkerAction)
        ensures
            old(channel).wf() ==> final(channel).wf(),
            final(channel).capacity() == old(channel).capacity(),
            final(self)@.interval_ms == old(self)@.interval_ms,
            final(self)@.phase == WorkerPhase::Sleeping,
            a == WorkerAction::Sleep(old(self)@.interval_ms),
            final(channel)@ == if old(self)@.phase == WorkerPhase::Sampling && !old(channel).is_full() {
                old(channel)@.push(event_of(outcome))
            } else {
                old(channel)@
            },
    {
        match self.phase {
            WorkerPhase::Sampling => {
                let event = match outcome {
                    Ok(snapshot) => WorkerEvent::Snapshot(snapshot),
                    Err(text) => WorkerEvent::Error(text),
                };
                let _ = channel.try_send(event);
                self.phase = WorkerPhase::Sleeping;
            },
            WorkerPhase::Sleeping => {},
        }
        WorkerAction::Sleep(self.interval_ms)
    }
}

/// Takes every queued event of a worker and hands out what the reducer
/// shows of them: the snapshot that was queued last, whatever was queued
/// before or behind it, and the texts of the errors in the order in
/// which they were queued.  The channel is left empty.
pub fn latest_snapshot<S>(channel: &mut Channel<WorkerEvent<S>>) -> (r: (Option<S>, Vec<String>))
    ensures
        old(channel).wf() ==> final(channel).wf(),
        final(channel).capacity() == old(channel).capacity(),
        final(channel)@ == Seq::<WorkerEvent<S>>::empty(),
        r.0 == last_snapshot(old(channel)@),
        texts(r.1@) == error_texts(old(channel)@),
{
    let mut latest: Option<S> = None;
    let mut errors: Vec<String> = Vec::new();
    let ghost mut done: Seq<WorkerEvent<S>> = Seq::empty();
    assert(done + channel@ =~= old(channel)@);
    assert(texts(errors@) =~= error_texts(done));
    loop
        invariant
            old(channel).wf() ==> channel.wf(),
            channel.capacity() == old(channel).capacity(),
            done + channel@ == old(channel)@,
            latest == last_snapshot(done),
            texts(errors@) == error_texts(done),
        ensures
            channel@.len() == 0,
        decreases channel@.len(),
    {
        let ghost queued = channel@;
        match channel.try_receive() {
            Some(event) => {
                proof {
                    assert(done.push(event) + channel@ =~= done + queued);
                    assert(done.push(event).drop_last() =~= done);
                    done = done.push(event);
                }
                match event {
                    WorkerEvent::Snapshot(snapshot) => {
                        latest = Some(snapshot);
                    },
                    WorkerEvent::Error(text) => {
                        let ghost before = texts(errors@);
                        errors.push(text);
                        assert(texts(errors@) =~= before.push(text@));
                    },
                }
            },
            None => {
                break ;
            },
        }
    }
    assert(done =~= done + channel@);
    assert(channel@ =~= Seq::<WorkerEvent<S>>::empty());
    (latest, errors)
}

} // verus!
