//! The workspace strip: the set of workspaces with its active marker, and
//! the reducer that applies queued events to it.
//!
//! The reducer does no I/O.  Where the list of workspaces has to be
//! fetched again it says so in the effect it returns, and the next full
//! state arrives as an event like any other.

use crate::channel::Channel;
use crate::ipc::{ActiveWorkspaceData, IpcEvent, IpcEventView, WorkspaceData};
use vstd::prelude::*;
use vstd::string::*;

verus! {

/// The workspace widget of the bar.
pub struct WorkspacesModule;

/// Signal of the event listener to the widget: something changed.
#[derive(Clone, Copy, Debug)]
pub enum WorkspaceEvent {
    Update,
}

/// One button of the strip.
#[derive(Clone, Copy, Debug)]
pub struct WorkspaceButton {
    pub id: i32,
    pub active: bool,
}

/// The workspaces on show, ordered by id, and the id of the active one.
pub struct WorkspaceSet {
    ids: Vec<i32>,
    active: Option<i32>,
}

/// A [`WorkspaceSet`] as a mathematical value.
pub struct WorkspaceSetView {
    pub ids: Seq<i32>,
    pub active: Option<i32>,
}

impl View for WorkspaceSet {
    type V = WorkspaceSetView;

    closed spec fn view(&self) -> WorkspaceSetView {
        WorkspaceSetView { ids: self.ids@, active: self.active }
    }
}

/// Each element is smaller than the next.
pub open spec fn strictly_increasing(ids: Seq<i32>) -> bool {
    forall|i: int, j: int| 0 <= i < j < ids.len() ==> ids[i] < ids[j]
}

/// Index of the first element at or after `i` that is not below `id`.
pub open spec fn slot(ids: Seq<i32>, id: i32, i: int) -> int
    decreases ids.len() - i,
{
    if 0 <= i < ids.len() && ids[i] < id {
        slot(ids, id, i + 1)
    } else {
        i
    }
}

/// The ordered ids with `id` among them.
pub open spec fn with_id(ids: Seq<i32>, id: i32) -> Seq<i32> {
    let k = slot(ids, id, 0);
    if k < ids.len() && ids[k] == id {
        ids
    } else {
        ids.insert(k, id)
    }
}

/// The ids of `all` that are not below `lowest`, ordered, each once.
pub open spec fn ids_from(all: Seq<WorkspaceData>, lowest: i32) -> Seq<i32>
    decreases all.len(),
{
    if all.len() == 0 {
        Seq::empty()
    } else if all.last().id >= lowest {
        with_id(ids_from(all.drop_last(), lowest), all.last().id)
    } else {
        ids_from(all.drop_last(), lowest)
    }
}

/// Some workspace of `all` has the id `id`.
pub open spec fn reported(all: Seq<WorkspaceData>, id: i32) -> bool {
    exists|k: int| 0 <= k < all.len() && (#[trigger] all[k]).id == id
}

/// `slot` stays within the ids; what stands before it is below `id`, and
/// what stands at it is not.
pub proof fn lemma_slot(ids: Seq<i32>, id: i32, i: int)
    requires
        0 <= i <= ids.len(),
    ensures
        i <= slot(ids, id, i) <= ids.len(),
        forall|k: int| i <= k < slot(ids, id, i) ==> #[trigger] ids[k] < id,
        slot(ids, id, i) < ids.len() ==> ids[slot(ids, id, i)] >= id,
    decreases ids.len() - i,
{
    if i < ids.len() && ids[i] < id {
        lemma_slot(ids, id, i + 1);
    }
}

/// Adding an id to ordered ids keeps them ordered and adds nothing else.
pub proof fn lemma_with_id(ids: Seq<i32>, id: i32)
    requires
        strictly_increasing(ids),
    ensures
        strictly_increasing(with_id(ids, id)),
        forall|x: i32| #[trigger]
            with_id(ids, id).contains(x) <==> (ids.contains(x) || x == id),
{
    let k = slot(ids, id, 0);
    let r = with_id(ids, id);
    lemma_slot(ids, id, 0);
    if k < ids.len() && ids[k] == id {
        assert(ids.contains(id));
    } else {
        assert forall|i: int, j: int| 0 <= i < j < r.len() implies r[i] < r[j] by {
            if j < k {
            } else if j == k {
            } else if i < k {
                assert(ids[i] < id);
                assert(ids[k] >= id);
                assert(k <= j - 1);
            } else if i == k {
                assert(ids[k] >= id);
                assert(k <= j - 1);
            } else {
                assert(r[i] == ids[i - 1]);
                assert(r[j] == ids[j - 1]);
            }
        }
        assert forall|x: i32| r.contains(x) <==> (ids.contains(x) || x == id) by {
            if r.contains(x) {
                let j = choose|j: int| 0 <= j < r.len() && r[j] == x;
                if j < k {
                    assert(ids[j] == x);
                } else if j > k {
                    assert(ids[j - 1] == x);
                }
            }
            if ids.contains(x) {
                let j = choose|j: int| 0 <= j < ids.len() && ids[j] == x;
                if j < k {
                    assert(r[j] == x);
                } else {
                    assert(r[j + 1] == x);
                }
            }
            if x == id {
                assert(r[k] == x);
            }
        }
    }
}

/// The ids on show are ordered, each once, and they are exactly the
/// reported ids that are not below `lowest`.
pub proof fn lemma_ids_from(all: Seq<WorkspaceData>, lowest: i32)
    ensures
        strictly_increasing(ids_from(all, lowest)),
        forall|x: i32| #[trigger]
            ids_from(all, lowest).contains(x) <==> (x >= lowest && reported(all, x)),
    decreases all.len(),
{
    let r = ids_from(all, lowest);
    if all.len() == 0 {
        assert forall|x: i32| r.contains(x) <==> (x >= lowest && reported(all, x)) by {}
    } else {
        let front = all.drop_last();
        let rest = ids_from(front, lowest);
        lemma_ids_from(front, lowest);
        lemma_with_id(rest, all.last().id);
        assert forall|x: i32| r.contains(x) <==> (x >= lowest && reported(all, x)) by {
            if reported(all, x) {
                let k = choose|k: int| 0 <= k < all.len() && (#[trigger] all[k]).id == x;
                if k < all.len() - 1 {
                    assert(front[k].id == x);
                    assert(reported(front, x));
                }
            }
            if reported(front, x) {
                let k = choose|k: int| 0 <= k < front.len() && (#[trigger] front[k]).id == x;
                assert(all[k].id == x);
            }
            if x == all.last().id {
                assert(all[all.len() - 1].id == x);
            }
        }
    }
}

/// Puts `id` at its place among the ordered `ids`, unless it is there.
fn insert_id(ids: &mut Vec<i32>, id: i32)
    ensures
        final(ids)@ == with_id(old(ids)@, id),
{
    let mut k: usize = 0;
    while k < ids.len() && ids[k] < id
        invariant
            k <= ids.len(),
            ids@ == old(ids)@,
            slot(ids@, id, 0) == slot(ids@, id, k as int),
        decreases ids.len() - k,
    {
        k += 1;
    }
    if k < ids.len() && ids[k] == id {
    } else {
        ids.insert(k, id);
    }
}

/// The ordered ids of `all` that are not below `lowest`.
fn collect_ids(all: &Vec<WorkspaceData>, lowest: i32) -> (ids: Vec<i32>)
    ensures
        ids@ == ids_from(all@, lowest),
{
    let mut ids: Vec<i32> = Vec::new();
    let mut i: usize = 0;
    assert(all@.subrange(0, 0) =~= Seq::<WorkspaceData>::empty());
    while i < all.len()
        invariant
            i <= all.len(),
            ids@ == ids_from(all@.subrange(0, i as int), lowest),
        decreases all.len() - i,
    {
        assert(all@.subrange(0, i + 1).drop_last() =~= all@.subrange(0, i as int));
        let id = all[i].id;
        if id >= lowest {
            insert_id(&mut ids, id);
        }
        i += 1;
    }
    assert(all@.subrange(0, all@.len() as int) =~= all@);
    ids
}

impl WorkspaceSetView {
    /// No workspace, and none active.
    pub open spec fn empty() -> WorkspaceSetView {
        WorkspaceSetView { ids: Seq::empty(), active: None }
    }

    /// The set that a full state puts on show: the workspaces with an id
    /// of 0 or more, ordered, and the active id.
    pub open spec fn rebuilt(all: Seq<WorkspaceData>, active: i32) -> WorkspaceSetView {
        WorkspaceSetView { ids: ids_from(all, 0), active: Some(active) }
    }

    /// The same workspaces with the marker on `active`.
    pub open spec fn focused(self, active: i32) -> WorkspaceSetView {
        WorkspaceSetView { ids: self.ids, active: Some(active) }
    }

    /// The buttons on show: one for each id, marked where it is the
    /// active one.
    pub open spec fn buttons(self) -> Seq<WorkspaceButton> {
        Seq::new(
            self.ids.len(),
            |i: int| WorkspaceButton { id: self.ids[i], active: self.active == Some(self.ids[i]) },
        )
    }

    /// The set after `event` was applied.  A full state replaces
    /// everything; a focus change moves only the marker; nothing else
    /// changes the set.
    pub open spec fn after(self, event: IpcEventView) -> WorkspaceSetView {
        match event {
            IpcEventView::DataRefreshed(all, active) => Self::rebuilt(all, active),
            IpcEventView::WorkspaceChanged(id) => self.focused(id),
            IpcEventView::WorkspacesListChanged => self,
            IpcEventView::Error(_) => self,
        }
    }

    /// The set after `events` were applied in order.
    pub open spec fn after_all(self, events: Seq<IpcEventView>) -> WorkspaceSetView
        decreases events.len(),
    {
        if events.len() == 0 {
            self
        } else {
            self.after(events[0]).after_all(events.drop_first())
        }
    }
}

/// What the reducer's driver is to do after an event was applied.
#[derive(Debug)]
pub enum Effect {
    /// The list was replaced: every button is built anew.
    Rebuilt,
    /// Only the marker moved.
    ActiveMoved,
    /// The list changed: fetch the full state again.
    Resync,
    /// A worker reported a failure: log the text.
    Report(String),
}

/// An [`Effect`] as a mathematical value.
pub enum EffectView {
    Rebuilt,
    ActiveMoved,
    Resync,
    Report(Seq<char>),
}

impl View for Effect {
    type V = EffectView;

    open spec fn view(&self) -> EffectView {
        match self {
            Effect::Rebuilt => EffectView::Rebuilt,
            Effect::ActiveMoved => EffectView::ActiveMoved,
            Effect::Resync => EffectView::Resync,
            Effect::Report(text) => EffectView::Report(text@),
        }
    }
}

/// The effect of applying `event`.
pub open spec fn effect_of(event: IpcEventView) -> EffectView {
    match event {
        IpcEventView::DataRefreshed(_, _) => EffectView::Rebuilt,
        IpcEventView::WorkspaceChanged(_) => EffectView::ActiveMoved,
        IpcEventView::WorkspacesListChanged => EffectView::Resync,
        IpcEventView::Error(text) => EffectView::Report(text),
    }
}

/// The views of queued events, element by element.
pub open spec fn event_views(events: Seq<IpcEvent>) -> Seq<IpcEventView> {
    Seq::new(events.len(), |i: int| events[i]@)
}

/// The views of effects, element by element.
pub open spec fn effect_views(effects: Seq<Effect>) -> Seq<EffectView> {
    Seq::new(effects.len(), |i: int| effects[i]@)
}

/// The effects of applying `events` in order.
pub open spec fn effects_of(events: Seq<IpcEventView>) -> Seq<EffectView> {
    Seq::new(events.len(), |i: int| effect_of(events[i]))
}

/// Applying events one after another is applying the first of them and
/// then the rest.
pub proof fn lemma_after_all_push(
    state: WorkspaceSetView,
    events: Seq<IpcEventView>,
    event: IpcEventView,
)
    ensures
        state.after_all(events.push(event)) == state.after_all(events).after(event),
    decreases events.len(),
{
    if events.len() == 0 {
        assert(events.push(event).drop_first() =~= events);
        assert(state.after(event).after_all(events) == state.after(event));
    } else {
        lemma_after_all_push(state.after(events[0]), events.drop_first(), event);
        assert(events.push(event).drop_first() =~= events.drop_first().push(event));
    }
}

/// The last full state wins: after a batch of events that ends with a
/// full state the set shows that state, whatever it showed before and
/// whatever came earlier in the batch.
pub proof fn lemma_last_refresh_wins(
    state: WorkspaceSetView,
    events: Seq<IpcEventView>,
    all: Seq<WorkspaceData>,
    active: i32,
)
    ensures
        state.after_all(events.push(IpcEventView::DataRefreshed(all, active)))
            == WorkspaceSetView::rebuilt(all, active),
{
    lemma_after_all_push(state, events, IpcEventView::DataRefreshed(all, active));
}

/// A focus change leaves the list of workspaces as it is and marks
/// exactly the button of the new active workspace.
pub proof fn lemma_focus_moves_marker_only(state: WorkspaceSetView, id: i32)
    ensures
        state.after(IpcEventView::WorkspaceChanged(id)).ids == state.ids,
        state.after(IpcEventView::WorkspaceChanged(id)).buttons().len() == state.ids.len(),
        forall|i: int|
            0 <= i < state.ids.len() ==> (#[trigger] state.after(
                IpcEventView::WorkspaceChanged(id),
            ).buttons()[i]).active == (state.ids[i] == id),
{
}

impl WorkspaceSet {
    /// The ids are ordered, each once, and none is negative.
    pub open spec fn wf(&self) -> bool {
        &&& strictly_increasing(self@.ids)
        &&& forall|i: int| 0 <= i < self@.ids.len() ==> self@.ids[i] >= 0
    }

    /// A set with no workspace and no active one.
    pub fn new() -> (s: Self)
        ensures
            s@ == WorkspaceSetView::empty(),
            s.wf(),
    {
        WorkspaceSet { ids: Vec::new(), active: None }
    }

    /// The ids on show, in order.
    pub fn ids(&self) -> (ids: &Vec<i32>)
        ensures
            ids@ == self@.ids,
    {
        &self.ids
    }

    /// The id of the active workspace, once one is known.
    pub fn active(&self) -> (a: Option<i32>)
        ensures
            a == self@.active,
    {
        self.active
    }

    /// The buttons on show.
    pub fn buttons(&self) -> (b: Vec<WorkspaceButton>)
        ensures
            b@ == self@.buttons(),
    {
        let mut out: Vec<WorkspaceButton> = Vec::new();
        let mut i: usize = 0;
        while i < self.ids.len()
            invariant
                i <= self.ids.len(),
                out@.len() == i,
                forall|k: int| 0 <= k < i ==> out@[k] == self@.buttons()[k],
            decreases self.ids.len() - i,
        {
            let id = self.ids[i];
            let active = match self.active {
                Some(a) => a == id,
                None => false,
            };
            out.push(WorkspaceButton { id, active });
            i += 1;
        }
        assert(out@ =~= self@.buttons());
        out
    }

    /// Applies one event and says what the driver is to do.
    pub fn apply(&mut self, event: IpcEvent) -> (effect: Effect)
        ensures
            final(self)@ == old(self)@.after(event@),
            effect@ == effect_of(event@),
            old(self).wf() ==> final(self).wf(),
    {
        match event {
            IpcEvent::DataRefreshed(all, active) => {
                self.ids = collect_ids(&all, 0);
                self.active = Some(active);
                proof {
                    lemma_ids_from(all@, 0);
                    let ids = ids_from(all@, 0);
                    assert forall|i: int| 0 <= i < ids.len() implies ids[i] >= 0 by {
                        assert(ids.contains(ids[i]));
                    }
                }
                Effect::Rebuilt
            },
            IpcEvent::WorkspaceChanged(id) => {
                self.active = Some(id);
                Effect::ActiveMoved
            },
            IpcEvent::WorkspacesListChanged => Effect::Resync,
            IpcEvent::Error(text) => Effect::Report(text),
        }
    }
}

/// The periodic consumer of the workspace events.
pub struct Reducer {
    set: WorkspaceSet,
}

impl View for Reducer {
    type V = WorkspaceSetView;

    closed spec fn view(&self) -> WorkspaceSetView {
        self.set@
    }
}

impl Reducer {
    /// A reducer that shows nothing yet.
    pub fn new() -> (r: Self)
        ensures
            r@ == WorkspaceSetView::empty(),
    {
        Reducer { set: WorkspaceSet::new() }
    }

    /// What is on show.
    pub fn workspaces(&self) -> (s: &WorkspaceSet)
        ensures
            s@ == self@,
    {
        &self.set
    }

    /// One tick: takes every queued event, applies them in the order in
    /// which they were sent, and returns their effects in that order.
    /// The channel is left empty; nothing is waited for.
    pub fn on_tick(&mut self, channel: &mut Channel<IpcEvent>) -> (effects: Vec<Effect>)
        ensures
            old(channel).wf() ==> final(channel).wf(),
            final(channel).capacity() == old(channel).capacity(),
            final(channel)@ == Seq::<IpcEvent>::empty(),
            final(self)@ == old(self)@.after_all(event_views(old(channel)@)),
            effect_views(effects@) == effects_of(event_views(old(channel)@)),
    {
        let mut effects: Vec<Effect> = Vec::new();
        assert(effect_views(effects@) + effects_of(event_views(channel@)) =~= effects_of(
            event_views(channel@),
        ));
        loop
            invariant
                old(channel).wf() ==> channel.wf(),
                channel.capacity() == old(channel).capacity(),
                self@.after_all(event_views(channel@)) == old(self)@.after_all(
                    event_views(old(channel)@),
                ),
                effect_views(effects@) + effects_of(event_views(channel@)) == effects_of(
                    event_views(old(channel)@),
                ),
            ensures
                channel@.len() == 0,
            decreases channel@.len(),
        {
            let ghost queued = channel@;
            let ghost done = effect_views(effects@);
            match channel.try_receive() {
                Some(event) => {
                    assert(event_views(queued)[0] == event@);
                    assert(event_views(queued).drop_first() =~= event_views(channel@));
                    let effect = self.set.apply(event);
                    effects.push(effect);
                    assert(effect_views(effects@) + effects_of(event_views(channel@)) =~= done
                        + effects_of(event_views(queued)));
                },
                None => {
                    break ;
                },
            }
        }
        assert(event_views(channel@) =~= Seq::<IpcEventView>::empty());
        assert(effect_views(effects@) + effects_of(event_views(channel@)) =~= effect_views(
            effects@,
        ));
        assert(channel@ =~= Seq::<IpcEvent>::empty());
        effects
    }
}

impl WorkspacesModule {
    /// The outcome of fetching the full state.  `workspaces` and `active`
    /// are the outcomes of the two queries: the text of the failure where
    /// the query could not be run, `None` where its answer could not be
    /// read, else what it answered.  The first failure, in that order, is
    /// the one reported.
    pub fn fetch_full_state(
        workspaces: Result<Option<Vec<WorkspaceData>>, String>,
        active: Result<Option<ActiveWorkspaceData>, String>,
    ) -> (r: Result<(Vec<WorkspaceData>, i32), String>)
        ensures
            match (workspaces, active) {
                (Err(text), _) => r matches Err(t) && t@ == text@,
                (Ok(_), Err(text)) => r matches Err(t) && t@ == text@,
                (Ok(None), Ok(_)) => r matches Err(t) && t@ == "Failed to parse workspaces JSON"@,
                (Ok(Some(_)), Ok(None)) => r matches Err(t) && t@
                    == "Failed to parse activeworkspace JSON"@,
                (Ok(Some(all)), Ok(Some(a))) => r matches Ok(state) && state.0@ == all@
                    && state.1 == a.id,
            },
    {
        match workspaces {
            Err(text) => Err(text),
            Ok(parsed) => match active {
                Err(text) => Err(text),
                Ok(parsed_active) => match parsed {
                    None => Err(String::from_str("Failed to parse workspaces JSON")),
                    Some(all) => match parsed_active {
                        None => Err(String::from_str("Failed to parse activeworkspace JSON")),
                        Some(a) => Ok((all, a.id)),
                    },
                },
            },
        }
    }

    /// The event that reports the outcome of fetching the full state.
    pub fn fetch_event(state: Result<(Vec<WorkspaceData>, i32), String>) -> (event: IpcEvent)
        ensures
            event@ == match state {
                Ok(s) => IpcEventView::DataRefreshed(s.0@, s.1),
                Err(text) => IpcEventView::Error(text@),
            },
    {
        match state {
            Ok(s) => IpcEvent::DataRefreshed(s.0, s.1),
            Err(text) => IpcEvent::Error(text),
        }
    }

    /// The strip for a full state: one button for each workspace with an
    /// id of 0 or more, ordered by id, the active one marked.
    pub fn rebuild_ui(workspaces: Vec<WorkspaceData>, active_id: i32) -> (set: WorkspaceSet)
        ensures
            set@ == WorkspaceSetView::rebuilt(workspaces@, active_id),
            set.wf(),
    {
        let mut set = WorkspaceSet::new();
        set.apply(IpcEvent::DataRefreshed(workspaces, active_id));
        set
    }

    /// Moves the marker to the workspace with the id `active_id`.
    pub fn update_active_state(set: &mut WorkspaceSet, active_id: i32)
        ensures
            final(set)@ == old(set)@.focused(active_id),
            old(set).wf() ==> final(set).wf(),
    {
        set.apply(IpcEvent::WorkspaceChanged(active_id));
    }
}

/// The buttons for a list of workspaces: one for each id, ordered by id,
/// with the marker on the active workspace.
pub fn refresh_ui(workspaces: &Vec<WorkspaceData>, active_id: i32) -> (buttons: Vec<
    WorkspaceButton,
>)
    ensures
        buttons@ == (WorkspaceSetView {
            ids: ids_from(workspaces@, i32::MIN),
            active: Some(active_id),
        }).buttons(),
{
    let set = WorkspaceSet { ids: collect_ids(workspaces, i32::MIN), active: Some(active_id) };
    set.buttons()
}

} // verus!
