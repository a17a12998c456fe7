use finshell::channel::Channel;
use finshell::ipc::{ActiveWorkspaceData, IpcEvent, WorkspaceData};
use finshell::workspaces::{refresh_ui, Effect, Reducer, WorkspaceSet, WorkspacesModule};

fn ws(ids: &[i32]) -> Vec<WorkspaceData> {
    ids.iter().map(|&id| WorkspaceData { id }).collect()
}

fn shown(set: &WorkspaceSet) -> Vec<(i32, bool)> {
    set.buttons().iter().map(|b| (b.id, b.active)).collect()
}

#[test]
fn a_full_state_is_shown_in_the_order_of_the_ids() {
    let set = WorkspacesModule::rebuild_ui(ws(&[3, 1, 2]), 2);
    assert_eq!(set.ids(), &vec![1, 2, 3]);
    assert_eq!(set.active(), Some(2));
    assert_eq!(shown(&set), vec![(1, false), (2, true), (3, false)]);
}

#[test]
fn special_workspaces_are_not_shown_and_each_id_once() {
    let set = WorkspacesModule::rebuild_ui(ws(&[5, -98, 0, 5, 2, -1, 2]), 5);
    assert_eq!(set.ids(), &vec![0, 2, 5]);
    assert_eq!(shown(&set), vec![(0, false), (2, false), (5, true)]);
    let set = WorkspacesModule::rebuild_ui(ws(&[]), 1);
    assert!(set.ids().is_empty());
    assert!(set.buttons().is_empty());
}

#[test]
fn a_focus_change_moves_only_the_marker() {
    let mut set = WorkspacesModule::rebuild_ui(ws(&[1, 2, 3]), 1);
    WorkspacesModule::update_active_state(&mut set, 3);
    assert_eq!(set.ids(), &vec![1, 2, 3]);
    assert_eq!(shown(&set), vec![(1, false), (2, false), (3, true)]);
    // A workspace that is not on show takes the marker off every button.
    WorkspacesModule::update_active_state(&mut set, 9);
    assert_eq!(shown(&set), vec![(1, false), (2, false), (3, false)]);
    assert_eq!(set.active(), Some(9));
}

#[test]
fn the_effects_tell_the_driver_what_to_do() {
    let mut set = WorkspaceSet::new();
    assert!(set.ids().is_empty());
    assert_eq!(set.active(), None);
    assert!(matches!(set.apply(IpcEvent::WorkspacesListChanged), Effect::Resync));
    assert!(set.ids().is_empty());
    assert!(matches!(set.apply(IpcEvent::DataRefreshed(ws(&[2, 1]), 1)), Effect::Rebuilt));
    assert!(matches!(set.apply(IpcEvent::WorkspaceChanged(2)), Effect::ActiveMoved));
    assert!(
        matches!(set.apply(IpcEvent::Error("boom".to_string())), Effect::Report(m) if m == "boom")
    );
    assert_eq!(shown(&set), vec![(1, false), (2, true)]);
}

#[test]
fn one_tick_applies_the_whole_backlog_in_order() {
    let mut channel: Channel<IpcEvent> = Channel::unbounded();
    let mut reducer = Reducer::new();
    assert!(reducer.on_tick(&mut channel).is_empty());
    let sent = vec![
        IpcEvent::DataRefreshed(ws(&[1, 2]), 1),
        IpcEvent::WorkspaceChanged(2),
        IpcEvent::WorkspacesListChanged,
        IpcEvent::Error("late".to_string()),
        IpcEvent::WorkspaceChanged(1),
    ];
    for e in sent {
        assert!(channel.try_send(e).is_ok());
    }
    let effects = reducer.on_tick(&mut channel);
    assert_eq!(effects.len(), 5);
    assert!(matches!(effects[0], Effect::Rebuilt));
    assert!(matches!(effects[1], Effect::ActiveMoved));
    assert!(matches!(effects[2], Effect::Resync));
    assert!(matches!(&effects[3], Effect::Report(m) if m == "late"));
    assert!(matches!(effects[4], Effect::ActiveMoved));
    assert!(channel.is_empty());
    assert_eq!(shown(reducer.workspaces()), vec![(1, true), (2, false)]);
    assert!(reducer.on_tick(&mut channel).is_empty());
}

#[test]
fn the_last_full_state_wins() {
    let mut channel: Channel<IpcEvent> = Channel::unbounded();
    let mut reducer = Reducer::new();
    for e in [
        IpcEvent::DataRefreshed(ws(&[1, 2, 3]), 3),
        IpcEvent::WorkspaceChanged(1),
        IpcEvent::DataRefreshed(ws(&[7, 4]), 7),
    ] {
        assert!(channel.try_send(e).is_ok());
    }
    reducer.on_tick(&mut channel);
    assert_eq!(shown(reducer.workspaces()), vec![(4, false), (7, true)]);
}

#[test]
fn a_list_change_before_the_first_state_asks_for_a_fetch() {
    let mut channel: Channel<IpcEvent> = Channel::unbounded();
    let mut reducer = Reducer::new();
    assert!(channel.try_send(IpcEvent::WorkspacesListChanged).is_ok());
    let effects = reducer.on_tick(&mut channel);
    assert!(matches!(effects[..], [Effect::Resync]));
    assert!(reducer.workspaces().ids().is_empty());
}

#[test]
fn the_first_failure_of_a_fetch_is_reported() {
    let all = || Ok(Some(ws(&[1, 2])));
    let active = || Ok(Some(ActiveWorkspaceData { id: 2 }));
    let (list, id) = WorkspacesModule::fetch_full_state(all(), active()).unwrap();
    assert_eq!(list.iter().map(|w| w.id).collect::<Vec<_>>(), vec![1, 2]);
    assert_eq!(id, 2);
    let e = WorkspacesModule::fetch_full_state(Err("no hyprctl".to_string()), Ok(None));
    assert_eq!(e.unwrap_err(), "no hyprctl");
    let e = WorkspacesModule::fetch_full_state(Ok(None), Err("spawn failed".to_string()));
    assert_eq!(e.unwrap_err(), "spawn failed");
    let e = WorkspacesModule::fetch_full_state(Ok(None), Ok(None));
    assert_eq!(e.unwrap_err(), "Failed to parse workspaces JSON");
    let e = WorkspacesModule::fetch_full_state(Ok(None), active());
    assert_eq!(e.unwrap_err(), "Failed to parse workspaces JSON");
    let e = WorkspacesModule::fetch_full_state(all(), Ok(None));
    assert_eq!(e.unwrap_err(), "Failed to parse activeworkspace JSON");
}

#[test]
fn the_outcome_of_a_fetch_becomes_an_event() {
    let e = WorkspacesModule::fetch_event(Ok((ws(&[4, 5]), 5)));
    assert!(matches!(&e, IpcEvent::DataRefreshed(all, 5) if all.len() == 2 && all[0].id == 4));
    let e = WorkspacesModule::fetch_event(Err("bad".to_string()));
    assert!(matches!(&e, IpcEvent::Error(m) if m == "bad"));
}

#[test]
fn the_plain_strip_keeps_special_workspaces() {
    let buttons = refresh_ui(&ws(&[3, -98, 1]), 1);
    let shown: Vec<(i32, bool)> = buttons.iter().map(|b| (b.id, b.active)).collect();
    assert_eq!(shown, vec![(-98, false), (1, true), (3, false)]);
}
