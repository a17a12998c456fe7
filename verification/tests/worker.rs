use finshell::channel::Channel;
use finshell::config::WidgetKind;
use finshell::worker::{
    latest_snapshot, poll_interval_ms, PollingWorker, WorkerAction, WorkerEvent, TICK_MS,
};

#[test]
fn each_widget_has_its_interval() {
    assert_eq!(poll_interval_ms(WidgetKind::Clock), Some(1000));
    assert_eq!(poll_interval_ms(WidgetKind::Audio), Some(2000));
    assert_eq!(poll_interval_ms(WidgetKind::SysInfo), Some(2000));
    assert_eq!(poll_interval_ms(WidgetKind::Mpris), Some(2000));
    assert_eq!(poll_interval_ms(WidgetKind::Battery), Some(5000));
    assert_eq!(poll_interval_ms(WidgetKind::Network), Some(5000));
    assert_eq!(poll_interval_ms(WidgetKind::Workspaces), None);
    assert_eq!(poll_interval_ms(WidgetKind::Power), None);
    assert_eq!(poll_interval_ms(WidgetKind::Spacer), None);
    assert_eq!(TICK_MS, 100);
}

#[test]
fn a_worker_sleeps_samples_and_sends() {
    let mut channel: Channel<WorkerEvent<u8>> = Channel::unbounded();
    let mut w = PollingWorker::new(2000);
    assert_eq!(w.action(), WorkerAction::Sleep(2000));
    assert_eq!(w.on_wake(), WorkerAction::Sample);
    assert_eq!(w.action(), WorkerAction::Sample);
    assert_eq!(w.on_sample(Ok(42), &mut channel), WorkerAction::Sleep(2000));
    assert_eq!(w.action(), WorkerAction::Sleep(2000));
    assert!(matches!(channel.try_receive(), Some(WorkerEvent::Snapshot(42))));
    assert!(channel.is_empty());
}

#[test]
fn a_failed_sample_is_sent_as_an_error_and_the_worker_goes_on() {
    let mut channel: Channel<WorkerEvent<u8>> = Channel::unbounded();
    let mut w = PollingWorker::new(5000);
    w.on_wake();
    let next = w.on_sample(Err("probe missing".to_string()), &mut channel);
    assert_eq!(next, WorkerAction::Sleep(5000));
    assert_eq!(w.on_wake(), WorkerAction::Sample);
    assert_eq!(w.on_sample(Ok(7), &mut channel), WorkerAction::Sleep(5000));
    let events = channel.drain();
    assert_eq!(events.len(), 2);
    assert!(matches!(&events[0], WorkerEvent::Error(m) if m == "probe missing"));
    assert!(matches!(events[1], WorkerEvent::Snapshot(7)));
}

#[test]
fn a_sample_that_was_not_asked_for_is_not_sent() {
    let mut channel: Channel<WorkerEvent<u8>> = Channel::unbounded();
    let mut w = PollingWorker::new(1000);
    assert_eq!(w.on_sample(Ok(1), &mut channel), WorkerAction::Sleep(1000));
    assert!(channel.is_empty());
}

#[test]
fn a_full_channel_drops_the_sample() {
    let mut channel: Channel<WorkerEvent<u8>> = Channel::bounded(1);
    let mut w = PollingWorker::new(1000);
    w.on_wake();
    w.on_sample(Ok(1), &mut channel);
    w.on_wake();
    assert_eq!(w.on_sample(Ok(2), &mut channel), WorkerAction::Sleep(1000));
    assert_eq!(channel.len(), 1);
    assert!(matches!(channel.drain_latest(), Some(WorkerEvent::Snapshot(1))));
}

#[test]
fn the_last_snapshot_is_shown_whatever_is_queued_behind_it() {
    let mut channel: Channel<WorkerEvent<u8>> = Channel::unbounded();
    let (latest, errors) = latest_snapshot(&mut channel);
    assert_eq!(latest, None);
    assert!(errors.is_empty());
    for event in [
        WorkerEvent::Error("first".to_string()),
        WorkerEvent::Snapshot(1),
        WorkerEvent::Snapshot(2),
        WorkerEvent::Error("second".to_string()),
        WorkerEvent::Error("third".to_string()),
    ] {
        assert!(channel.try_send(event).is_ok());
    }
    let (latest, errors) = latest_snapshot(&mut channel);
    assert_eq!(latest, Some(2));
    assert_eq!(errors, vec!["first", "second", "third"]);
    assert!(channel.is_empty());
    assert!(channel.try_send(WorkerEvent::Error("only".to_string())).is_ok());
    let (latest, errors) = latest_snapshot(&mut channel);
    assert_eq!(latest, None);
    assert_eq!(errors, vec!["only"]);
}
