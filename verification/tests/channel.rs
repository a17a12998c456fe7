use finshell::channel::Channel;

#[test]
fn five_events_come_out_of_one_drain_in_send_order() {
    let mut ch: Channel<u32> = Channel::unbounded();
    for i in 0..5u32 {
        assert!(ch.try_send(10 + i).is_ok());
    }
    assert_eq!(ch.len(), 5);
    let events = ch.drain();
    assert_eq!(events, vec![10, 11, 12, 13, 14]);
    assert!(ch.is_empty());
    assert!(ch.drain().is_empty());
}

#[test]
fn receiving_from_an_empty_channel_returns_at_once() {
    let mut ch: Channel<u8> = Channel::unbounded();
    assert_eq!(ch.try_receive(), None);
    assert!(ch.try_send(1).is_ok());
    assert!(ch.try_send(2).is_ok());
    assert_eq!(ch.try_receive(), Some(1));
    assert_eq!(ch.try_receive(), Some(2));
    assert_eq!(ch.try_receive(), None);
}

#[test]
fn a_full_channel_hands_the_event_back() {
    let mut ch: Channel<&str> = Channel::bounded(2);
    assert_eq!(ch.try_send("a"), Ok(()));
    assert_eq!(ch.try_send("b"), Ok(()));
    assert_eq!(ch.try_send("c"), Err("c"));
    assert_eq!(ch.len(), 2);
    assert_eq!(ch.try_receive(), Some("a"));
    assert_eq!(ch.try_send("d"), Ok(()));
    assert_eq!(ch.drain(), vec!["b", "d"]);
}

#[test]
fn a_channel_without_room_takes_nothing() {
    let mut ch: Channel<u8> = Channel::bounded(0);
    assert_eq!(ch.try_send(7), Err(7));
    assert!(ch.is_empty());
}

#[test]
fn the_latest_snapshot_wins() {
    let mut ch: Channel<u32> = Channel::unbounded();
    assert_eq!(ch.drain_latest(), None);
    for i in 1..=3u32 {
        assert!(ch.try_send(i).is_ok());
    }
    assert_eq!(ch.drain_latest(), Some(3));
    assert!(ch.is_empty());
}
