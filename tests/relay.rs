use midi_relay::capsule::MidiCopy;
use midi_relay::relay::{Flow, FullPolicy, Relay};
use std::sync::mpsc::sync_channel;

#[test]
fn events_reach_the_consumer_in_arrival_order() {
    let (tx, rx) = sync_channel::<MidiCopy>(8);
    let mut relay = Relay::new(tx, FullPolicy::DropAndCount);
    assert_eq!(relay.offer(&[0x90, 0x40, 0x7F], 0), Flow::Continue);
    assert_eq!(relay.offer(&[0x80, 0x40, 0x00], 10), Flow::Continue);
    assert_eq!(relay.offer(&[0xB0, 0x07, 0x64, 0x01], 20), Flow::Continue);
    assert_eq!(relay.sent_count(), 3);
    assert_eq!(relay.dropped_count(), 0);
    let got: Vec<(Vec<u8>, u32)> = rx.try_iter().map(|c| (c.bytes(), c.time())).collect();
    assert_eq!(
        got,
        vec![
            (vec![0x90, 0x40, 0x7F], 0),
            (vec![0x80, 0x40, 0x00], 10),
            (vec![0xB0, 0x07, 0x64], 20),
        ]
    );
}

#[test]
fn full_channel_aborts_under_abort_policy() {
    let (tx, rx) = sync_channel::<MidiCopy>(1);
    let mut relay = Relay::new(tx, FullPolicy::Abort);
    assert_eq!(relay.offer(&[0x90, 0x40, 0x7F], 1), Flow::Continue);
    assert_eq!(relay.offer(&[0x80, 0x40, 0x00], 2), Flow::Quit);
    assert_eq!(relay.sent_count(), 1);
    assert_eq!(relay.dropped_count(), 1);
    assert_eq!(rx.try_recv().unwrap().bytes(), vec![0x90, 0x40, 0x7F]);
    assert!(rx.try_recv().is_err());
}

#[test]
fn full_channel_drops_and_counts_under_drop_policy() {
    let (tx, rx) = sync_channel::<MidiCopy>(1);
    let mut relay = Relay::new(tx, FullPolicy::DropAndCount);
    assert_eq!(relay.policy(), FullPolicy::DropAndCount);
    assert_eq!(relay.offer(&[0x90, 0x40, 0x7F], 1), Flow::Continue);
    assert_eq!(relay.offer(&[0x80, 0x40, 0x00], 2), Flow::Continue);
    assert_eq!(relay.offer(&[0x80, 0x41, 0x00], 3), Flow::Continue);
    assert_eq!(relay.sent_count(), 1);
    assert_eq!(relay.dropped_count(), 2);
    let first = rx.try_recv().unwrap();
    assert_eq!(first.bytes(), vec![0x90, 0x40, 0x7F]);
    assert_eq!(first.time(), 1);
    assert!(rx.try_recv().is_err());
}

#[test]
fn full_channel_does_not_block_the_producer() {
    let (tx, _rx) = sync_channel::<MidiCopy>(1);
    let mut relay = Relay::new(tx, FullPolicy::DropAndCount);
    for t in 0..1000u32 {
        assert_eq!(relay.offer(&[0xF8], t), Flow::Continue);
    }
    assert_eq!(relay.sent_count(), 1);
    assert_eq!(relay.dropped_count(), 999);
}

#[test]
fn gone_consumer_stops_the_callback() {
    let (tx, rx) = sync_channel::<MidiCopy>(4);
    drop(rx);
    let mut relay = Relay::new(tx, FullPolicy::DropAndCount);
    assert_eq!(relay.offer(&[0x90, 0x40, 0x7F], 0), Flow::Quit);
    assert_eq!(relay.sent_count(), 0);
    assert_eq!(relay.dropped_count(), 0);
}
