use midi_relay::capsule::MidiCopy;
use midi_relay::relay::{Flow, FullPolicy, Relay, SendOutcome};
use midi_relay::session::{link_step, CaptureSession, LinkAction, LinkState};
use std::sync::mpsc::sync_channel;

#[test]
fn connection_is_attempted_only_when_unlinked() {
    assert_eq!(link_step(LinkState::Unlinked), LinkAction::Connect);
    assert_eq!(link_step(LinkState::Linked), LinkAction::Skip);
    assert_eq!(link_step(LinkState::Unresolved), LinkAction::Skip);
}

#[test]
fn repeated_blocks_on_a_linked_port_attempt_once() {
    let (tx, _rx) = sync_channel::<MidiCopy>(1);
    let session = CaptureSession::new("system:midi_capture_1".to_string(), Relay::new(tx, FullPolicy::Abort));
    let blocks = [LinkState::Unlinked, LinkState::Linked, LinkState::Linked, LinkState::Linked];
    let attempts = blocks
        .iter()
        .filter(|s| session.connection_step(**s) == LinkAction::Connect)
        .count();
    assert_eq!(attempts, 1);
    let linked = [LinkState::Linked; 5];
    assert!(linked.iter().all(|s| session.connection_step(*s) == LinkAction::Skip));
}

#[test]
fn session_relays_events_of_a_block() {
    let (tx, rx) = sync_channel::<MidiCopy>(2);
    let mut session =
        CaptureSession::new("a2j:keys".to_string(), Relay::new(tx, FullPolicy::DropAndCount));
    assert_eq!(session.source(), "a2j:keys");
    assert_eq!(session.on_event(&[0x90, 0x3C, 0x64], 3), Flow::Continue);
    assert_eq!(session.on_event(&[0x80, 0x3C, 0x00], 9), Flow::Continue);
    assert_eq!(session.on_event(&[0x90, 0x3E, 0x64], 11), Flow::Continue);
    assert_eq!(session.relay().sent_count(), 2);
    assert_eq!(session.relay().dropped_count(), 1);
    assert_eq!(rx.try_recv().unwrap().time(), 3);
    assert_eq!(rx.try_recv().unwrap().time(), 9);
}

#[test]
fn recorded_outcomes_decide_the_flow() {
    let (tx, _rx) = sync_channel::<MidiCopy>(1);
    let mut abort = Relay::new(tx.clone(), FullPolicy::Abort);
    assert_eq!(abort.record(SendOutcome::Sent), Flow::Continue);
    assert_eq!(abort.record(SendOutcome::Full), Flow::Quit);
    assert_eq!(abort.record(SendOutcome::Disconnected), Flow::Quit);
    assert_eq!(abort.sent_count(), 1);
    assert_eq!(abort.dropped_count(), 1);
    let mut drop_policy = Relay::new(tx, FullPolicy::DropAndCount);
    assert_eq!(drop_policy.record(SendOutcome::Full), Flow::Continue);
    assert_eq!(drop_policy.record(SendOutcome::Full), Flow::Continue);
    assert_eq!(drop_policy.record(SendOutcome::Disconnected), Flow::Quit);
    assert_eq!(drop_policy.sent_count(), 0);
    assert_eq!(drop_policy.dropped_count(), 2);
}
