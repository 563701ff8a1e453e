use midi_relay::lifecycle::{LifeEvent, Lifecycle, Phase, ShutdownRequest};

#[test]
fn shutdown_signal_walks_through_every_phase() {
    let mut life = Lifecycle::new();
    assert_eq!(life.phase(), Phase::Starting);
    assert!(life.advance(LifeEvent::Registered));
    assert_eq!(life.phase(), Phase::Active);
    assert!(life.advance(LifeEvent::SignalReceived));
    assert_eq!(life.phase(), Phase::ShuttingDown);
    assert!(life.advance(LifeEvent::Deactivated));
    assert_eq!(life.phase(), Phase::Stopped);
}

#[test]
fn no_phase_is_skipped() {
    let mut life = Lifecycle::new();
    assert!(!life.advance(LifeEvent::SignalReceived));
    assert!(!life.advance(LifeEvent::Deactivated));
    assert_eq!(life.phase(), Phase::Starting);
    assert!(life.advance(LifeEvent::Registered));
    assert!(!life.advance(LifeEvent::Deactivated));
    assert!(!life.advance(LifeEvent::Registered));
    assert_eq!(life.phase(), Phase::Active);
}

#[test]
fn stopped_is_final() {
    let mut life = Lifecycle::new();
    life.advance(LifeEvent::Registered);
    life.advance(LifeEvent::SignalReceived);
    life.advance(LifeEvent::Deactivated);
    assert!(!life.advance(LifeEvent::Registered));
    assert!(!life.advance(LifeEvent::SignalReceived));
    assert!(!life.advance(LifeEvent::Deactivated));
    assert_eq!(life.phase(), Phase::Stopped);
}

#[test]
fn shutdown_is_requested_at_most_once() {
    let mut req = ShutdownRequest::new();
    assert!(!req.is_requested());
    assert!(req.request());
    assert!(req.is_requested());
    assert!(!req.request());
    assert!(!req.request());
    assert!(req.is_requested());
}
