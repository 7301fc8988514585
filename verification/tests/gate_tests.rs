use updater_core::gate::{ObserverGate, ObserverLifecycleState, Signal};

#[test]
fn stop_before_grace_never_constructs() {
    let mut gate = ObserverGate::start(500);
    assert!(matches!(gate.lifecycle_state(), ObserverLifecycleState::Pending));
    gate.stop();
    assert!(matches!(gate.lifecycle_state(), ObserverLifecycleState::Closed));
    assert_eq!(gate.observer_constructions(), 0);
    // A late timer changes nothing.
    let constructed = gate.on_grace_elapsed();
    assert!(!constructed);
    assert_eq!(gate.observer_constructions(), 0);
}

#[test]
fn grace_elapsing_constructs_exactly_one_observer() {
    let mut gate = ObserverGate::start(500);
    let constructed = gate.on_grace_elapsed();
    assert!(constructed);
    assert_eq!(gate.observer_constructions(), 1);
    assert!(matches!(gate.lifecycle_state(), ObserverLifecycleState::Active));
    // The timer cannot fire twice in spirit, but even if it did, nothing
    // more is constructed.
    let again = gate.on_grace_elapsed();
    assert!(!again);
    assert_eq!(gate.observer_constructions(), 1);
}

#[test]
fn stop_twice_is_a_no_op() {
    let mut gate = ObserverGate::start(500);
    gate.on_grace_elapsed();
    gate.stop();
    assert!(matches!(gate.lifecycle_state(), ObserverLifecycleState::Closed));
    gate.stop();
    assert!(matches!(gate.lifecycle_state(), ObserverLifecycleState::Closed));
    assert_eq!(gate.observer_constructions(), 1);
}

#[test]
fn signals_buffer_until_active_and_drain_in_order() {
    let mut gate = ObserverGate::start(500);
    assert!(gate.signal(Signal::AdvanceDelta(3)).is_ok());
    assert!(gate.signal(Signal::UpdateStatus(String::from("working"))).is_ok());
    // Nothing is consumed while pending.
    assert!(gate.drain().is_empty());
    gate.on_grace_elapsed();
    assert!(gate.signal(Signal::Advance).is_ok());
    let batch = gate.drain();
    assert_eq!(batch.len(), 3);
    assert!(matches!(batch[0], Signal::AdvanceDelta(3)));
    assert!(matches!(&batch[1], Signal::UpdateStatus(s) if s == "working"));
    assert!(matches!(batch[2], Signal::Advance));
}

#[test]
fn quit_is_terminal_for_an_active_observer() {
    let mut gate = ObserverGate::start(500);
    gate.on_grace_elapsed();
    assert!(gate.signal(Signal::Quit).is_ok());
    let batch = gate.drain();
    assert_eq!(batch.len(), 1);
    assert!(matches!(batch[0], Signal::Quit));
    assert!(matches!(gate.lifecycle_state(), ObserverLifecycleState::Closed));
}

#[test]
fn signal_after_stop_reports_delivery_failure() {
    let mut gate = ObserverGate::start(500);
    gate.stop();
    assert!(gate.signal(Signal::AdvanceDelta(1)).is_err());
    let mut active = ObserverGate::start(500);
    active.on_grace_elapsed();
    active.request_stop();
    assert!(matches!(active.lifecycle_state(), ObserverLifecycleState::Closing));
    assert!(active.signal(Signal::Advance).is_err());
    active.complete_teardown();
    assert!(matches!(active.lifecycle_state(), ObserverLifecycleState::Closed));
}
