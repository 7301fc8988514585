use updater_core::coord::{run, ChunkEvent, CoordinatorOutcome, Destination};
use updater_core::gate::ObserverLifecycleState;
use updater_core::transfer::TransferError;

fn data_events(sizes: &[usize]) -> Vec<ChunkEvent> {
    sizes.iter().map(|&n| ChunkEvent::Data(vec![9u8; n])).collect()
}

#[test]
fn existing_destination_is_already_satisfied() {
    let mut dest = Destination { present: true, content: vec![1, 2, 3] };
    let events = data_events(&[100; 10]);
    let (r, gate) = run(&mut dest, Some(1000), &events, 500, None, None);
    assert!(matches!(r, Ok(CoordinatorOutcome::AlreadySatisfied)));
    // No gate was ever started, and the destination was not touched.
    assert!(gate.is_none());
    assert!(dest.present);
    assert_eq!(dest.content, vec![1, 2, 3]);
}

#[test]
fn full_transfer_writes_all_bytes_and_stops_gate() {
    let mut dest = Destination { present: false, content: Vec::new() };
    let events = data_events(&[100; 10]);
    let (r, gate) = run(&mut dest, Some(1000), &events, 500, None, None);
    assert!(matches!(r, Ok(CoordinatorOutcome::Transferred)));
    assert!(dest.present);
    assert_eq!(dest.content.len(), 1000);
    let gate = gate.expect("a transfer session has a gate");
    assert!(matches!(gate.lifecycle_state(), ObserverLifecycleState::Closed));
}

#[test]
fn fast_transfer_constructs_no_observer() {
    // The grace timer never fires during the session.
    let mut dest = Destination { present: false, content: Vec::new() };
    let events = data_events(&[100; 10]);
    let (r, gate) = run(&mut dest, Some(1000), &events, 500, None, None);
    assert!(r.is_ok());
    assert_eq!(gate.unwrap().observer_constructions(), 0);
}

#[test]
fn slow_transfer_constructs_exactly_one_observer() {
    // The grace timer fires before the sixth chunk arrives.
    let mut dest = Destination { present: false, content: Vec::new() };
    let events = data_events(&[100; 10]);
    let (r, gate) = run(&mut dest, Some(1000), &events, 500, Some(5), None);
    assert!(matches!(r, Ok(CoordinatorOutcome::Transferred)));
    let gate = gate.unwrap();
    assert_eq!(gate.observer_constructions(), 1);
    assert!(matches!(gate.lifecycle_state(), ObserverLifecycleState::Closed));
}

#[test]
fn observer_gone_cancels_and_deletes_partial_file() {
    // The observer side goes away before anything arrives: the first
    // percentage rise can no longer be delivered and cancels the session.
    let mut dest = Destination { present: false, content: Vec::new() };
    let events = data_events(&[100; 10]);
    let (r, gate) = run(&mut dest, Some(1000), &events, 500, None, Some(0));
    assert!(matches!(r, Err(TransferError::Cancelled)));
    assert!(!dest.present);
    assert!(dest.content.is_empty());
    let gate = gate.unwrap();
    assert!(matches!(gate.lifecycle_state(), ObserverLifecycleState::Closed));
}

#[test]
fn observer_gone_mid_transfer_keeps_earlier_bytes_out_of_the_file() {
    // Three chunks arrive before the observer goes away; the fourth rise
    // cannot be delivered, so the session cancels and deletes the partial
    // destination.
    let mut dest = Destination { present: false, content: Vec::new() };
    let events = data_events(&[100; 10]);
    let (r, _gate) = run(&mut dest, Some(1000), &events, 500, Some(0), Some(3));
    assert!(matches!(r, Err(TransferError::Cancelled)));
    assert!(!dest.present);
    assert!(dest.content.is_empty());
}

#[test]
fn transport_fault_propagates_and_keeps_partial_file() {
    let mut dest = Destination { present: false, content: Vec::new() };
    let events = vec![
        ChunkEvent::Data(vec![9u8; 100]),
        ChunkEvent::Fault(String::from("connection reset")),
        ChunkEvent::Data(vec![9u8; 100]),
    ];
    let (r, gate) = run(&mut dest, Some(1000), &events, 500, None, None);
    assert!(matches!(r, Err(TransferError::Network(m)) if m == "connection reset"));
    // The partial file is kept for diagnosis.
    assert!(dest.present);
    assert_eq!(dest.content.len(), 100);
    assert!(matches!(
        gate.unwrap().lifecycle_state(),
        ObserverLifecycleState::Closed
    ));
}

#[test]
fn unknown_total_ignores_a_gone_observer() {
    // With no content length there are no deltas, so nothing can fail to
    // be delivered: the transfer runs to completion.
    let mut dest = Destination { present: false, content: Vec::new() };
    let events = data_events(&[100; 10]);
    let (r, _gate) = run(&mut dest, None, &events, 500, None, Some(0));
    assert!(matches!(r, Ok(CoordinatorOutcome::Transferred)));
    assert!(dest.present);
    assert_eq!(dest.content.len(), 1000);
}
