use std::cell::{Cell, RefCell};
use updater_core::transfer::{transfer_chunks, TransferError};

fn chunks_of(sizes: &[usize]) -> Vec<Vec<u8>> {
    sizes.iter().map(|&n| vec![7u8; n]).collect()
}

#[test]
fn even_chunks_emit_ten_deltas_summing_to_100() {
    let chunks = chunks_of(&[100; 10]);
    let deltas: RefCell<Vec<u32>> = RefCell::new(Vec::new());
    let mut out: Vec<u8> = Vec::new();
    let r = transfer_chunks(
        Some(1000),
        &chunks,
        |d: u32| {
            deltas.borrow_mut().push(d);
            false
        },
        &mut out,
    );
    assert!(r.is_ok());
    assert_eq!(*deltas.borrow(), vec![10; 10]);
    assert_eq!(deltas.borrow().iter().sum::<u32>(), 100);
    assert_eq!(out.len(), 1000);
}

#[test]
fn uneven_chunks_still_sum_to_100() {
    let chunks = chunks_of(&[450, 20, 530]);
    let deltas: RefCell<Vec<u32>> = RefCell::new(Vec::new());
    let mut out: Vec<u8> = Vec::new();
    let r = transfer_chunks(
        Some(1000),
        &chunks,
        |d: u32| {
            deltas.borrow_mut().push(d);
            false
        },
        &mut out,
    );
    assert!(r.is_ok());
    assert_eq!(*deltas.borrow(), vec![45, 2, 53]);
    assert_eq!(deltas.borrow().iter().sum::<u32>(), 100);
}

#[test]
fn chunk_spanning_several_points_yields_one_delta() {
    // One chunk takes progress from 40% to 47%: one invocation with 7, not
    // seven invocations with 1.
    let chunks = chunks_of(&[400, 70, 530]);
    let deltas: RefCell<Vec<u32>> = RefCell::new(Vec::new());
    let mut out: Vec<u8> = Vec::new();
    let r = transfer_chunks(
        Some(1000),
        &chunks,
        |d: u32| {
            deltas.borrow_mut().push(d);
            false
        },
        &mut out,
    );
    assert!(r.is_ok());
    assert_eq!(*deltas.borrow(), vec![40, 7, 53]);
}

#[test]
fn cancel_on_third_invocation_stops_writes() {
    let chunks = chunks_of(&[100; 10]);
    let calls = Cell::new(0u32);
    let mut out: Vec<u8> = Vec::new();
    let r = transfer_chunks(
        Some(1000),
        &chunks,
        |_d: u32| {
            calls.set(calls.get() + 1);
            calls.get() == 3
        },
        &mut out,
    );
    assert!(matches!(r, Err(TransferError::Cancelled)));
    assert_eq!(calls.get(), 3);
    // The chunk whose delta was refused is not written, and nothing after.
    assert_eq!(out.len(), 200);
}

#[test]
fn unknown_total_never_invokes_callback_but_writes_all() {
    let chunks = chunks_of(&[100; 10]);
    let calls = Cell::new(0u32);
    let mut out: Vec<u8> = Vec::new();
    let r = transfer_chunks(
        None,
        &chunks,
        |_d: u32| {
            calls.set(calls.get() + 1);
            true
        },
        &mut out,
    );
    assert!(r.is_ok());
    assert_eq!(calls.get(), 0);
    assert_eq!(out.len(), 1000);
}

#[test]
fn zero_length_resource_succeeds_immediately() {
    let chunks: Vec<Vec<u8>> = Vec::new();
    let calls = Cell::new(0u32);
    let mut out: Vec<u8> = Vec::new();
    let r = transfer_chunks(
        Some(0),
        &chunks,
        |_d: u32| {
            calls.set(calls.get() + 1);
            false
        },
        &mut out,
    );
    assert!(r.is_ok());
    assert_eq!(calls.get(), 0);
    assert!(out.is_empty());
}

#[test]
fn known_total_with_no_chunks_succeeds() {
    let chunks: Vec<Vec<u8>> = Vec::new();
    let calls = Cell::new(0u32);
    let mut out: Vec<u8> = Vec::new();
    let r = transfer_chunks(
        Some(1000),
        &chunks,
        |_d: u32| {
            calls.set(calls.get() + 1);
            false
        },
        &mut out,
    );
    assert!(r.is_ok());
    assert_eq!(calls.get(), 0);
    assert!(out.is_empty());
}

#[test]
fn error_messages_name_each_variant() {
    assert_eq!(TransferError::Cancelled.message(), "download stopped");
    assert_eq!(
        TransferError::Network(String::from("timed out")).message(),
        "network error: timed out"
    );
    assert_eq!(
        TransferError::Io(String::from("disk full")).message(),
        "io error: disk full"
    );
}
