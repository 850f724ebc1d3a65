use std::sync::mpsc;
use texture_atlas::sync::{Loader, LoaderError};

#[test]
fn test_with_value_is_immediately_ready() {
    let mut l: Loader<u32> = Loader::with_value(42);
    assert!(l.is_ready());
    assert_eq!(l.snapshot(), Some(42));
    assert_eq!(l.get_ref().unwrap(), &42);
    assert_eq!(l.take().unwrap(), 42);
}

#[test]
fn test_take_twice_reports_already_taken() {
    let mut l: Loader<u32> = Loader::with_value(5);
    assert_eq!(l.take().unwrap(), 5);
    assert_eq!(l.take().unwrap_err(), LoaderError::AlreadyTaken);
    assert_eq!(l.get_ref().unwrap_err(), LoaderError::AlreadyTaken);
    assert!(!l.is_ready());
    assert_eq!(l.snapshot(), None);
    assert_eq!(l.wait(None), Ok(()));
}

#[test]
fn test_with_closure_resolves() {
    let mut l = Loader::with_closure(|| 6 * 7);
    assert_eq!(l.wait(None), Ok(()));
    assert!(l.is_ready());
    assert_eq!(l.take().unwrap(), 42);
}

#[test]
fn test_unwrap_consumes() {
    let l = Loader::with_closure(|| String::from("done"));
    assert_eq!(l.unwrap().unwrap(), "done");
}

#[test]
fn test_wait_timeout_is_enforced() {
    let (tx, rx) = mpsc::channel::<u32>();
    let mut l = Loader::with_closure(move || rx.recv().unwrap_or(0));
    // The worker is blocked on the test's channel: a bounded wait passes its
    // deadline, and the loader stays pending.
    assert_eq!(l.wait(Some(50)), Err(LoaderError::Timeout));
    assert!(!l.is_ready());
    tx.send(11).unwrap();
    assert_eq!(l.wait(None), Ok(()));
    assert_eq!(l.take().unwrap(), 11);
}

#[test]
fn test_snapshot_does_not_consume() {
    let (tx, rx) = mpsc::channel::<u32>();
    let mut l = Loader::with_closure(move || rx.recv().unwrap_or(0));
    assert_eq!(l.snapshot(), None);
    tx.send(3).unwrap();
    assert_eq!(l.wait(None), Ok(()));
    assert_eq!(l.snapshot(), Some(3));
    assert_eq!(l.snapshot(), Some(3));
    assert_eq!(l.take().unwrap(), 3);
}

#[test]
fn test_with_signal_waits_for_completion() {
    let (tx, rx) = mpsc::channel::<()>();
    let mut l = Loader::with_signal(9u32, move || {
        rx.recv().unwrap_or(());
    });
    assert_eq!(l.wait(Some(50)), Err(LoaderError::Timeout));
    tx.send(()).unwrap();
    assert_eq!(l.wait(None), Ok(()));
    assert_eq!(l.take().unwrap(), 9);
}
