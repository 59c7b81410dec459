use antsim::amount::{Amount, Grant};
use rayon::iter::{IntoParallelIterator, ParallelIterator};
use std::sync::atomic::Ordering;

#[test]
fn take_grants_whole_request_when_enough() {
    let a = Amount::new(10);
    let g = a.take(3);
    assert_eq!(g, Grant { before: 10, granted: 3 });
    assert_eq!(a.0.load(Ordering::SeqCst), 7);
}

#[test]
fn take_clamps_to_what_is_left() {
    let a = Amount::new(3);
    let g = a.take(5);
    assert_eq!(g, Grant { before: 3, granted: 3 });
    assert_eq!(a.0.load(Ordering::SeqCst), 0);
}

#[test]
fn take_from_empty_grants_nothing() {
    let a = Amount::new(0);
    assert_eq!(a.take(4).granted, 0);
    assert_eq!(a.0.load(Ordering::SeqCst), 0);
}

#[test]
fn grant_and_remaining_of_one_step() {
    assert_eq!(Amount::grant_from(10, 4), Grant { before: 10, granted: 4 });
    assert_eq!(Amount::grant_from(2, 4), Grant { before: 2, granted: 2 });
    assert_eq!(Amount::remaining_after(10, 4), Some(6));
    assert_eq!(Amount::remaining_after(2, 4), Some(0));
}

#[test]
fn two_concurrent_takes_of_two_from_three() {
    let a = Amount::new(3);
    let (g1, g2) = rayon::join(|| a.take(2), || a.take(2));
    let left = a.0.load(Ordering::SeqCst);
    assert!(g1.granted + g2.granted <= 3);
    assert_eq!(g1.granted + g2.granted + left, 3);
    let mut grants = [g1.granted, g2.granted];
    grants.sort();
    assert_eq!(grants, [1, 2]);
    assert_eq!(left, 0);
}

#[test]
fn many_concurrent_takes_never_overdraw() {
    let a = Amount::new(100);
    let total: u64 = (0..50).into_par_iter().map(|_| a.take(7).granted).sum();
    let left = a.0.load(Ordering::SeqCst);
    assert_eq!(total, 100);
    assert_eq!(left, 0);
}

#[test]
fn sequential_takes_add_up_to_what_was_lost() {
    let a = Amount::new(20);
    let mut total = 0;
    for q in [6u64, 6, 6, 6, 6] {
        total += a.take(q).granted;
    }
    assert_eq!(total, 20);
    assert_eq!(a.0.load(Ordering::SeqCst), 0);
}
