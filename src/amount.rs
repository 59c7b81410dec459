//! The resource counter: a shared quantity that many agents draw down
//! concurrently without ever granting more than is there.
use std::sync::atomic::{AtomicU64, Ordering};
use vstd::prelude::*;

verus! {

/// What a single atomic step of `take` grants from a counter holding
/// `available` when `requested` is asked for: the request, clamped to
/// what is there.
pub open spec fn granted_from(available: u64, requested: u64) -> u64 {
    if available >= requested {
        requested
    } else {
        available
    }
}

/// The outcome of one `take`: the value the counter held at the instant
/// of the update, and the quantity handed out.
#[derive(Clone, Copy, Debug, PartialEq, Eq)]
pub struct Grant {
    pub before: u64,
    pub granted: u64,
}

/// Shared remaining quantity of a resource node.
pub struct Amount(pub AtomicU64);

/// Relies on `AtomicU64::fetch_update`: the closure's result is written in
/// place of the value it was given, in one atomic step, and that value is
/// returned in `Ok`; the closure here always answers `Some`, so the call
/// always returns `Ok`.
#[verifier::external_body]
fn fetch_take(counter: &AtomicU64, requested: u64) -> (r: Result<u64, u64>)
    ensures
        r is Ok,
{
    counter.fetch_update(Ordering::SeqCst, Ordering::SeqCst, |v| Amount::remaining_after(v, requested))
}

impl Amount {
    /// A counter holding `value`.
    pub fn new(value: u64) -> (r: Amount) {
        Amount(AtomicU64::new(value))
    }

    /// The value the counter holds after one `take` step from `available`.
    pub fn remaining_after(available: u64, requested: u64) -> (r: Option<u64>)
        ensures
            r == Some((available - granted_from(available, requested)) as u64),
    {
        if available >= requested {
            Some(available - requested)
        } else {
            Some(0)
        }
    }

    /// The grant of a `take` step that found `before` in the counter.
    pub fn grant_from(before: u64, requested: u64) -> (r: Grant)
        ensures
            r.before == before,
            r.granted == granted_from(before, requested),
    {
        let granted = if before >= requested { requested } else { before };
        Grant { before, granted }
    }

    /// Draws up to `requested` from the counter in one atomic step, which
    /// writes `remaining_after(before, requested)` in place of the `before`
    /// it found: the grant is the request clamped to `before`. Other threads
    /// may update the counter around that step, so `before` is whatever the
    /// counter held at that instant.
    pub fn take(&self, requested: u64) -> (r: Grant)
        ensures
            r.granted == granted_from(r.before, requested),
            r.granted <= requested,
            r.granted <= r.before,
    {
        let before = match fetch_take(&self.0, requested) {
            Ok(v) => v,
            Err(v) => v,
        };
        Amount::grant_from(before, requested)
    }
}

/// What a counter starting at `q` holds after the takes `requests`, in
/// that order.
pub open spec fn left_after_takes(q: u64, requests: Seq<u64>) -> u64
    decreases requests.len(),
{
    if requests.len() == 0 {
        q
    } else {
        let v = left_after_takes(q, requests.drop_last());
        (v - granted_from(v, requests.last())) as u64
    }
}

/// The sum of what the takes `requests`, in that order, are granted from a
/// counter starting at `q`.
pub open spec fn total_granted(q: u64, requests: Seq<u64>) -> int
    decreases requests.len(),
{
    if requests.len() == 0 {
        0
    } else {
        let v = left_after_takes(q, requests.drop_last());
        total_granted(q, requests.drop_last()) + granted_from(v, requests.last())
    }
}

/// No double spending. Each `take` is one atomic update of the counter, so
/// concurrent takes happen in some order, each finding what the previous
/// one left. Whatever that order, the grants add up to exactly what the
/// counter lost: never more than it started with, and the counter never
/// goes below zero.
pub proof fn lemma_takes_never_overdraw(q: u64, requests: Seq<u64>)
    ensures
        total_granted(q, requests) + left_after_takes(q, requests) == q,
        0 <= total_granted(q, requests) <= q,
        left_after_takes(q, requests) <= q,
    decreases requests.len(),
{
    if requests.len() > 0 {
        lemma_takes_never_overdraw(q, requests.drop_last());
    }
}

} // verus!
