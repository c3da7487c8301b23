//! Bounded retry for a transport operation that is known to fail now and
//! then.
//!
//! A failed attempt is tried again at once, without delay, until more than
//! [`MAX_RETRIES`] attempts in a row have failed. Any success wipes the
//! count.

use crate::error::Error;
use vstd::prelude::*;

verus! {

/// How many failures in a row are forgiven.
pub const MAX_RETRIES: u8 = 5;

/// The failure count after one more failure, or `None` when that failure
/// is one too many.
pub open spec fn count_after_failure(failures: nat) -> Option<nat> {
    if failures < MAX_RETRIES {
        Some(failures + 1)
    } else {
        None
    }
}

/// True when an operation that has already failed `failures` times in a row
/// may fail `more` further times and still be tried again.
pub open spec fn tolerates(failures: nat, more: nat) -> bool
    decreases more,
{
    more == 0 || match count_after_failure(failures) {
        Some(next) => tolerates(next, (more - 1) as nat),
        None => false,
    }
}

/// Counts consecutive failures of one operation.
pub struct Retry {
    failures: u8,
}

impl View for Retry {
    type V = nat;

    /// The number of failures since the last success.
    closed spec fn view(&self) -> nat {
        self.failures as nat
    }
}

impl Retry {
    #[verifier::type_invariant]
    spec fn within_budget(self) -> bool {
        self.failures <= MAX_RETRIES
    }

    /// A fresh count: nothing has failed yet.
    pub fn new() -> (r: Retry)
        ensures
            r@ == 0,
    {
        Retry { failures: 0 }
    }

    /// The number of failures since the last success.
    pub fn failures(&self) -> (n: u8)
        ensures
            n == self@,
            n <= MAX_RETRIES,
    {
        proof {
            use_type_invariant(self);
        }
        self.failures
    }

    /// Records a successful attempt.
    pub fn on_success(&mut self)
        ensures
            final(self)@ == 0,
    {
        self.failures = 0;
    }

    /// Records a failed attempt. `Ok` means: try again. Once the budget is
    /// spent the answer is `ConfigReadFailed`, and stays so until a success
    /// is recorded.
    pub fn on_failure(&mut self) -> (r: Result<(), Error>)
        ensures
            match count_after_failure(old(self)@) {
                Some(next) => r is Ok && final(self)@ == next,
                None => r matches Err(Error::ConfigReadFailed) && final(self)@ == old(self)@,
            },
    {
        proof {
            use_type_invariant(&*self);
        }
        if self.failures >= MAX_RETRIES {
            return Err(Error::ConfigReadFailed);
        }
        self.failures = self.failures + 1;
        Ok(())
    }
}

/// An operation that has failed `failures` times in a row survives `more`
/// further failures exactly when the total stays within the budget.
pub proof fn lemma_tolerates(failures: nat, more: nat)
    ensures
        tolerates(failures, more) <==> more == 0 || failures + more <= MAX_RETRIES,
    decreases more,
{
    if more > 0 && failures < MAX_RETRIES {
        lemma_tolerates(failures + 1, (more - 1) as nat);
    }
}

/// Starting afresh, an operation that fails `k` times and then succeeds
/// goes through when `k` is at most five, and is given up when `k` is six or
/// more.
pub proof fn lemma_retry_budget(k: nat)
    ensures
        tolerates(0, k) <==> k <= 5,
{
    lemma_tolerates(0, k);
}

} // verus!
