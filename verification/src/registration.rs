//! A guard that counts itself in a shared counter for as long as it lives.

use vstd::prelude::*;
use std::sync::atomic::AtomicUsize;
use std::sync::atomic::Ordering;

verus! {

/// While a `Registration` lives, its counter is one higher on its account.
pub struct Registration<'a>(&'a AtomicUsize);

impl<'a> Registration<'a> {
    /// The counter that this guard is counted in.
    pub closed spec fn counter(&self) -> &'a AtomicUsize {
        self.0
    }

    /// Adds one to `counter` and returns the guard that takes it off again
    /// when it is dropped.
    pub fn new(counter: &'a AtomicUsize) -> (guard: Self)
        ensures
            guard.counter() == counter,
    {
        counter.fetch_add(1, Ordering::Release);
        Registration(counter)
    }
}

impl<'a> Drop for Registration<'a> {
    fn drop(&mut self)
        opens_invariants none
        no_unwind
    {
        take_off(self.0);
    }
}

/// Takes one off `counter`.
///
/// Trusted: this is `AtomicUsize::fetch_sub` of the standard library. vstd
/// specifies the call but not that it never unwinds, which a destructor has to
/// show; the standard library documents that the subtraction wraps around
/// instead of failing. Nothing is claimed of the counter's value.
#[verifier::external_body]
fn take_off(counter: &AtomicUsize)
    opens_invariants none
    no_unwind
{
    counter.fetch_sub(1, Ordering::Release);
}

} // verus!
