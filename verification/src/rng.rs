//! Access to the process-wide uniform random source.
//!
//! Randomness is used for ship placement, the computer's shots and the
//! first-mover coin flip.  Nothing can be promised about a random value, so
//! the specification below has no `ensures`: every caller states what holds
//! of its own result whatever value came back.

use vstd::prelude::*;

verus! {

/// Relies on rand::random: draws a value of `T` from the thread-local
/// generator.  No clause constrains the result; callers treat it as an
/// arbitrary value of `T`.
pub assume_specification<T>[ rand::random::<T> ]() -> (r: T)
    where
        rand::distr::StandardUniform: rand::distr::Distribution<T>,
;

} // verus!
