//! The iteration state helper: a standalone iteration and time tracker for
//! callers that want strict timing-violation errors instead of silent
//! pacing. The counter is bounded by a fixed maximum and rises by exactly
//! one per successful advance.

use std::time::Instant;
use vstd::prelude::*;

use crate::clock::{elapsed_nanos, instant_now};
use crate::error::{CryptoError, CryptoResult};

verus! {

/// Maximum number of iterations for the temporal delay function.
pub const MAX_ITERATIONS: usize = 4;

/// Represents the state of a delay-function computation.
#[derive(Debug, Clone)]
pub struct VDFState {
    /// Current iteration number.
    iteration: usize,
    /// Start time of computation.
    start_time: Instant,
    /// Minimum time per iteration, in nanoseconds.
    min_iteration_time: u64,
    /// Whether timing requirements are enforced.
    enforce_timing: bool,
    /// Last iteration completion time.
    last_iteration: Option<Instant>,
}

impl VDFState {
    /// The current iteration count.
    pub closed spec fn spec_iteration(&self) -> int {
        self.iteration as int
    }

    /// The configured minimum time per iteration, in nanoseconds.
    pub closed spec fn spec_min_iteration_time(&self) -> u64 {
        self.min_iteration_time
    }

    /// Whether timing requirements are enforced.
    pub closed spec fn spec_enforce_timing(&self) -> bool {
        self.enforce_timing
    }

    /// Whether an iteration has completed since construction.
    pub closed spec fn spec_has_iterated(&self) -> bool {
        self.last_iteration is Some
    }

    /// Creates a new state tracker. The minimum iteration time is in
    /// nanoseconds.
    pub fn new(min_iteration_time: u64, enforce_timing: bool) -> (s: VDFState)
        ensures
            s.spec_iteration() == 0,
            s.spec_min_iteration_time() == min_iteration_time,
            s.spec_enforce_timing() == enforce_timing,
            !s.spec_has_iterated(),
    {
        VDFState {
            iteration: 0,
            start_time: instant_now(),
            min_iteration_time,
            enforce_timing,
            last_iteration: None,
        }
    }

    /// Advances the state by one iteration. Fails with `InvalidState` once
    /// the maximum is reached. When timing is enforced and a previous
    /// iteration is on record, fails with `TimingViolation` if the clock
    /// shows less than the minimum iteration time since that record — it
    /// rejects rather than sleeping. On success the counter rises by exactly
    /// one and the current time becomes the new record.
    pub fn advance(&mut self) -> (r: CryptoResult<()>)
        ensures
            final(self).spec_min_iteration_time() == old(self).spec_min_iteration_time(),
            final(self).spec_enforce_timing() == old(self).spec_enforce_timing(),
            match r {
                Ok(()) => {
                    &&& old(self).spec_iteration() < MAX_ITERATIONS
                    &&& final(self).spec_iteration() == old(self).spec_iteration() + 1
                    &&& final(self).spec_has_iterated()
                },
                Err(CryptoError::InvalidState(_)) => {
                    &&& old(self).spec_iteration() >= MAX_ITERATIONS
                    &&& *final(self) == *old(self)
                },
                Err(CryptoError::TimingViolation { expected, actual }) => {
                    &&& old(self).spec_iteration() < MAX_ITERATIONS
                    &&& old(self).spec_enforce_timing()
                    &&& old(self).spec_has_iterated()
                    &&& expected == old(self).spec_min_iteration_time()
                    &&& actual < expected
                    &&& *final(self) == *old(self)
                },
                Err(_) => false,
            },
    {
        if self.iteration >= MAX_ITERATIONS {
            return Err(CryptoError::InvalidState("Maximum iterations reached".to_owned()));
        }
        match &self.last_iteration {
            Some(last) => {
                let elapsed = elapsed_nanos(last);
                if self.enforce_timing && elapsed < self.min_iteration_time {
                    return Err(
                        CryptoError::TimingViolation {
                            expected: self.min_iteration_time,
                            actual: elapsed,
                        },
                    );
                }
            },
            None => {},
        }
        self.iteration = self.iteration + 1;
        self.last_iteration = Some(instant_now());
        Ok(())
    }

    /// Returns the current iteration number.
    pub fn current_iteration(&self) -> (n: usize)
        ensures
            n == self.spec_iteration(),
    {
        self.iteration
    }

    /// Returns whether computation is complete.
    pub fn is_complete(&self) -> (b: bool)
        ensures
            b == (self.spec_iteration() >= MAX_ITERATIONS),
    {
        self.iteration >= MAX_ITERATIONS
    }

    /// Returns total elapsed time since construction, in nanoseconds. The
    /// value depends on the clock, so nothing is promised of it.
    pub fn elapsed(&self) -> u64 {
        elapsed_nanos(&self.start_time)
    }
}

} // verus!
