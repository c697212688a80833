//! The temporal delay function: three XOR state vectors derived from an
//! input, advanced through a fixed mixing cycle with optional wall-clock
//! pacing, and a hash-based completion proof.
//!
//! The mixing step XORs every state vector with the other two, so each new
//! vector equals the XOR of all three old ones. After the first iteration
//! the three vectors are identical, and the XOR of three identical vectors
//! is the vector itself, so the recoverable value never changes: the delay
//! comes from the pacing, not from the arithmetic. This behavior is kept
//! deliberately.

use std::time::Instant;
use vstd::prelude::*;
use vstd::slice::slice_to_vec;

use crate::clock::{elapsed_nanos, instant_now};
use crate::digest::{sha256_bytes, spec_sha256};
use crate::error::{CryptoError, CryptoResult};
use crate::padding::ALIGNMENT;
use crate::utils::{
    bytes_equal, enforce_delay, lemma_xor3_cancel, lemma_xor3_collapse, random_bytes, xor3_block,
    xor3_seq,
};

verus! {

/// Number of iterations required for a complete cycle.
pub const CYCLE_LENGTH: usize = 4;

/// Represents proof of temporal computation: a snapshot that attests a
/// delay-function instance reached completion from a specific start state.
#[derive(Debug, Clone)]
pub struct TemporalProof {
    /// Hash of the initial state.
    pub initial_state_hash: [u8; 32],
    /// Hash of the final state.
    pub final_state_hash: [u8; 32],
    /// Time taken for the computation, in nanoseconds.
    pub computation_time: u64,
    /// Number of iterations performed.
    pub iteration_count: usize,
}

/// Configuration for the temporal delay function. The memory-size and
/// verification-step fields are informational only.
#[derive(Debug, Clone)]
pub struct TemporalConfig {
    /// Minimum time that must be spent on each iteration, in nanoseconds.
    pub min_iteration_time: u64,
    /// Whether to enforce the minimum iteration time by pacing.
    pub enforce_timing: bool,
    /// Size of the working memory in bytes (informational).
    pub memory_size: usize,
    /// Number of verification steps required (informational).
    pub verification_steps: usize,
}

impl TemporalConfig {
    /// The default configuration as a value: 100 ms minimum per iteration,
    /// timing enforced.
    pub open spec fn spec_default() -> TemporalConfig {
        TemporalConfig {
            min_iteration_time: 100_000_000u64,
            enforce_timing: true,
            memory_size: 1048576,
            verification_steps: 4,
        }
    }
}

impl Default for TemporalConfig {
    fn default() -> (c: TemporalConfig)
        ensures
            c == TemporalConfig::spec_default(),
    {
        TemporalConfig {
            min_iteration_time: 100_000_000,
            enforce_timing: true,
            memory_size: 1048576,
            verification_steps: 4,
        }
    }
}

/// The input length rounded up to the alignment unit.
pub open spec fn aligned_len_spec(n: int) -> int {
    ((n + ALIGNMENT - 1) / (ALIGNMENT as int)) * (ALIGNMENT as int)
}

/// The aligned length is aligned, at least the input length, and wastes
/// less than one alignment unit.
pub proof fn lemma_aligned_len(n: int)
    requires
        n >= 0,
    ensures
        aligned_len_spec(n) % (ALIGNMENT as int) == 0,
        aligned_len_spec(n) >= n,
        aligned_len_spec(n) < n + ALIGNMENT,
{
    let t = n + ALIGNMENT - 1;
    vstd::arithmetic::div_mod::lemma_fundamental_div_mod(t, ALIGNMENT as int);
    vstd::arithmetic::div_mod::lemma_mod_multiples_basic(t / (ALIGNMENT as int), ALIGNMENT as int);
}

/// Computes the digest over the concatenation of the three state vectors.
fn state_digest(state: &Vec<Vec<u8>>) -> (h: [u8; 32])
    requires
        state@.len() == 3,
    ensures
        h@ == spec_sha256(state@[0]@ + state@[1]@ + state@[2]@),
{
    let mut buf = slice_to_vec(state[0].as_slice());
    let mut b1 = slice_to_vec(state[1].as_slice());
    let mut b2 = slice_to_vec(state[2].as_slice());
    buf.append(&mut b1);
    buf.append(&mut b2);
    sha256_bytes(buf.as_slice())
}

/// Temporal delay function over XOR state vectors.
#[derive(Debug)]
pub struct TemporalVDF {
    /// The configuration supplied at construction.
    pub config: TemporalConfig,
    state: Vec<Vec<u8>>,
    current_iteration: usize,
    start_time: Option<Instant>,
    initial_hash: Option<[u8; 32]>,
}

impl TemporalVDF {
    /// The configuration, as contracts see it.
    pub closed spec fn spec_config(&self) -> TemporalConfig {
        self.config
    }

    /// The current iteration count.
    pub closed spec fn spec_iteration(&self) -> int {
        self.current_iteration as int
    }

    /// Whether the delay function holds an initialized state.
    pub closed spec fn spec_initialized(&self) -> bool {
        self.state@.len() != 0 && self.initial_hash is Some && self.start_time is Some
    }

    /// The common length of the three state vectors.
    pub closed spec fn spec_state_len(&self) -> int {
        self.state@[0]@.len() as int
    }

    /// The logical value: the byte-wise XOR of the three state vectors.
    pub closed spec fn spec_value(&self) -> Seq<u8> {
        xor3_seq(self.state@[0]@, self.state@[1]@, self.state@[2]@)
    }

    /// The bytes a state digest is computed over: the three state vectors
    /// concatenated.
    pub closed spec fn spec_state_bytes(&self) -> Seq<u8> {
        self.state@[0]@ + self.state@[1]@ + self.state@[2]@
    }

    /// The digest recorded at initialization.
    pub closed spec fn spec_initial_hash(&self) -> Seq<u8> {
        self.initial_hash->Some_0@
    }

    /// Structural well-formedness: either no state at all and a zero
    /// counter, or exactly three equal-length vectors with the
    /// initialization records set; the counter never passes the cycle
    /// length.
    pub closed spec fn wf(&self) -> bool {
        &&& self.state@.len() == 0 || self.state@.len() == 3
        &&& (self.initial_hash is Some) == (self.state@.len() == 3)
        &&& (self.start_time is Some) == (self.state@.len() == 3)
        &&& self.state@.len() == 3 ==> self.state@[1]@.len() == self.state@[0]@.len()
            && self.state@[2]@.len() == self.state@[0]@.len()
        &&& self.current_iteration <= CYCLE_LENGTH
        &&& self.state@.len() == 0 ==> self.current_iteration == 0
    }

    /// Check if the delay function has been initialized with input data.
    pub fn is_initialized(&self) -> (b: bool)
        ensures
            b == self.spec_initialized(),
    {
        !self.state.is_empty() && self.initial_hash.is_some() && self.start_time.is_some()
    }

    /// Creates an uninitialized instance with the given configuration.
    pub fn new(config: TemporalConfig) -> (v: TemporalVDF)
        ensures
            v.wf(),
            !v.spec_initialized(),
            v.spec_iteration() == 0,
            v.spec_config() == config,
    {
        TemporalVDF {
            config,
            state: Vec::new(),
            current_iteration: 0,
            start_time: None,
            initial_hash: None,
        }
    }

    /// Derives three state vectors from the input — two random, the third
    /// chosen so that the XOR of all three starts with the input — records
    /// the initial state digest, and resets the iteration counter. Any
    /// earlier state is discarded. Only an empty input is rejected.
    pub fn initialize(&mut self, input: &[u8]) -> (r: CryptoResult<()>)
        requires
            input@.len() + ALIGNMENT <= usize::MAX,
        ensures
            final(self).spec_config() == old(self).spec_config(),
            match r {
                Ok(()) => {
                    &&& input@.len() > 0
                    &&& final(self).wf()
                    &&& final(self).spec_initialized()
                    &&& final(self).spec_iteration() == 0
                    &&& final(self).spec_state_len() == aligned_len_spec(input@.len() as int)
                    &&& final(self).spec_value().len() == aligned_len_spec(input@.len() as int)
                    &&& final(self).spec_value().subrange(0, input@.len() as int) == input@
                    &&& final(self).spec_initial_hash() == spec_sha256(
                        final(self).spec_state_bytes(),
                    )
                },
                Err(e) => {
                    &&& e matches CryptoError::InvalidInput(_)
                    &&& input@.len() == 0
                    &&& *final(self) == *old(self)
                },
            },
    {
        if input.is_empty() {
            return Err(CryptoError::InvalidInput("Input cannot be empty".to_owned()));
        }
        proof {
            lemma_aligned_len(input@.len() as int);
        }
        let padded_len: usize = ((input.len() + (ALIGNMENT - 1)) / ALIGNMENT) * ALIGNMENT;
        let share_a = random_bytes(padded_len);
        let share_b = random_bytes(padded_len);
        let mut share_c: Vec<u8> = Vec::new();
        let mut i: usize = 0;
        while i < input.len()
            invariant
                input@.len() <= padded_len,
                share_a@.len() == padded_len,
                share_b@.len() == padded_len,
                i <= input@.len(),
                share_c@.len() == i,
                forall|j: int|
                    0 <= j < i ==> share_c@[j] == (input@[j] ^ share_a@[j]) ^ share_b@[j],
            decreases input@.len() - i,
        {
            share_c.push((input[i] ^ share_a[i]) ^ share_b[i]);
            i = i + 1;
        }
        let mut tail = random_bytes(padded_len - input.len());
        share_c.append(&mut tail);
        proof {
            assert forall|j: int| 0 <= j < input@.len() implies xor3_seq(
                share_a@,
                share_b@,
                share_c@,
            )[j] == input@[j] by {
                lemma_xor3_cancel(share_a@[j], share_b@[j], input@[j]);
            }
            assert(xor3_seq(share_a@, share_b@, share_c@).subrange(0, input@.len() as int)
                =~= input@);
        }
        let mut state: Vec<Vec<u8>> = Vec::new();
        state.push(share_a);
        state.push(share_b);
        state.push(share_c);
        let hash = state_digest(&state);
        self.state = state;
        self.initial_hash = Some(hash);
        self.current_iteration = 0;
        self.start_time = Some(instant_now());
        Ok(())
    }

    /// Performs one iteration: every state vector is replaced by the XOR of
    /// all three current vectors, the counter rises by one, and — when
    /// timing is enforced — the call blocks until the minimum iteration
    /// time has passed. Fails with `InvalidState` before initialization or
    /// once the cycle is complete; pacing itself never fails.
    pub fn iterate(&mut self) -> (r: CryptoResult<()>)
        requires
            old(self).wf(),
        ensures
            final(self).spec_config() == old(self).spec_config(),
            final(self).wf(),
            match r {
                Ok(()) => {
                    &&& old(self).spec_initialized()
                    &&& old(self).spec_iteration() < CYCLE_LENGTH
                    &&& final(self).spec_initialized()
                    &&& final(self).spec_iteration() == old(self).spec_iteration() + 1
                    &&& final(self).spec_state_len() == old(self).spec_state_len()
                    &&& final(self).spec_value() == old(self).spec_value()
                    &&& final(self).spec_state_bytes() == old(self).spec_value() + old(
                        self,
                    ).spec_value() + old(self).spec_value()
                    &&& final(self).spec_initial_hash() == old(self).spec_initial_hash()
                },
                Err(e) => {
                    &&& e matches CryptoError::InvalidState(_)
                    &&& (!old(self).spec_initialized() || old(self).spec_iteration()
                        >= CYCLE_LENGTH)
                    &&& *final(self) == *old(self)
                },
            },
    {
        if self.state.is_empty() {
            return Err(CryptoError::InvalidState("VDF not initialized".to_owned()));
        }
        if self.current_iteration >= CYCLE_LENGTH {
            return Err(CryptoError::InvalidState("Maximum iterations already reached".to_owned()));
        }
        let iteration_start = instant_now();
        let m0 = xor3_block(
            self.state[0].as_slice(),
            self.state[1].as_slice(),
            self.state[2].as_slice(),
        );
        let m1 = xor3_block(
            self.state[0].as_slice(),
            self.state[1].as_slice(),
            self.state[2].as_slice(),
        );
        let m2 = xor3_block(
            self.state[0].as_slice(),
            self.state[1].as_slice(),
            self.state[2].as_slice(),
        );
        let ghost v = old(self).spec_value();
        let mut new_state: Vec<Vec<u8>> = Vec::new();
        new_state.push(m0);
        new_state.push(m1);
        new_state.push(m2);
        self.state = new_state;
        self.current_iteration = self.current_iteration + 1;
        proof {
            lemma_xor3_collapse(v);
        }
        if self.config.enforce_timing {
            enforce_delay(&iteration_start, self.config.min_iteration_time);
        }
        Ok(())
    }

    /// Generates the proof of computation: the recorded initial digest, a
    /// fresh digest of the current state, the elapsed time, and the
    /// iteration count. Fails with `InvalidState` before completion.
    pub fn generate_proof(&self) -> (r: CryptoResult<TemporalProof>)
        requires
            self.wf(),
        ensures
            match r {
                Ok(p) => {
                    &&& self.spec_iteration() == CYCLE_LENGTH
                    &&& self.spec_initialized()
                    &&& p.initial_state_hash@ == self.spec_initial_hash()
                    &&& p.final_state_hash@ == spec_sha256(self.spec_state_bytes())
                    &&& p.iteration_count == CYCLE_LENGTH
                },
                Err(e) => {
                    &&& e matches CryptoError::InvalidState(_)
                    &&& self.spec_iteration() != CYCLE_LENGTH
                },
            },
    {
        if !self.is_complete() {
            return Err(CryptoError::InvalidState("Cannot generate proof: cycle not complete".to_owned()));
        }
        let initial_state_hash = match &self.initial_hash {
            Some(h) => *h,
            None => {
                return Err(CryptoError::InvalidState("VDF not properly initialized".to_owned()));
            },
        };
        let final_state_hash = state_digest(&self.state);
        let computation_time = match &self.start_time {
            Some(st) => elapsed_nanos(st),
            None => 0,
        };
        Ok(
            TemporalProof {
                initial_state_hash,
                final_state_hash,
                computation_time,
                iteration_count: self.current_iteration,
            },
        )
    }

    /// Verifies a proof against this instance: true exactly when the
    /// proof's initial digest matches the recorded one, its iteration count
    /// is the cycle length, and its final digest matches the current state.
    /// A mismatch yields `false`, not an error; only an uninitialized
    /// instance fails with `InvalidState`.
    pub fn verify_proof(&self, proof: &TemporalProof) -> (r: CryptoResult<bool>)
        requires
            self.wf(),
        ensures
            match r {
                Ok(b) => {
                    &&& self.spec_initialized()
                    &&& b == (proof.initial_state_hash@ == self.spec_initial_hash()
                        && proof.iteration_count == CYCLE_LENGTH && proof.final_state_hash@
                        == spec_sha256(self.spec_state_bytes()))
                },
                Err(e) => {
                    &&& e matches CryptoError::InvalidState(_)
                    &&& !self.spec_initialized()
                },
            },
    {
        let initial_hash = match &self.initial_hash {
            Some(h) => *h,
            None => {
                return Err(CryptoError::InvalidState("VDF not properly initialized".to_owned()));
            },
        };
        if !bytes_equal(proof.initial_state_hash.as_slice(), initial_hash.as_slice()) {
            return Ok(false);
        }
        if proof.iteration_count != CYCLE_LENGTH {
            return Ok(false);
        }
        let current_hash = state_digest(&self.state);
        if !bytes_equal(current_hash.as_slice(), proof.final_state_hash.as_slice()) {
            return Ok(false);
        }
        Ok(true)
    }

    /// Check if the computation is complete.
    pub fn is_complete(&self) -> (b: bool)
        ensures
            b == (self.spec_iteration() == CYCLE_LENGTH),
    {
        self.current_iteration == CYCLE_LENGTH
    }

    /// Returns the byte-wise XOR of the three state vectors once the cycle
    /// is complete; fails with `InvalidState` before that.
    pub fn get_output(&self) -> (r: CryptoResult<Vec<u8>>)
        requires
            self.wf(),
        ensures
            match r {
                Ok(d) => {
                    &&& self.spec_iteration() == CYCLE_LENGTH
                    &&& self.spec_initialized()
                    &&& d@ == self.spec_value()
                },
                Err(e) => {
                    &&& e matches CryptoError::InvalidState(_)
                    &&& self.spec_iteration() != CYCLE_LENGTH
                },
            },
    {
        if !self.is_complete() {
            return Err(CryptoError::InvalidState("Computation not complete".to_owned()));
        }
        if self.state.is_empty() {
            return Err(CryptoError::InvalidState("VDF not initialized".to_owned()));
        }
        Ok(
            xor3_block(
                self.state[0].as_slice(),
                self.state[1].as_slice(),
                self.state[2].as_slice(),
            ),
        )
    }

    /// The digest recorded at initialization, if any.
    pub fn initial_hash(&self) -> (r: Option<[u8; 32]>)
        requires
            self.wf(),
        ensures
            (r is Some) == self.spec_initialized(),
            r matches Some(h) ==> h@ == self.spec_initial_hash(),
    {
        match &self.initial_hash {
            Some(h) => Some(*h),
            None => None,
        }
    }

    /// The digest of the current state, as proofs record it. Fails with
    /// `InvalidState` before initialization.
    pub fn state_hash(&self) -> (r: CryptoResult<[u8; 32]>)
        requires
            self.wf(),
        ensures
            match r {
                Ok(h) => self.spec_initialized() && h@ == spec_sha256(self.spec_state_bytes()),
                Err(e) => e matches CryptoError::InvalidState(_) && !self.spec_initialized(),
            },
    {
        if self.state.is_empty() {
            return Err(CryptoError::InvalidState("VDF not initialized".to_owned()));
        }
        Ok(state_digest(&self.state))
    }
}

} // verus!
