//! An XOR-based cryptographic toolkit: three-party secret splitting over a
//! length-prefixed padding codec, and a temporal delay function that advances
//! three XOR state vectors through a fixed iteration cycle with hash-based
//! completion proofs.

use vstd::prelude::*;

pub mod clock;
pub mod digest;
pub mod error;
pub mod padding;
pub mod sharing;
pub mod state;
pub mod temporal;
pub mod utils;

verus! {

/// Top-level library configuration.
#[derive(Debug, Clone)]
pub struct Config {
    /// Delay-function configuration.
    pub vdf_config: temporal::TemporalConfig,
    /// Number of shares for secret sharing.
    pub share_count: usize,
    /// Enable parallel processing for large messages.
    pub enable_parallel: bool,
}

impl Default for Config {
    /// The default configuration: three shares, parallel processing off.
    fn default() -> (c: Config)
        ensures
            c.share_count == 3,
            !c.enable_parallel,
            c.vdf_config == temporal::TemporalConfig::spec_default(),
    {
        Config {
            vdf_config: temporal::TemporalConfig::default(),
            share_count: 3,
            enable_parallel: false,
        }
    }
}

} // verus!
