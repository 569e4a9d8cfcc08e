//! Verified core of a proof-of-useful-work miner-lifecycle tracker.
//!
//! The library models miner accounts bound to worker identities, a
//! deterministic 64.64 fixed-point tokenomic calculator, a benchmark
//! normalizer for heartbeat reports, an adaptive challenge-difficulty
//! generator, and a settlement processor.  All state lives in an explicit
//! owned container ([`state::MiningState`]) and every operation is a verified
//! transition function over it; clock readings, randomness and worker-registry
//! lookups are injected by the caller as plain values.

pub mod fp;
pub mod tokenomic;
pub mod bench;
pub mod types;
pub mod challenge;
pub mod state;
pub mod settle;
pub mod osp;
