//! Shared data types: miner records, states, errors, chain events and
//! outbound messages.
//!
//! Account identities and worker identities are plain `u64` keys; the host
//! translates its own identity encodings to and from these keys.

use vstd::prelude::*;
use crate::bench::Benchmark;
use crate::fp::balance_of_fixed;
use crate::fp::from_fixed;
use crate::tokenomic::TokenomicParams;
use crate::challenge::Bits256;

verus! {

/// A miner account identity.
pub type AccountId = u64;

/// A worker identity.
pub type WorkerId = u64;

/// The finite states of a miner's mining status.
#[derive(Clone, Copy, PartialEq, Eq, Debug, Structural)]
pub enum MinerState {
    Ready,
    MiningIdle,
    MiningActive,
    MiningUnresponsive,
    MiningCoolingDown,
}

impl MinerState {
    /// A miner can be unbound cleanly only when quiescent or cooling down.
    pub fn can_unbind(&self) -> (r: bool)
        ensures
            r == spec_can_unbind(*self),
    {
        match self {
            MinerState::Ready | MinerState::MiningCoolingDown => true,
            _ => false,
        }
    }

    /// Settlement nominally applies to every mining state; this is only
    /// debug-checked by the settlement processor, never enforced.
    pub fn can_settle(&self) -> (r: bool)
        ensures
            r == spec_can_settle(*self),
    {
        match self {
            MinerState::MiningIdle
            | MinerState::MiningActive
            | MinerState::MiningCoolingDown
            | MinerState::MiningUnresponsive => true,
            _ => false,
        }
    }
}

/// States that forbid a clean unbind force a stop first.
pub open spec fn spec_can_unbind(s: MinerState) -> bool {
    s == MinerState::Ready || s == MinerState::MiningCoolingDown
}

/// States in which a settlement entry is nominally acceptable.
pub open spec fn spec_can_settle(s: MinerState) -> bool {
    s != MinerState::Ready
}

/// States counted by the online-miner counter.
pub open spec fn spec_is_online(s: MinerState) -> bool {
    s == MinerState::MiningIdle || s == MinerState::MiningActive || s
        == MinerState::MiningUnresponsive
}

/// Accumulated statistics of one miner record.
#[derive(Clone, Copy, PartialEq, Eq, Debug, Structural)]
pub struct MinerStats {
    /// Total settled reward, in ledger-balance units.
    pub total_reward: u128,
}

impl MinerStats {
    /// Accumulates one settled payout, given as raw 64.64 bits.
    pub fn on_reward(&mut self, payout_bits: u128)
        requires
            old(self).total_reward + balance_of_fixed(payout_bits as int) <= u128::MAX,
        ensures
            final(self).total_reward == old(self).total_reward + balance_of_fixed(
                payout_bits as int,
            ),
    {
        let payout = from_fixed(payout_bits);
        self.total_reward = self.total_reward + payout;
    }
}

/// One miner record, created at bind time and retained forever after.
#[derive(Clone, Copy, PartialEq, Eq, Debug, Structural)]
pub struct MinerInfo {
    pub state: MinerState,
    /// The initial promoted score, as raw 64.64 bits.
    pub ve: u128,
    /// The last settled score, as raw 64.64 bits.
    pub v: u128,
    /// When `v` was last updated, in seconds.
    pub v_updated_at: u64,
    pub benchmark: Benchmark,
    /// When cooling down started, in seconds; 0 when not cooling down.
    pub cool_down_start: u64,
    pub stats: MinerStats,
}

/// A worker-registry record, as looked up by the host and handed in.
#[derive(Clone, Copy, PartialEq, Eq, Debug, Structural)]
pub struct WorkerEntry {
    /// The initial benchmark score, absent until benchmarking finished.
    pub initial_score: Option<u32>,
    /// The attestation-quality tier.
    pub confidence_level: u8,
}

/// Precondition errors: returned to the caller with no state mutated.
#[derive(Clone, Copy, PartialEq, Eq, Debug, Structural)]
pub enum Error {
    WorkerNotRegistered,
    DuplicateBoundMiner,
    BenchmarkMissing,
    MinerNotFound,
    MinerNotBound,
    MinerNotReady,
    MinerNotMining,
    WorkerNotBound,
    CoolDownNotReady,
    InsufficientStake,
    TooMuchStake,
}

/// Chain events deposited by the state transitions, in order.
#[derive(Clone, Copy, PartialEq, Eq, Debug, Structural)]
pub enum Event {
    /// [period]
    CoolDownExpirationChanged(u64),
    /// [miner]
    MinerStarted(AccountId),
    /// [miner]
    MinerStopped(AccountId),
    /// [miner, original_stake, slashed]
    MinerReclaimed(AccountId, u128, u128),
    /// [miner, worker]
    MinerBound(AccountId, WorkerId),
    /// [miner, worker]
    MinerUnbound(AccountId, WorkerId),
    /// [miner]
    MinerEnterUnresponsive(AccountId),
    /// [miner]
    MinerExitUnresponive(AccountId),
    /// [miner, v, payout]
    MinerSettled(AccountId, u128, u128),
}

/// Fire-and-forget messages pushed to the external message bus, in order.
#[derive(Clone, Copy, PartialEq, Eq, Debug, Structural)]
pub enum OutMessage {
    /// The periodic randomized difficulty challenge, to all workers.
    HeartbeatChallenge { seed: Bits256, online_target: Bits256 },
    /// Mining started for this worker's session.
    MiningStart { worker: WorkerId, session_id: u32, init_v: u128 },
    /// Mining stopped for this worker.
    MiningStop { worker: WorkerId },
    /// The tokenomic parameters changed, to the gatekeepers.
    TokenomicParametersChanged(TokenomicParams),
}

/// One settlement entry from the trusted aggregator.
#[derive(Clone, Copy, PartialEq, Eq, Debug, Structural)]
pub struct SettleInfo {
    pub pubkey: WorkerId,
    /// The new score, as raw 64.64 bits.
    pub v: u128,
    /// The payout, as raw 64.64 bits.
    pub payout: u128,
}

} // verus!
