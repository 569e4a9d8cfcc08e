//! The owned state container and the miner state machine.
//!
//! All persisted state — the miner table, the two binding tables, the
//! per-miner stakes and a handful of global scalars — lives in one
//! [`MiningState`] value that every operation takes by exclusive reference.
//! Events and outbound messages are appended to owned logs for the host to
//! drain and deliver.  Preconditions are validated in full before any field
//! is written, so a rejected operation leaves the state unchanged.

use vstd::prelude::*;
use std::collections::HashMap;
use crate::bench::{spec_p_instant, Benchmark};
use crate::challenge::{pow_target, spec_pow_target, Bits256};
use crate::fp::{
    balance_of_fixed, fdiv, fixed_of_balance, fmul, fp_div, fp_mul, from_fixed,
    lemma_balance_round_trip, lemma_fmul_le, to_fixed, FP_ONE,
};
use crate::tokenomic::{
    minimal_stake_ok, spec_minimal_stake, spec_ve, ve_ok, Tokenomic, TokenomicParams,
};
use crate::types::{
    spec_can_unbind, spec_is_online, AccountId, Error, Event, MinerInfo, MinerState, MinerStats,
    OutMessage, WorkerEntry, WorkerId,
};

verus! {

broadcast use vstd::std_specs::hash::group_hash_axioms;

/// The default expected heartbeat count per tick.
pub const DEFAULT_EXPECTED_HEARTBEAT_COUNT: u32 = 20;

/// The accounts whose records count as online miners.
pub open spec fn online_set(m: Map<AccountId, MinerInfo>) -> Set<AccountId> {
    m.dom().filter(|a: AccountId| spec_is_online(m[a].state))
}

/// Genesis configuration: the initial cool-down period and tokenomic
/// parameters.
pub struct GenesisConfig {
    pub cool_down_period_sec: u32,
    pub tokenomic_parameters: TokenomicParams,
}

impl Default for GenesisConfig {
    /// A seven-day cool-down period and the default tokenomic parameters.
    fn default() -> (r: GenesisConfig)
        ensures
            r.cool_down_period_sec == 604800,
            r.tokenomic_parameters
                == crate::tokenomic::spec_default_tokenomic_parameters(),
    {
        GenesisConfig {
            cool_down_period_sec: 604800,
            tokenomic_parameters: crate::tokenomic::default_tokenomic_parameters(),
        }
    }
}

/// The owned state container.
pub struct MiningState {
    /// One record per miner account that was ever bound; never removed.
    pub miners: HashMap<AccountId, MinerInfo>,
    /// The bound worker for a miner account.
    pub miner_bindings: HashMap<AccountId, WorkerId>,
    /// The bound miner account for a worker.
    pub worker_bindings: HashMap<WorkerId, AccountId>,
    /// Stakes of miner accounts; present exactly while state is not Ready.
    pub stakes: HashMap<AccountId, u128>,
    /// The count of records in a mining-online state.
    pub online_miners: u32,
    /// The mandatory delay between stopping mining and reclaiming, seconds.
    pub cool_down_period: u64,
    /// The next mining-session id to issue.
    pub next_session_id: u32,
    /// The configured target heartbeat count per tick.
    pub expected_heartbeat_count: u32,
    /// The current tokenomic parameter snapshot.
    pub tokenomic_params: TokenomicParams,
    /// Chain events deposited by operations, in order.
    pub events: Vec<Event>,
    /// Outbound messages pushed by operations, in order.
    pub messages: Vec<OutMessage>,
}

impl MiningState {
    /// The state invariants: the binding tables are mutual inverses, every
    /// bound miner has a record, the online counter equals the number of
    /// online records, and a stake exists exactly while a record is not
    /// Ready (and always fits the fixed-point conversion).
    pub open spec fn wf(self) -> bool {
        &&& forall|m: AccountId| #[trigger]
            self.miner_bindings@.contains_key(m) ==> {
                &&& self.worker_bindings@.contains_key(self.miner_bindings@[m])
                &&& self.worker_bindings@[self.miner_bindings@[m]] == m
            }
        &&& forall|w: WorkerId| #[trigger]
            self.worker_bindings@.contains_key(w) ==> {
                &&& self.miner_bindings@.contains_key(self.worker_bindings@[w])
                &&& self.miner_bindings@[self.worker_bindings@[w]] == w
            }
        &&& forall|m: AccountId| #[trigger]
            self.miner_bindings@.contains_key(m) ==> self.miners@.contains_key(m)
        &&& self.online_miners as int == online_set(self.miners@).len()
        &&& forall|a: AccountId| #[trigger]
            self.miners@.contains_key(a) ==> (self.stakes@.contains_key(a) <==> self.miners@[a].state
                != MinerState::Ready)
        &&& forall|a: AccountId| #[trigger]
            self.stakes@.contains_key(a) ==> self.miners@.contains_key(a) && self.stakes@[a]
                < FP_ONE
        &&& forall|a: AccountId| #![trigger self.miners@.contains_key(a)]
            self.miners@.contains_key(a) && !self.miner_bindings@.contains_key(a)
                ==> !spec_is_online(self.miners@[a].state)
    }

    /// Everything except the record table, the online counter, the stake
    /// table, the logs and the bindings is unchanged.
    pub open spec fn same_config(self, other: MiningState) -> bool {
        &&& self.cool_down_period == other.cool_down_period
        &&& self.next_session_id == other.next_session_id
        &&& self.expected_heartbeat_count == other.expected_heartbeat_count
        &&& self.tokenomic_params == other.tokenomic_params
    }

    /// Builds the initial state from the genesis configuration and
    /// broadcasts the initial tokenomic parameters.
    pub fn new(genesis: GenesisConfig) -> (r: MiningState)
        ensures
            r.wf(),
            r.miners@ == Map::<AccountId, MinerInfo>::empty(),
            r.miner_bindings@ == Map::<AccountId, WorkerId>::empty(),
            r.worker_bindings@ == Map::<WorkerId, AccountId>::empty(),
            r.stakes@ == Map::<AccountId, u128>::empty(),
            r.online_miners == 0,
            r.cool_down_period == genesis.cool_down_period_sec as u64,
            r.next_session_id == 0,
            r.expected_heartbeat_count == DEFAULT_EXPECTED_HEARTBEAT_COUNT,
            r.tokenomic_params == genesis.tokenomic_parameters,
            r.events@ == Seq::<Event>::empty(),
            r.messages@ == seq![
                OutMessage::TokenomicParametersChanged(genesis.tokenomic_parameters),
            ],
    {
        let mut messages: Vec<OutMessage> = Vec::new();
        messages.push(OutMessage::TokenomicParametersChanged(genesis.tokenomic_parameters));
        let r = MiningState {
            miners: HashMap::new(),
            miner_bindings: HashMap::new(),
            worker_bindings: HashMap::new(),
            stakes: HashMap::new(),
            online_miners: 0,
            cool_down_period: genesis.cool_down_period_sec as u64,
            next_session_id: 0,
            expected_heartbeat_count: DEFAULT_EXPECTED_HEARTBEAT_COUNT,
            tokenomic_params: genesis.tokenomic_parameters,
            events: Vec::new(),
            messages,
        };
        proof {
            lemma_online_set_empty();
            assert(r.messages@ =~= seq![
                OutMessage::TokenomicParametersChanged(genesis.tokenomic_parameters),
            ]);
        }
        r
    }

    /// Sets the cool-down period and deposits the corresponding event.
    pub fn set_cool_down_expiration(&mut self, period: u64)
        ensures
            *final(self) == (MiningState {
                cool_down_period: period,
                events: final(self).events,
                ..*old(self)
            }),
            final(self).events@ == old(self).events@.push(
                Event::CoolDownExpirationChanged(period),
            ),
            old(self).wf() ==> final(self).wf(),
    {
        self.cool_down_period = period;
        self.events.push(Event::CoolDownExpirationChanged(period));
    }

    /// Replaces the tokenomic parameters and broadcasts the new snapshot.
    pub fn update_tokenomic_parameters(&mut self, params: TokenomicParams)
        ensures
            *final(self) == (MiningState {
                tokenomic_params: params,
                messages: final(self).messages,
                ..*old(self)
            }),
            final(self).messages@ == old(self).messages@.push(
                OutMessage::TokenomicParametersChanged(params),
            ),
            old(self).wf() ==> final(self).wf(),
    {
        self.tokenomic_params = params;
        self.messages.push(OutMessage::TokenomicParametersChanged(params));
    }

    /// The bound miner account of a worker, or `WorkerNotBound`.
    pub fn ensure_worker_bound(&self, pubkey: WorkerId) -> (r: Result<AccountId, Error>)
        ensures
            match r {
                Ok(m) => self.worker_bindings@.contains_key(pubkey) && m
                    == self.worker_bindings@[pubkey],
                Err(e) => e == Error::WorkerNotBound && !self.worker_bindings@.contains_key(
                    pubkey,
                ),
            },
    {
        match self.worker_bindings.get(&pubkey) {
            Some(m) => Ok(*m),
            None => Err(Error::WorkerNotBound),
        }
    }

    /// The bound worker of a miner account, or `MinerNotBound`.
    pub fn ensure_miner_bound(&self, miner: AccountId) -> (r: Result<WorkerId, Error>)
        ensures
            match r {
                Ok(w) => self.miner_bindings@.contains_key(miner) && w
                    == self.miner_bindings@[miner],
                Err(e) => e == Error::MinerNotBound && !self.miner_bindings@.contains_key(miner),
            },
    {
        match self.miner_bindings.get(&miner) {
            Some(w) => Ok(*w),
            None => Err(Error::MinerNotBound),
        }
    }

    /// A copy of a miner record, if one exists.
    pub fn miners(&self, account: AccountId) -> (r: Option<MinerInfo>)
        ensures
            match r {
                Some(info) => self.miners@.contains_key(account) && info
                    == self.miners@[account],
                None => !self.miners@.contains_key(account),
            },
    {
        match self.miners.get(&account) {
            Some(info) => Some(*info),
            None => None,
        }
    }

    /// The recorded stake of a miner account, if one exists.
    pub fn stakes(&self, account: AccountId) -> (r: Option<u128>)
        ensures
            match r {
                Some(s) => self.stakes@.contains_key(account) && s == self.stakes@[account],
                None => !self.stakes@.contains_key(account),
            },
    {
        match self.stakes.get(&account) {
            Some(s) => Some(*s),
            None => None,
        }
    }

    /// The current count of online miners.
    pub fn online_miners(&self) -> (r: u32)
        ensures
            r == self.online_miners,
    {
        self.online_miners
    }

    /// The current cool-down period, in seconds.
    pub fn cool_down_period(&self) -> (r: u64)
        ensures
            r == self.cool_down_period,
    {
        self.cool_down_period
    }

    /// Whether a record has finished cooling down and can be reclaimed.
    pub fn can_reclaim(&self, miner_info: &MinerInfo, now: u64) -> (r: bool)
        requires
            miner_info.state == MinerState::MiningCoolingDown ==> now
                >= miner_info.cool_down_start,
        ensures
            r == spec_can_reclaim(*self, *miner_info, now),
    {
        if miner_info.state != MinerState::MiningCoolingDown {
            return false;
        }
        now - miner_info.cool_down_start >= self.cool_down_period
    }

    /// Draws the periodic heartbeat challenge: pushes a message carrying
    /// the injected random seed and a threshold scaled to the online-miner
    /// population.
    pub fn heartbeat_challenge(&mut self, seed: Bits256, secs_per_block: u32)
        requires
            old(self).online_miners < 0x8000_0000,
            0 < secs_per_block <= 1800,
        ensures
            *final(self) == (MiningState { messages: final(self).messages, ..*old(self) }),
            final(self).messages@.len() == old(self).messages@.len() + 1,
            final(self).messages@ == old(self).messages@.push(
                final(self).messages@.last(),
            ),
            ({
                let m = final(self).messages@.last();
                &&& m matches OutMessage::HeartbeatChallenge { seed: s, online_target: t }
                &&& s == seed
                &&& t.value() == spec_pow_target(
                    old(self).expected_heartbeat_count,
                    old(self).online_miners,
                    secs_per_block,
                )
            }),
            old(self).wf() ==> final(self).wf(),
    {
        let num_tx = self.expected_heartbeat_count;
        let online_target = pow_target(num_tx, self.online_miners, secs_per_block);
        self.messages.push(OutMessage::HeartbeatChallenge { seed, online_target });
    }
}

/// In a well-formed state the binding tables are mutual inverses: a miner
/// bound to a worker is exactly the miner that the worker resolves back
/// to.  In particular, after an accepted `bind(miner, worker)` — whose
/// contract puts `(miner, worker)` into the miner table — looking up the
/// miner yields the worker and looking up the worker yields the miner.
pub proof fn lemma_binding_bijection(s: MiningState, miner: AccountId, worker: WorkerId)
    requires
        s.wf(),
        s.miner_bindings@.contains_key(miner),
        s.miner_bindings@[miner] == worker,
    ensures
        s.worker_bindings@.contains_key(worker),
        s.worker_bindings@[worker] == miner,
{
}

/// The fresh record installed at bind time.
pub open spec fn fresh_miner_record(now: u64) -> MinerInfo {
    MinerInfo {
        state: MinerState::Ready,
        ve: 0,
        v: 0,
        v_updated_at: now,
        benchmark: Benchmark { p_instant: 0u32, iterations: 0u64, mining_start_time: now, updated_at: 0u64 },
        cool_down_start: 0,
        stats: MinerStats { total_reward: 0 },
    }
}

/// The exact outcome of `bind`: the preconditions checked in order.
pub open spec fn spec_bind_result(
    s: MiningState,
    miner: AccountId,
    pubkey: WorkerId,
    registry: Option<WorkerEntry>,
) -> Result<(), Error> {
    match registry {
        None => Err(Error::WorkerNotRegistered),
        Some(entry) => match entry.initial_score {
            None => Err(Error::BenchmarkMissing),
            Some(_) => {
                if s.miner_bindings@.contains_key(miner) {
                    Err(Error::DuplicateBoundMiner)
                } else if s.worker_bindings@.contains_key(pubkey) {
                    Err(Error::DuplicateBoundMiner)
                } else {
                    Ok(())
                }
            },
        },
    }
}

/// The exact outcome of `stop_mining`.
pub open spec fn spec_stop_result(s: MiningState, miner: AccountId) -> Result<(), Error> {
    if !s.miner_bindings@.contains_key(miner) {
        Err(Error::MinerNotBound)
    } else if s.miners@[miner].state == MinerState::Ready || s.miners@[miner].state
        == MinerState::MiningCoolingDown {
        Err(Error::MinerNotMining)
    } else {
        Ok(())
    }
}

impl MiningState {
    /// Binds a miner account to a worker identity.
    ///
    /// `registry` is the worker-registry record for `pubkey`, looked up by
    /// the host (`None` when the worker is unknown).  The worker must be
    /// registered, must have finished its initial benchmark, and neither
    /// side may already be bound; all preconditions are validated before
    /// any write, so a rejected bind mutates nothing.  On success both
    /// binding entries are inserted and a fresh Ready record replaces any
    /// stale one (a stale stake entry is dropped with it, keeping stakes
    /// tied to non-Ready records).
    pub fn bind(
        &mut self,
        miner: AccountId,
        pubkey: WorkerId,
        registry: Option<WorkerEntry>,
        now: u64,
    ) -> (r: Result<(), Error>)
        requires
            old(self).wf(),
        ensures
            final(self).wf(),
            r == spec_bind_result(*old(self), miner, pubkey, registry),
            r is Err ==> *final(self) == *old(self),
            r is Ok ==> {
                &&& final(self).miner_bindings@ == old(self).miner_bindings@.insert(miner, pubkey)
                &&& final(self).worker_bindings@ == old(self).worker_bindings@.insert(
                    pubkey,
                    miner,
                )
                &&& final(self).miners@ == old(self).miners@.insert(miner, fresh_miner_record(now))
                &&& final(self).stakes@ == old(self).stakes@.remove(miner)
                &&& final(self).online_miners == old(self).online_miners
                &&& final(self).events@ == old(self).events@.push(Event::MinerBound(miner, pubkey))
                &&& final(self).messages == old(self).messages
                &&& old(self).same_config(*final(self))
            },
    {
        let entry = match registry {
            Some(e) => e,
            None => {
                return Err(Error::WorkerNotRegistered);
            },
        };
        if entry.initial_score.is_none() {
            return Err(Error::BenchmarkMissing);
        }
        if self.miner_bindings.contains_key(&miner) {
            return Err(Error::DuplicateBoundMiner);
        }
        if self.worker_bindings.contains_key(&pubkey) {
            return Err(Error::DuplicateBoundMiner);
        }
        self.miner_bindings.insert(miner, pubkey);
        self.worker_bindings.insert(pubkey, miner);
        self.stakes.remove(&miner);
        let record = MinerInfo {
            state: MinerState::Ready,
            ve: 0,
            v: 0,
            v_updated_at: now,
            benchmark: Benchmark::reset(now),
            cool_down_start: 0,
            stats: MinerStats { total_reward: 0 },
        };
        self.miners.insert(miner, record);
        self.events.push(Event::MinerBound(miner, pubkey));
        proof {
            lemma_online_set_same(old(self).miners@, self.miners@, miner, record);
        }
        Ok(())
    }

    /// Stops mining: the miner enters cooling down, the online counter
    /// drops by exactly one, and the worker is told to stop.
    pub fn stop_mining(&mut self, miner: AccountId, now: u64) -> (r: Result<(), Error>)
        requires
            old(self).wf(),
        ensures
            final(self).wf(),
            r == spec_stop_result(*old(self), miner),
            r is Err ==> *final(self) == *old(self),
            r is Ok ==> {
                &&& final(self).miners@ == old(self).miners@.insert(
                    miner,
                    (MinerInfo {
                        state: MinerState::MiningCoolingDown,
                        cool_down_start: now,
                        ..old(self).miners@[miner]
                    }),
                )
                &&& final(self).online_miners == old(self).online_miners - 1
                &&& final(self).miner_bindings == old(self).miner_bindings
                &&& final(self).worker_bindings == old(self).worker_bindings
                &&& final(self).stakes == old(self).stakes
                &&& final(self).events@ == old(self).events@.push(Event::MinerStopped(miner))
                &&& final(self).messages@ == old(self).messages@.push(
                    (OutMessage::MiningStop { worker: old(self).miner_bindings@[miner] }),
                )
                &&& old(self).same_config(*final(self))
            },
    {
        let worker = match self.miner_bindings.get(&miner) {
            Some(w) => *w,
            None => {
                return Err(Error::MinerNotBound);
            },
        };
        let info = match self.miners.get(&miner) {
            Some(i) => *i,
            None => {
                // a bound miner always has a record
                return Err(Error::MinerNotFound);
            },
        };
        if matches!(info.state, MinerState::Ready | MinerState::MiningCoolingDown) {
            return Err(Error::MinerNotMining);
        }
        let updated = MinerInfo {
            state: MinerState::MiningCoolingDown,
            cool_down_start: now,
            ..info
        };
        proof {
            lemma_online_set_remove(old(self).miners@, old(self).miners@.insert(miner, updated), miner, updated);
        }
        self.miners.insert(miner, updated);
        self.online_miners = self.online_miners - 1;
        self.messages.push(OutMessage::MiningStop { worker });
        self.events.push(Event::MinerStopped(miner));
        Ok(())
    }

    /// Unbinds a miner from its worker.  A miner that is neither Ready nor
    /// cooling down is first force-stopped, and the unbind is marked as
    /// forced.  Returns the notification `(worker, forced)` for the
    /// external observer when `notify` is set.
    pub fn unbind_miner(&mut self, miner: AccountId, notify: bool, now: u64) -> (r: Result<
        Option<(WorkerId, bool)>,
        Error,
    >)
        requires
            old(self).wf(),
        ensures
            final(self).wf(),
            r is Err ==> *final(self) == *old(self) && r == Err::<Option<(WorkerId, bool)>, Error>(
                Error::MinerNotBound,
            ) && !old(self).miner_bindings@.contains_key(miner),
            r is Ok <==> old(self).miner_bindings@.contains_key(miner),
            r is Ok ==> ({
                let worker = old(self).miner_bindings@[miner];
                let forced = !spec_can_unbind(old(self).miners@[miner].state);
                &&& r == Ok::<Option<(WorkerId, bool)>, Error>(
                    if notify {
                        Some((worker, forced))
                    } else {
                        None
                    },
                )
                &&& final(self).miner_bindings@ == old(self).miner_bindings@.remove(miner)
                &&& final(self).worker_bindings@ == old(self).worker_bindings@.remove(worker)
                &&& final(self).stakes == old(self).stakes
                &&& old(self).same_config(*final(self))
                &&& if forced {
                    &&& final(self).miners@ == old(self).miners@.insert(
                        miner,
                        (MinerInfo {
                            state: MinerState::MiningCoolingDown,
                            cool_down_start: now,
                            ..old(self).miners@[miner]
                        }),
                    )
                    &&& final(self).online_miners == old(self).online_miners - 1
                    &&& final(self).events@ == old(self).events@.push(
                        Event::MinerStopped(miner),
                    ).push(Event::MinerUnbound(miner, worker))
                    &&& final(self).messages@ == old(self).messages@.push(
                        (OutMessage::MiningStop { worker }),
                    )
                } else {
                    &&& final(self).miners == old(self).miners
                    &&& final(self).online_miners == old(self).online_miners
                    &&& final(self).events@ == old(self).events@.push(
                        Event::MinerUnbound(miner, worker),
                    )
                    &&& final(self).messages == old(self).messages
                }
            }),
    {
        let worker = match self.miner_bindings.get(&miner) {
            Some(w) => *w,
            None => {
                return Err(Error::MinerNotBound);
            },
        };
        let info = match self.miners.get(&miner) {
            Some(i) => *i,
            None => {
                // a bound miner always has a record
                return Err(Error::MinerNotFound);
            },
        };
        let forced = !info.state.can_unbind();
        if forced {
            match self.stop_mining(miner, now) {
                Ok(()) => {},
                Err(_) => {
                    // a miner that cannot unbind cleanly is in a mining
                    // state, so the forced stop cannot fail
                    proof {
                        assert(false);
                    }
                    return Err(Error::MinerNotMining);
                },
            }
        }
        self.miner_bindings.remove(&miner);
        self.worker_bindings.remove(&worker);
        self.events.push(Event::MinerUnbound(miner, worker));
        let r = if notify {
            Some((worker, forced))
        } else {
            None
        };
        Ok(r)
    }
}

/// What the external ledger collaborator is told after a reclaim.
#[derive(Clone, Copy, PartialEq, Eq, Debug, Structural)]
pub struct ReclaimOutcome {
    /// The stake recorded at mining start, in balance units.
    pub orig_stake: u128,
    /// The portion to release back to the miner.
    pub returned: u128,
    /// The portion withheld: `orig_stake - returned`.
    pub slashed: u128,
}

/// The exact outcome of `start_mining`.  Evaluated only under the
/// requirement that a bound miner comes with its registry record.
pub open spec fn spec_start_result(
    s: MiningState,
    miner: AccountId,
    stake: u128,
    registry: Option<WorkerEntry>,
) -> Result<(), Error> {
    if !s.miner_bindings@.contains_key(miner) {
        Err(Error::MinerNotFound)
    } else if s.miners@[miner].state != MinerState::Ready {
        Err(Error::MinerNotReady)
    } else {
        let entry = registry.unwrap();
        match entry.initial_score {
            None => Err(Error::BenchmarkMissing),
            Some(p) => {
                if (stake as int) < spec_minimal_stake(s.tokenomic_params, p) {
                    Err(Error::InsufficientStake)
                } else if spec_ve(s.tokenomic_params, stake, p, entry.confidence_level)
                    > s.tokenomic_params.v_max {
                    Err(Error::TooMuchStake)
                } else {
                    Ok(())
                }
            },
        }
    }
}

/// The arithmetic of `start_mining` stays inside the machine limits: the
/// fixed-point intermediates fit the representation and the counters do
/// not wrap.
pub open spec fn start_arith_ok(
    s: MiningState,
    miner: AccountId,
    stake: u128,
    registry: Option<WorkerEntry>,
) -> bool {
    &&& s.miner_bindings@.contains_key(miner) ==> registry is Some
    &&& (s.miner_bindings@.contains_key(miner) && s.miners@[miner].state == MinerState::Ready
        && registry.unwrap().initial_score is Some) ==> {
        let entry = registry.unwrap();
        let p = entry.initial_score.unwrap();
        &&& minimal_stake_ok(s.tokenomic_params, p)
        &&& (stake as int >= spec_minimal_stake(s.tokenomic_params, p)) ==> {
            &&& ve_ok(s.tokenomic_params, stake, p, entry.confidence_level)
            &&& (spec_ve(s.tokenomic_params, stake, p, entry.confidence_level)
                <= s.tokenomic_params.v_max) ==> {
                &&& s.online_miners < u32::MAX
                &&& s.next_session_id < u32::MAX
            }
        }
    }
}

impl MiningState {
    /// Starts mining with the given stake (already locked externally).
    ///
    /// `registry` is the registry record of the bound worker, looked up by
    /// the host.  The stake must cover `minimal_stake(p)` and the computed
    /// `ve` must not exceed `v_max`.  On success the record is promoted to
    /// MiningIdle with `v = ve`, the stake is recorded, the online counter
    /// grows by one, a fresh session id is issued and the worker is sent a
    /// mining-start message carrying it.
    pub fn start_mining(
        &mut self,
        miner: AccountId,
        stake: u128,
        registry: Option<WorkerEntry>,
        now: u64,
    ) -> (r: Result<(), Error>)
        requires
            old(self).wf(),
            start_arith_ok(*old(self), miner, stake, registry),
        ensures
            final(self).wf(),
            r == spec_start_result(*old(self), miner, stake, registry),
            r is Err ==> *final(self) == *old(self),
            r is Ok ==> ({
                let pp = old(self).tokenomic_params;
                let entry = registry.unwrap();
                let ve_bits = spec_ve(pp, stake, entry.initial_score.unwrap(),
                    entry.confidence_level) as u128;
                let worker = old(self).miner_bindings@[miner];
                &&& final(self).miners@ == old(self).miners@.insert(
                    miner,
                    (MinerInfo {
                        state: MinerState::MiningIdle,
                        ve: ve_bits,
                        v: ve_bits,
                        v_updated_at: now,
                        ..old(self).miners@[miner]
                    }),
                )
                &&& final(self).stakes@ == old(self).stakes@.insert(miner, stake)
                &&& final(self).online_miners == old(self).online_miners + 1
                &&& final(self).next_session_id == old(self).next_session_id + 1
                &&& final(self).miner_bindings == old(self).miner_bindings
                &&& final(self).worker_bindings == old(self).worker_bindings
                &&& final(self).events@ == old(self).events@.push(Event::MinerStarted(miner))
                &&& final(self).messages@ == old(self).messages@.push(
                    (OutMessage::MiningStart {
                        worker,
                        session_id: old(self).next_session_id,
                        init_v: ve_bits,
                    }),
                )
                &&& final(self).cool_down_period == old(self).cool_down_period
                &&& final(self).expected_heartbeat_count == old(self).expected_heartbeat_count
                &&& final(self).tokenomic_params == old(self).tokenomic_params
            }),
    {
        let worker = match self.miner_bindings.get(&miner) {
            Some(w) => *w,
            None => {
                return Err(Error::MinerNotFound);
            },
        };
        let info = match self.miners.get(&miner) {
            Some(i) => *i,
            None => {
                // a bound miner always has a record
                return Err(Error::MinerNotFound);
            },
        };
        if !matches!(info.state, MinerState::Ready) {
            return Err(Error::MinerNotReady);
        }
        let entry = match registry {
            Some(e) => e,
            None => {
                // a bound worker always has a registry record
                return Err(Error::WorkerNotRegistered);
            },
        };
        let p = match entry.initial_score {
            Some(p) => p,
            None => {
                return Err(Error::BenchmarkMissing);
            },
        };
        let tokenomic = Tokenomic::new(self.tokenomic_params);
        let min_stake = tokenomic.minimal_stake(p);
        if stake < min_stake {
            return Err(Error::InsufficientStake);
        }
        let ve = tokenomic.ve(stake, p, entry.confidence_level);
        let v_max = tokenomic.v_max();
        if ve > v_max {
            return Err(Error::TooMuchStake);
        }
        let updated = MinerInfo {
            state: MinerState::MiningIdle,
            ve,
            v: ve,
            v_updated_at: now,
            ..info
        };
        proof {
            lemma_online_set_add(old(self).miners@, old(self).miners@.insert(miner, updated), miner, updated);
        }
        self.stakes.insert(miner, stake);
        self.miners.insert(miner, updated);
        self.online_miners = self.online_miners + 1;
        let session_id = self.next_session_id;
        self.next_session_id = session_id + 1;
        self.messages.push(OutMessage::MiningStart { worker, session_id, init_v: ve });
        self.events.push(Event::MinerStarted(miner));
        Ok(())
    }

    /// Turns a cooled-down miner back to Ready and computes the stake
    /// split: `returned = min(v / ve, 1) * stake`, `slashed` the rest.
    ///
    /// The clock is monotone (`now` is not before the recorded cool-down
    /// start) and, when the reclaim proceeds, the recorded `ve` is nonzero
    /// and the score ratio fits the representation; all three come from
    /// the way the record was written at mining start.
    pub fn reclaim(&mut self, miner: AccountId, now: u64) -> (r: Result<ReclaimOutcome, Error>)
        requires
            old(self).wf(),
            old(self).miners@.contains_key(miner) && old(self).miners@[miner].state
                == MinerState::MiningCoolingDown ==> now >= old(self).miners@[miner].cool_down_start,
            old(self).miners@.contains_key(miner) && spec_can_reclaim(
                *old(self),
                old(self).miners@[miner],
                now,
            ) ==> {
                let info = old(self).miners@[miner];
                &&& info.ve != 0
                &&& fdiv(info.v as int, info.ve as int) <= u128::MAX
            },
        ensures
            final(self).wf(),
            !old(self).miners@.contains_key(miner) ==> r == Err::<ReclaimOutcome, Error>(
                Error::MinerNotFound,
            ),
            old(self).miners@.contains_key(miner) && !spec_can_reclaim(
                *old(self),
                old(self).miners@[miner],
                now,
            ) ==> r == Err::<ReclaimOutcome, Error>(Error::CoolDownNotReady),
            r is Err ==> *final(self) == *old(self),
            r is Ok <==> (old(self).miners@.contains_key(miner) && spec_can_reclaim(
                *old(self),
                old(self).miners@[miner],
                now,
            )),
            r is Ok ==> ({
                let info = old(self).miners@[miner];
                let orig_stake = old(self).stakes@[miner];
                let rate = spec_return_rate(info);
                let returned = balance_of_fixed(fmul(rate, fixed_of_balance(orig_stake as int)));
                &&& r == Ok::<ReclaimOutcome, Error>(ReclaimOutcome {
                    orig_stake,
                    returned: returned as u128,
                    slashed: (orig_stake - returned) as u128,
                })
                &&& returned <= orig_stake
                &&& final(self).miners@ == old(self).miners@.insert(
                    miner,
                    (MinerInfo { state: MinerState::Ready, cool_down_start: 0u64, ..info }),
                )
                &&& final(self).stakes@ == old(self).stakes@.remove(miner)
                &&& final(self).online_miners == old(self).online_miners
                &&& final(self).miner_bindings == old(self).miner_bindings
                &&& final(self).worker_bindings == old(self).worker_bindings
                &&& final(self).events@ == old(self).events@.push(
                    Event::MinerReclaimed(miner, orig_stake, (orig_stake - returned) as u128),
                )
                &&& final(self).messages == old(self).messages
                &&& old(self).same_config(*final(self))
            }),
    {
        let info = match self.miners.get(&miner) {
            Some(i) => *i,
            None => {
                return Err(Error::MinerNotFound);
            },
        };
        let ready = self.can_reclaim(&info, now);
        if !ready {
            return Err(Error::CoolDownNotReady);
        }
        let orig_stake = match self.stakes.get(&miner) {
            Some(s) => *s,
            None => {
                // cooling-down records always carry a stake
                0
            },
        };
        let rate_raw = fp_div(info.v, info.ve);
        let rate = if rate_raw <= FP_ONE {
            rate_raw
        } else {
            FP_ONE
        };
        let stake_fixed = to_fixed(orig_stake);
        proof {
            lemma_fmul_le(rate as int, stake_fixed as int);
        }
        let returned_fixed = fp_mul(rate, stake_fixed);
        let returned = from_fixed(returned_fixed);
        proof {
            lemma_balance_round_trip(orig_stake as int, returned_fixed as int);
        }
        let slashed = orig_stake - returned;
        let updated = MinerInfo { state: MinerState::Ready, cool_down_start: 0, ..info };
        proof {
            lemma_online_set_same(old(self).miners@, old(self).miners@.insert(miner, updated), miner, updated);
        }
        self.miners.insert(miner, updated);
        self.stakes.remove(&miner);
        self.events.push(Event::MinerReclaimed(miner, orig_stake, slashed));
        Ok(ReclaimOutcome { orig_stake, returned, slashed })
    }

    /// Handles one heartbeat report from a worker.
    ///
    /// A report from an unbound worker fails with `WorkerNotBound`, which
    /// the caller treats as "discard this report".  A stale or
    /// out-of-order report from a bound worker is silently discarded,
    /// leaving the record unchanged; a fresh report updates the record's
    /// benchmark.
    pub fn on_mining_message_received(
        &mut self,
        worker: WorkerId,
        iterations: u64,
        registry: Option<WorkerEntry>,
        now: u64,
    ) -> (r: Result<(), Error>)
        requires
            old(self).wf(),
            old(self).worker_bindings@.contains_key(worker) ==> (registry is Some
                && registry.unwrap().initial_score is Some),
            old(self).worker_bindings@.contains_key(worker) ==> ({
                let b = old(self).miners@[old(self).worker_bindings@[worker]].benchmark;
                (now > b.updated_at && iterations > b.iterations) ==> {
                    &&& 6 * (iterations - b.iterations) <= u64::MAX
                    &&& registry.unwrap().initial_score.unwrap() * 12 <= u32::MAX
                }
            }),
        ensures
            final(self).wf(),
            r is Err <==> !old(self).worker_bindings@.contains_key(worker),
            r is Err ==> r == Err::<(), Error>(Error::WorkerNotBound) && *final(self) == *old(
                self,
            ),
            r is Ok ==> ({
                let miner = old(self).worker_bindings@[worker];
                let b = old(self).miners@[miner].benchmark;
                let p = registry.unwrap().initial_score.unwrap();
                &&& (now > b.updated_at && iterations > b.iterations) ==> {
                    &&& final(self).miners@ == old(self).miners@.insert(
                        miner,
                        (MinerInfo {
                            benchmark: (Benchmark {
                                p_instant: spec_p_instant(
                                    (iterations - b.iterations) as u64,
                                    (now - b.updated_at) as u64,
                                    p,
                                ) as u32,
                                iterations,
                                mining_start_time: b.mining_start_time,
                                updated_at: now,
                            }),
                            ..old(self).miners@[miner]
                        }),
                    )
                    &&& final(self).miner_bindings == old(self).miner_bindings
                    &&& final(self).worker_bindings == old(self).worker_bindings
                    &&& final(self).stakes == old(self).stakes
                    &&& final(self).online_miners == old(self).online_miners
                    &&& final(self).events == old(self).events
                    &&& final(self).messages == old(self).messages
                    &&& old(self).same_config(*final(self))
                }
                &&& !(now > b.updated_at && iterations > b.iterations) ==> *final(self) == *old(
                    self,
                )
            }),
    {
        let miner = match self.worker_bindings.get(&worker) {
            Some(m) => *m,
            None => {
                return Err(Error::WorkerNotBound);
            },
        };
        let info = match self.miners.get(&miner) {
            Some(i) => *i,
            None => {
                // a bound miner always has a record
                return Err(Error::MinerNotFound);
            },
        };
        let entry = match registry {
            Some(e) => e,
            None => {
                // a bound worker always has a registry record
                return Err(Error::WorkerNotRegistered);
            },
        };
        let initial_score = match entry.initial_score {
            Some(p) => p,
            None => {
                // a mining worker always has a benchmark
                return Err(Error::BenchmarkMissing);
            },
        };
        let mut benchmark = info.benchmark;
        match benchmark.update(now, iterations, initial_score) {
            Ok(()) => {
                let updated = MinerInfo { benchmark, ..info };
                proof {
                    lemma_online_set_same(old(self).miners@, old(self).miners@.insert(miner, updated), miner, updated);
                }
                self.miners.insert(miner, updated);
            },
            Err(()) => {
                // stale or out-of-order: discard this one report
            },
        }
        Ok(())
    }
}

/// The reclaim return rate: `min(v / ve, 1)` as raw 64.64 bits.
pub open spec fn spec_return_rate(info: MinerInfo) -> int {
    let rate = fdiv(info.v as int, info.ve as int);
    if rate <= FP_ONE {
        rate
    } else {
        FP_ONE as int
    }
}

/// Whether `reclaim` may proceed: cooling down and past the period.
pub open spec fn spec_can_reclaim(s: MiningState, info: MinerInfo, now: u64) -> bool {
    info.state == MinerState::MiningCoolingDown && now - info.cool_down_start
        >= s.cool_down_period
}

/// The online set of the empty record table is empty.
pub proof fn lemma_online_set_empty()
    ensures
        online_set(Map::<AccountId, MinerInfo>::empty()).len() == 0,
{
    assert(online_set(Map::<AccountId, MinerInfo>::empty())
        =~= Set::<AccountId>::empty());
}

/// Replacing (or inserting) a record without changing whether the account
/// is online leaves the online set unchanged.
pub proof fn lemma_online_set_same(
    m: Map<AccountId, MinerInfo>,
    m2: Map<AccountId, MinerInfo>,
    a: AccountId,
    r: MinerInfo,
)
    requires
        m2 == m.insert(a, r),
        spec_is_online(r.state) <==> (m.contains_key(a) && spec_is_online(m[a].state)),
    ensures
        online_set(m2) == online_set(m),
{
    assert(online_set(m2) =~= online_set(m));
}

/// Moving an account into an online state grows the online set by one.
pub proof fn lemma_online_set_add(
    m: Map<AccountId, MinerInfo>,
    m2: Map<AccountId, MinerInfo>,
    a: AccountId,
    r: MinerInfo,
)
    requires
        m2 == m.insert(a, r),
        m.dom().finite(),
        spec_is_online(r.state),
        !(m.contains_key(a) && spec_is_online(m[a].state)),
    ensures
        online_set(m2).len() == online_set(m).len() + 1,
{
    m.dom().lemma_len_filter(|x: AccountId| spec_is_online(m[x].state));
    assert(online_set(m2) =~= online_set(m).insert(a));
    assert(!online_set(m).contains(a));
}

/// Moving an online account out of the online states shrinks the online
/// set by one; in particular it was nonempty.
pub proof fn lemma_online_set_remove(
    m: Map<AccountId, MinerInfo>,
    m2: Map<AccountId, MinerInfo>,
    a: AccountId,
    r: MinerInfo,
)
    requires
        m2 == m.insert(a, r),
        m.dom().finite(),
        !spec_is_online(r.state),
        m.contains_key(a),
        spec_is_online(m[a].state),
    ensures
        online_set(m).len() >= 1,
        online_set(m2).len() == online_set(m).len() - 1,
{
    m.dom().lemma_len_filter(|x: AccountId| spec_is_online(m[x].state));
    assert(online_set(m).contains(a));
    assert(online_set(m2) =~= online_set(m).remove(a));
    if online_set(m).len() == 0 {
        assert(online_set(m).contains(a));
        assert(false);
    }
}

} // verus!
