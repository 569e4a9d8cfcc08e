//! The settlement processor: applies one externally-aggregated batch of
//! offline / recovered / reward-settlement entries to the miner records.
//!
//! Each entry names a worker; an entry whose worker is no longer bound is
//! silently skipped, so one stale entry never fails the batch.  The effect
//! of a batch is specified as a left fold of per-entry steps, in order.

use vstd::prelude::*;
use crate::fp::balance_of_fixed;
use crate::state::{lemma_online_set_same, MiningState};
use crate::types::{
    spec_is_online, AccountId, Event, MinerInfo, MinerState, MinerStats, SettleInfo, WorkerId,
};

verus! {

broadcast use vstd::std_specs::hash::group_hash_axioms;

/// One aggregator batch: workers gone offline, workers recovered to
/// online, and reward settlements.
pub struct MiningInfoUpdate {
    pub offline: Vec<WorkerId>,
    pub recovered_to_online: Vec<WorkerId>,
    pub settle: Vec<SettleInfo>,
}

impl MiningInfoUpdate {
    /// An empty batch is a no-op.
    pub fn is_empty(&self) -> (r: bool)
        ensures
            r == (self.offline@.len() == 0 && self.recovered_to_online@.len() == 0
                && self.settle@.len() == 0),
    {
        self.offline.len() == 0 && self.recovered_to_online.len() == 0 && self.settle.len() == 0
    }
}

/// One offline entry: the bound miner becomes unresponsive.
pub open spec fn offline_step(
    m: Map<AccountId, MinerInfo>,
    wb: Map<WorkerId, AccountId>,
    w: WorkerId,
) -> Map<AccountId, MinerInfo> {
    if wb.contains_key(w) {
        m.insert(wb[w], (MinerInfo { state: MinerState::MiningUnresponsive, ..m[wb[w]] }))
    } else {
        m
    }
}

/// The offline entries of a batch, in order.
pub open spec fn apply_offline(
    m: Map<AccountId, MinerInfo>,
    wb: Map<WorkerId, AccountId>,
    ws: Seq<WorkerId>,
) -> Map<AccountId, MinerInfo>
    decreases ws.len(),
{
    if ws.len() == 0 {
        m
    } else {
        apply_offline(offline_step(m, wb, ws[0]), wb, ws.drop_first())
    }
}

/// The events deposited by the offline entries, in order.
pub open spec fn offline_events(wb: Map<WorkerId, AccountId>, ws: Seq<WorkerId>) -> Seq<Event>
    decreases ws.len(),
{
    if ws.len() == 0 {
        Seq::empty()
    } else {
        let head: Seq<Event> = if wb.contains_key(ws[0]) {
            seq![Event::MinerEnterUnresponsive(wb[ws[0]])]
        } else {
            Seq::empty()
        };
        head + offline_events(wb, ws.drop_first())
    }
}

/// One recovery entry: the bound miner returns to idle.
pub open spec fn recovered_step(
    m: Map<AccountId, MinerInfo>,
    wb: Map<WorkerId, AccountId>,
    w: WorkerId,
) -> Map<AccountId, MinerInfo> {
    if wb.contains_key(w) {
        m.insert(wb[w], (MinerInfo { state: MinerState::MiningIdle, ..m[wb[w]] }))
    } else {
        m
    }
}

/// The recovery entries of a batch, in order.
pub open spec fn apply_recovered(
    m: Map<AccountId, MinerInfo>,
    wb: Map<WorkerId, AccountId>,
    ws: Seq<WorkerId>,
) -> Map<AccountId, MinerInfo>
    decreases ws.len(),
{
    if ws.len() == 0 {
        m
    } else {
        apply_recovered(recovered_step(m, wb, ws[0]), wb, ws.drop_first())
    }
}

/// The events deposited by the recovery entries, in order.
pub open spec fn recovered_events(wb: Map<WorkerId, AccountId>, ws: Seq<WorkerId>) -> Seq<Event>
    decreases ws.len(),
{
    if ws.len() == 0 {
        Seq::empty()
    } else {
        let head: Seq<Event> = if wb.contains_key(ws[0]) {
            seq![Event::MinerExitUnresponive(wb[ws[0]])]
        } else {
            Seq::empty()
        };
        head + recovered_events(wb, ws.drop_first())
    }
}

/// One settlement entry: the bound miner's score is replaced and the
/// converted payout accumulated.
pub open spec fn settle_step(
    m: Map<AccountId, MinerInfo>,
    wb: Map<WorkerId, AccountId>,
    e: SettleInfo,
    now: u64,
) -> Map<AccountId, MinerInfo> {
    if wb.contains_key(e.pubkey) {
        let a = wb[e.pubkey];
        m.insert(
            a,
            (MinerInfo {
                v: e.v,
                v_updated_at: now,
                stats: (MinerStats {
                    total_reward: (m[a].stats.total_reward + balance_of_fixed(
                        e.payout as int,
                    )) as u128,
                }),
                ..m[a]
            }),
        )
    } else {
        m
    }
}

/// The settlement entries of a batch, in order.
pub open spec fn apply_settle(
    m: Map<AccountId, MinerInfo>,
    wb: Map<WorkerId, AccountId>,
    es: Seq<SettleInfo>,
    now: u64,
) -> Map<AccountId, MinerInfo>
    decreases es.len(),
{
    if es.len() == 0 {
        m
    } else {
        apply_settle(settle_step(m, wb, es[0], now), wb, es.drop_first(), now)
    }
}

/// The events deposited by the settlement entries, in order.
pub open spec fn settle_events(wb: Map<WorkerId, AccountId>, es: Seq<SettleInfo>) -> Seq<Event>
    decreases es.len(),
{
    if es.len() == 0 {
        Seq::empty()
    } else {
        let head: Seq<Event> = if wb.contains_key(es[0].pubkey) {
            seq![Event::MinerSettled(wb[es[0].pubkey], es[0].v, es[0].payout)]
        } else {
            Seq::empty()
        };
        head + settle_events(wb, es.drop_first())
    }
}

/// No settlement entry overflows the accumulated reward counter.
pub open spec fn settle_ok(
    m: Map<AccountId, MinerInfo>,
    wb: Map<WorkerId, AccountId>,
    es: Seq<SettleInfo>,
    now: u64,
) -> bool
    decreases es.len(),
{
    if es.len() == 0 {
        true
    } else {
        &&& (wb.contains_key(es[0].pubkey) ==> m[wb[es[0].pubkey]].stats.total_reward
            + balance_of_fixed(es[0].payout as int) <= u128::MAX)
        &&& settle_ok(settle_step(m, wb, es[0], now), wb, es.drop_first(), now)
    }
}

/// Peeling the last element off an offline fold.
proof fn lemma_apply_offline_push(
    m: Map<AccountId, MinerInfo>,
    wb: Map<WorkerId, AccountId>,
    ws: Seq<WorkerId>,
    x: WorkerId,
)
    ensures
        apply_offline(m, wb, ws.push(x)) == offline_step(apply_offline(m, wb, ws), wb, x),
        wb.contains_key(x) ==> offline_events(wb, ws.push(x)) == offline_events(wb, ws).push(
            Event::MinerEnterUnresponsive(wb[x]),
        ),
        !wb.contains_key(x) ==> offline_events(wb, ws.push(x)) == offline_events(wb, ws),
    decreases ws.len(),
{
    reveal_with_fuel(apply_offline, 2);
    reveal_with_fuel(offline_events, 2);
    if ws.len() == 0 {
        assert(ws.push(x)[0] == x);
        assert(ws.push(x).drop_first() =~= Seq::<WorkerId>::empty());
        if wb.contains_key(x) {
            assert(offline_events(wb, ws.push(x)) =~= offline_events(wb, ws).push(
                Event::MinerEnterUnresponsive(wb[x]),
            ));
        } else {
            assert(offline_events(wb, ws.push(x)) =~= offline_events(wb, ws));
        }
    } else {
        assert(ws.push(x)[0] == ws[0]);
        assert(ws.push(x).drop_first() =~= ws.drop_first().push(x));
        lemma_apply_offline_push(offline_step(m, wb, ws[0]), wb, ws.drop_first(), x);
        if wb.contains_key(x) {
            assert(offline_events(wb, ws.push(x)) =~= offline_events(wb, ws).push(
                Event::MinerEnterUnresponsive(wb[x]),
            ));
        } else {
            assert(offline_events(wb, ws.push(x)) =~= offline_events(wb, ws));
        }
    }
}

/// Peeling the last element off a recovery fold.
proof fn lemma_apply_recovered_push(
    m: Map<AccountId, MinerInfo>,
    wb: Map<WorkerId, AccountId>,
    ws: Seq<WorkerId>,
    x: WorkerId,
)
    ensures
        apply_recovered(m, wb, ws.push(x)) == recovered_step(apply_recovered(m, wb, ws), wb, x),
        wb.contains_key(x) ==> recovered_events(wb, ws.push(x)) == recovered_events(wb, ws).push(
            Event::MinerExitUnresponive(wb[x]),
        ),
        !wb.contains_key(x) ==> recovered_events(wb, ws.push(x)) == recovered_events(wb, ws),
    decreases ws.len(),
{
    reveal_with_fuel(apply_recovered, 2);
    reveal_with_fuel(recovered_events, 2);
    if ws.len() == 0 {
        assert(ws.push(x)[0] == x);
        assert(ws.push(x).drop_first() =~= Seq::<WorkerId>::empty());
        if wb.contains_key(x) {
            assert(recovered_events(wb, ws.push(x)) =~= recovered_events(wb, ws).push(
                Event::MinerExitUnresponive(wb[x]),
            ));
        } else {
            assert(recovered_events(wb, ws.push(x)) =~= recovered_events(wb, ws));
        }
    } else {
        assert(ws.push(x)[0] == ws[0]);
        assert(ws.push(x).drop_first() =~= ws.drop_first().push(x));
        lemma_apply_recovered_push(recovered_step(m, wb, ws[0]), wb, ws.drop_first(), x);
        if wb.contains_key(x) {
            assert(recovered_events(wb, ws.push(x)) =~= recovered_events(wb, ws).push(
                Event::MinerExitUnresponive(wb[x]),
            ));
        } else {
            assert(recovered_events(wb, ws.push(x)) =~= recovered_events(wb, ws));
        }
    }
}

/// Peeling the last element off a settlement fold.
proof fn lemma_apply_settle_push(
    m: Map<AccountId, MinerInfo>,
    wb: Map<WorkerId, AccountId>,
    es: Seq<SettleInfo>,
    x: SettleInfo,
    now: u64,
)
    ensures
        apply_settle(m, wb, es.push(x), now) == settle_step(
            apply_settle(m, wb, es, now),
            wb,
            x,
            now,
        ),
        wb.contains_key(x.pubkey) ==> settle_events(wb, es.push(x)) == settle_events(
            wb,
            es,
        ).push(Event::MinerSettled(wb[x.pubkey], x.v, x.payout)),
        !wb.contains_key(x.pubkey) ==> settle_events(wb, es.push(x)) == settle_events(wb, es),
    decreases es.len(),
{
    reveal_with_fuel(apply_settle, 2);
    reveal_with_fuel(settle_events, 2);
    if es.len() == 0 {
        assert(es.push(x)[0] == x);
        assert(es.push(x).drop_first() =~= Seq::<SettleInfo>::empty());
        if wb.contains_key(x.pubkey) {
            assert(settle_events(wb, es.push(x)) =~= settle_events(wb, es).push(
                Event::MinerSettled(wb[x.pubkey], x.v, x.payout),
            ));
        } else {
            assert(settle_events(wb, es.push(x)) =~= settle_events(wb, es));
        }
    } else {
        assert(es.push(x)[0] == es[0]);
        assert(es.push(x).drop_first() =~= es.drop_first().push(x));
        lemma_apply_settle_push(settle_step(m, wb, es[0], now), wb, es.drop_first(), x, now);
        if wb.contains_key(x.pubkey) {
            assert(settle_events(wb, es.push(x)) =~= settle_events(wb, es).push(
                Event::MinerSettled(wb[x.pubkey], x.v, x.payout),
            ));
        } else {
            assert(settle_events(wb, es.push(x)) =~= settle_events(wb, es));
        }
    }
}

impl MiningState {
    /// Applies one aggregator batch: offline workers' miners become
    /// unresponsive, recovered workers' miners return to idle, and
    /// settlement entries replace `v` and accumulate the converted payout.
    /// Workers unbound since aggregation are skipped entry by entry.
    ///
    /// The aggregator only reports on mining workers, so every bound
    /// worker named in the offline and recovered lists has a record in a
    /// mining state, and the accumulated rewards stay within the counter.
    pub fn on_gk_message_received(&mut self, event: &MiningInfoUpdate, now: u64)
        requires
            old(self).wf(),
            forall|j: int|
                0 <= j < event.offline@.len() && old(self).worker_bindings@.contains_key(
                    event.offline@[j],
                ) ==> spec_is_online(
                    #[trigger] old(self).miners@[old(self).worker_bindings@[event.offline@[j]]].state,
                ),
            forall|j: int|
                0 <= j < event.recovered_to_online@.len() && old(
                    self,
                ).worker_bindings@.contains_key(event.recovered_to_online@[j])
                    ==> spec_is_online(
                    #[trigger] old(self).miners@[old(self).worker_bindings@[
                        event.recovered_to_online@[j]
                    ]].state,
                ),
            settle_ok(
                apply_recovered(
                    apply_offline(old(self).miners@, old(self).worker_bindings@, event.offline@),
                    old(self).worker_bindings@,
                    event.recovered_to_online@,
                ),
                old(self).worker_bindings@,
                event.settle@,
                now,
            ),
        ensures
            final(self).wf(),
            final(self).miners@ == apply_settle(
                apply_recovered(
                    apply_offline(old(self).miners@, old(self).worker_bindings@, event.offline@),
                    old(self).worker_bindings@,
                    event.recovered_to_online@,
                ),
                old(self).worker_bindings@,
                event.settle@,
                now,
            ),
            final(self).events@ == old(self).events@ + offline_events(
                old(self).worker_bindings@,
                event.offline@,
            ) + recovered_events(old(self).worker_bindings@, event.recovered_to_online@)
                + settle_events(old(self).worker_bindings@, event.settle@),
            final(self).miner_bindings == old(self).miner_bindings,
            final(self).worker_bindings == old(self).worker_bindings,
            final(self).stakes == old(self).stakes,
            final(self).online_miners == old(self).online_miners,
            final(self).messages == old(self).messages,
            old(self).same_config(*final(self)),
    {
        let ghost wb = self.worker_bindings@;
        let ghost m0 = self.miners@;

        let mut i: usize = 0;
        let n_off = event.offline.len();
        while i < n_off
            invariant
                self.wf(),
                n_off == event.offline@.len(),
                i <= n_off,
                wb == self.worker_bindings@,
                self.miners@ == apply_offline(m0, wb, event.offline@.take(i as int)),
                self.events@ == old(self).events@ + offline_events(
                    wb,
                    event.offline@.take(i as int),
                ),
                forall|j: int|
                    0 <= j < event.offline@.len() && wb.contains_key(event.offline@[j])
                        ==> spec_is_online(
                        #[trigger] self.miners@[wb[event.offline@[j]]].state,
                    ),
                forall|j: int|
                    0 <= j < event.recovered_to_online@.len() && wb.contains_key(
                        event.recovered_to_online@[j],
                    ) ==> spec_is_online(
                        #[trigger] self.miners@[wb[event.recovered_to_online@[j]]].state,
                    ),
                self.miner_bindings == old(self).miner_bindings,
                self.stakes == old(self).stakes,
                self.worker_bindings == old(self).worker_bindings,
                self.online_miners == old(self).online_miners,
                self.messages == old(self).messages,
                old(self).same_config(*self),
                m0 == old(self).miners@,
            decreases n_off - i,
        {
            let w = event.offline[i];
            proof {
                assert(event.offline@.take(i as int + 1) =~= event.offline@.take(i as int).push(
                    w,
                ));
                lemma_apply_offline_push(m0, wb, event.offline@.take(i as int), w);
            }
            match self.worker_bindings.get(&w) {
                Some(account_ref) => {
                    let account = *account_ref;
                    let info = match self.miners.get(&account) {
                        Some(r) => *r,
                        None => {
                            // a bound miner always has a record
                            proof {
                                assert(false);
                            }
                            return ;
                        },
                    };
                    let updated = MinerInfo { state: MinerState::MiningUnresponsive, ..info };
                    proof {
                        lemma_online_set_same(
                            self.miners@,
                            self.miners@.insert(account, updated),
                            account,
                            updated,
                        );
                    }
                    self.miners.insert(account, updated);
                    self.events.push(Event::MinerEnterUnresponsive(account));
                    proof {
                        assert(self.events@ =~= old(self).events@ + offline_events(
                            wb,
                            event.offline@.take(i as int + 1),
                        ));
                    }
                },
                None => {
                    proof {
                        assert(self.events@ =~= old(self).events@ + offline_events(
                            wb,
                            event.offline@.take(i as int + 1),
                        ));
                    }
                },
            }
            i = i + 1;
        }
        proof {
            assert(event.offline@.take(n_off as int) =~= event.offline@);
        }

        let ghost m1 = apply_offline(m0, wb, event.offline@);
        let ghost ev1 = old(self).events@ + offline_events(wb, event.offline@);
        let mut i: usize = 0;
        let n_rec = event.recovered_to_online.len();
        while i < n_rec
            invariant
                self.wf(),
                n_rec == event.recovered_to_online@.len(),
                i <= n_rec,
                wb == self.worker_bindings@,
                self.miners@ == apply_recovered(m1, wb, event.recovered_to_online@.take(i as int)),
                self.events@ == ev1 + recovered_events(
                    wb,
                    event.recovered_to_online@.take(i as int),
                ),
                forall|j: int|
                    0 <= j < event.recovered_to_online@.len() && wb.contains_key(
                        event.recovered_to_online@[j],
                    ) ==> spec_is_online(
                        #[trigger] self.miners@[wb[event.recovered_to_online@[j]]].state,
                    ),
                self.miner_bindings == old(self).miner_bindings,
                self.stakes == old(self).stakes,
                self.worker_bindings == old(self).worker_bindings,
                self.online_miners == old(self).online_miners,
                self.messages == old(self).messages,
                old(self).same_config(*self),
            decreases n_rec - i,
        {
            let w = event.recovered_to_online[i];
            proof {
                assert(event.recovered_to_online@.take(i as int + 1)
                    =~= event.recovered_to_online@.take(i as int).push(w));
                lemma_apply_recovered_push(m1, wb, event.recovered_to_online@.take(i as int), w);
            }
            match self.worker_bindings.get(&w) {
                Some(account_ref) => {
                    let account = *account_ref;
                    let info = match self.miners.get(&account) {
                        Some(r) => *r,
                        None => {
                            // a bound miner always has a record
                            proof {
                                assert(false);
                            }
                            return ;
                        },
                    };
                    let updated = MinerInfo { state: MinerState::MiningIdle, ..info };
                    proof {
                        lemma_online_set_same(
                            self.miners@,
                            self.miners@.insert(account, updated),
                            account,
                            updated,
                        );
                    }
                    self.miners.insert(account, updated);
                    self.events.push(Event::MinerExitUnresponive(account));
                    proof {
                        assert(self.events@ =~= ev1 + recovered_events(
                            wb,
                            event.recovered_to_online@.take(i as int + 1),
                        ));
                    }
                },
                None => {
                    proof {
                        assert(self.events@ =~= ev1 + recovered_events(
                            wb,
                            event.recovered_to_online@.take(i as int + 1),
                        ));
                    }
                },
            }
            i = i + 1;
        }
        proof {
            assert(event.recovered_to_online@.take(n_rec as int)
                =~= event.recovered_to_online@);
        }

        let ghost m2 = apply_recovered(m1, wb, event.recovered_to_online@);
        let ghost ev2 = ev1 + recovered_events(wb, event.recovered_to_online@);
        proof {
            assert(event.settle@.skip(0) =~= event.settle@);
        }
        let mut i: usize = 0;
        let n_set = event.settle.len();
        while i < n_set
            invariant
                self.wf(),
                n_set == event.settle@.len(),
                i <= n_set,
                wb == self.worker_bindings@,
                self.miners@ == apply_settle(m2, wb, event.settle@.take(i as int), now),
                self.events@ == ev2 + settle_events(wb, event.settle@.take(i as int)),
                settle_ok(self.miners@, wb, event.settle@.skip(i as int), now),
                self.miner_bindings == old(self).miner_bindings,
                self.stakes == old(self).stakes,
                self.worker_bindings == old(self).worker_bindings,
                self.online_miners == old(self).online_miners,
                self.messages == old(self).messages,
                old(self).same_config(*self),
            decreases n_set - i,
        {
            let e = event.settle[i];
            proof {
                assert(event.settle@.take(i as int + 1) =~= event.settle@.take(i as int).push(e));
                lemma_apply_settle_push(m2, wb, event.settle@.take(i as int), e, now);
                assert(event.settle@.skip(i as int)[0] == e);
                assert(event.settle@.skip(i as int).drop_first() =~= event.settle@.skip(
                    i as int + 1,
                ));
            }
            match self.worker_bindings.get(&e.pubkey) {
                Some(account_ref) => {
                    let account = *account_ref;
                    let mut info = match self.miners.get(&account) {
                        Some(r) => *r,
                        None => {
                            // a bound miner always has a record
                            proof {
                                assert(false);
                            }
                            return ;
                        },
                    };
                    info.v = e.v;
                    info.v_updated_at = now;
                    info.stats.on_reward(e.payout);
                    proof {
                        lemma_online_set_same(
                            self.miners@,
                            self.miners@.insert(account, info),
                            account,
                            info,
                        );
                    }
                    self.miners.insert(account, info);
                    self.events.push(Event::MinerSettled(account, e.v, e.payout));
                    proof {
                        assert(self.events@ =~= ev2 + settle_events(
                            wb,
                            event.settle@.take(i as int + 1),
                        ));
                    }
                },
                None => {
                    proof {
                        assert(self.events@ =~= ev2 + settle_events(
                            wb,
                            event.settle@.take(i as int + 1),
                        ));
                    }
                },
            }
            i = i + 1;
        }
        proof {
            assert(event.settle@.take(n_set as int) =~= event.settle@);
        }
    }
}

} // verus!
