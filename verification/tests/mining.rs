use phala_mining::bench::Benchmark;
use phala_mining::challenge::Bits256;
use phala_mining::state::{GenesisConfig, MiningState, ReclaimOutcome};
use phala_mining::tokenomic::default_tokenomic_parameters;
use phala_mining::types::{Error, Event, MinerState, OutMessage, WorkerEntry};
use primitive_types::U256;

const DOLLARS: u128 = 1_000_000_000_000;

fn new_state() -> MiningState {
    MiningState::new(GenesisConfig::default())
}

fn registered(score: u32) -> Option<WorkerEntry> {
    Some(WorkerEntry { initial_score: Some(score), confidence_level: 1 })
}

#[test]
fn test_heartbeat_challenge() {
    let mut state = new_state();
    state.online_miners = 20;
    let seed = Bits256 { w0: 7, w1: 0, w2: 0, w3: 0 };
    let n_before = state.messages.len();
    state.heartbeat_challenge(seed, 12);
    assert_eq!(state.messages.len(), n_before + 1);
    match state.messages.last().unwrap() {
        OutMessage::HeartbeatChallenge { seed: s, online_target: t } => {
            assert_eq!(*s, seed);
            assert_eq!(
                U256([t.w0, t.w1, t.w2, t.w3]),
                U256::from_dec_str(
                    "771946525395830978497002573683960742805751636319313395421818009383503547160"
                )
                .unwrap()
            );
        }
        other => panic!("Wrong outbound message: {:?}", other),
    }
}

#[test]
fn test_bind_unbind() {
    let mut state = new_state();
    // Bind & unbind normally
    assert_eq!(state.bind(1, 1, registered(100), 0), Ok(()));
    assert_eq!(state.unbind_miner(1, false, 0), Ok(None));
    assert_eq!(
        state.events.as_slice(),
        [Event::MinerBound(1, 1), Event::MinerUnbound(1, 1)]
    );
    // Checks edge cases: worker 100 is not registered
    assert_eq!(state.bind(1, 100, None, 0), Err(Error::WorkerNotRegistered));
    assert_eq!(state.unbind_miner(1, false, 0), Err(Error::MinerNotBound));
    // No double binding
    assert_eq!(state.bind(2, 2, registered(100), 0), Ok(()));
    assert_eq!(state.bind(2, 1, registered(100), 0), Err(Error::DuplicateBoundMiner));
    assert_eq!(state.bind(1, 2, registered(100), 0), Err(Error::DuplicateBoundMiner));
    // Binding is a bijection
    assert_eq!(state.ensure_miner_bound(2), Ok(2));
    assert_eq!(state.ensure_worker_bound(2), Ok(2));
}

#[test]
fn test_bind_requires_benchmark() {
    let mut state = new_state();
    let no_score = Some(WorkerEntry { initial_score: None, confidence_level: 1 });
    assert_eq!(state.bind(1, 1, no_score, 0), Err(Error::BenchmarkMissing));
    assert!(state.miners(1).is_none());
}

#[test]
fn test_benchmark_report() {
    let mut state = new_state();
    // 100 iters per sec, initial benchmark score 600
    assert_eq!(state.bind(1, 1, registered(600), 0), Ok(()));

    // 110% boost
    assert_eq!(state.on_mining_message_received(1, 11000, registered(600), 100), Ok(()));
    let miner = state.miners(1).unwrap();
    assert_eq!(
        miner.benchmark,
        Benchmark { p_instant: 660, iterations: 11000, mining_start_time: 0, updated_at: 100 }
    );

    // 150% boost (capped)
    assert_eq!(
        state.on_mining_message_received(1, 11000 + 15000, registered(600), 200),
        Ok(())
    );
    let miner = state.miners(1).unwrap();
    assert_eq!(
        miner.benchmark,
        Benchmark { p_instant: 720, iterations: 26000, mining_start_time: 0, updated_at: 200 }
    );
}

#[test]
fn test_benchmark_rejects_stale_reports() {
    let mut bench = Benchmark { p_instant: 0, iterations: 0, mining_start_time: 0, updated_at: 0 };
    assert_eq!(bench.update(100, 11000, 600), Ok(()));
    let snapshot = bench;
    // same timestamp
    assert_eq!(bench.update(100, 12000, 600), Err(()));
    assert_eq!(bench, snapshot);
    // same iteration counter
    assert_eq!(bench.update(150, 11000, 600), Err(()));
    assert_eq!(bench, snapshot);
    // both going backwards
    assert_eq!(bench.update(50, 10000, 600), Err(()));
    assert_eq!(bench, snapshot);
    // a stale report does no arithmetic at all, whatever the score
    assert_eq!(bench.update(100, 11000, u32::MAX), Err(()));
    assert_eq!(bench, snapshot);
}

#[test]
fn test_heartbeat_from_unbound_worker() {
    let mut state = new_state();
    assert_eq!(
        state.on_mining_message_received(9, 1000, registered(600), 100),
        Err(Error::WorkerNotBound)
    );
}

#[test]
fn test_start_mining_checks() {
    let mut state = new_state();
    // not bound
    assert_eq!(state.start_mining(1, 3000 * DOLLARS, None, 0), Err(Error::MinerNotFound));
    assert_eq!(state.bind(1, 1, registered(600), 0), Ok(()));
    // worker bound but benchmark gone from the registry record
    let no_score = Some(WorkerEntry { initial_score: None, confidence_level: 1 });
    assert_eq!(state.start_mining(1, 3000 * DOLLARS, no_score, 0), Err(Error::BenchmarkMissing));
    // minimal stake for p = 600 is 100 * sqrt(600) = 2449.489742773585
    assert_eq!(
        state.start_mining(1, 2449 * DOLLARS, registered(600), 0),
        Err(Error::InsufficientStake)
    );
    // ve(25000, 600, 1) = 1.5 * (25000 + 180) = 37770 > v_max = 30000
    assert_eq!(
        state.start_mining(1, 25000 * DOLLARS, registered(600), 0),
        Err(Error::TooMuchStake)
    );
    // no state was mutated by the failures
    assert_eq!(state.miners(1).unwrap().state, MinerState::Ready);
    assert_eq!(state.online_miners(), 0);
    assert!(state.stakes(1).is_none());

    // a valid start: ve = 1.5 * (3000 + 180.0000000000000000065) = 4770.0..
    assert_eq!(state.start_mining(1, 3000 * DOLLARS, registered(600), 5), Ok(()));
    let info = state.miners(1).unwrap();
    assert_eq!(info.state, MinerState::MiningIdle);
    assert_eq!(info.ve, 87990969231594561208500);
    assert_eq!(info.v, 87990969231594561208500);
    assert_eq!(info.v_updated_at, 5);
    assert_eq!(state.stakes(1), Some(3000 * DOLLARS));
    assert_eq!(state.online_miners(), 1);
    assert_eq!(
        state.messages.last().unwrap(),
        &OutMessage::MiningStart { worker: 1, session_id: 0, init_v: 87990969231594561208500 }
    );
    assert_eq!(state.events.last().unwrap(), &Event::MinerStarted(1));

    // already mining
    assert_eq!(state.start_mining(1, 3000 * DOLLARS, registered(600), 6), Err(Error::MinerNotReady));
}

#[test]
fn test_session_ids_are_monotonic() {
    let mut state = new_state();
    assert_eq!(state.bind(1, 1, registered(600), 0), Ok(()));
    assert_eq!(state.bind(2, 2, registered(600), 0), Ok(()));
    assert_eq!(state.start_mining(1, 3000 * DOLLARS, registered(600), 0), Ok(()));
    assert_eq!(state.start_mining(2, 3000 * DOLLARS, registered(600), 0), Ok(()));
    let ids: Vec<u32> = state
        .messages
        .iter()
        .filter_map(|m| match m {
            OutMessage::MiningStart { session_id, .. } => Some(*session_id),
            _ => None,
        })
        .collect();
    assert_eq!(ids, vec![0, 1]);
}

#[test]
fn test_stop_mining_decrements_online() {
    let mut state = new_state();
    assert_eq!(state.stop_mining(1, 10), Err(Error::MinerNotBound));
    assert_eq!(state.bind(1, 1, registered(600), 0), Ok(()));
    // Ready is not a mining state
    assert_eq!(state.stop_mining(1, 10), Err(Error::MinerNotMining));
    assert_eq!(state.start_mining(1, 3000 * DOLLARS, registered(600), 0), Ok(()));
    assert_eq!(state.online_miners(), 1);
    assert_eq!(state.stop_mining(1, 10), Ok(()));
    // exactly one less online miner, cooling down stamped with now
    assert_eq!(state.online_miners(), 0);
    let info = state.miners(1).unwrap();
    assert_eq!(info.state, MinerState::MiningCoolingDown);
    assert_eq!(info.cool_down_start, 10);
    assert_eq!(state.messages.last().unwrap(), &OutMessage::MiningStop { worker: 1 });
    // stopping twice fails
    assert_eq!(state.stop_mining(1, 11), Err(Error::MinerNotMining));
}

#[test]
fn test_reclaim_waits_for_cooldown() {
    let mut state = new_state();
    state.set_cool_down_expiration(100);
    assert_eq!(state.events.last().unwrap(), &Event::CoolDownExpirationChanged(100));
    assert_eq!(state.reclaim(1, 0).unwrap_err(), Error::MinerNotFound);
    assert_eq!(state.bind(1, 1, registered(600), 0), Ok(()));
    // not cooling down yet
    assert_eq!(state.reclaim(1, 0).unwrap_err(), Error::CoolDownNotReady);
    assert_eq!(state.start_mining(1, 3000 * DOLLARS, registered(600), 0), Ok(()));
    assert_eq!(state.stop_mining(1, 50), Ok(()));
    // 99 seconds into a 100 second cool down
    assert_eq!(state.reclaim(1, 149).unwrap_err(), Error::CoolDownNotReady);
    // v == ve, so the whole stake comes back
    let outcome = state.reclaim(1, 150).unwrap();
    assert_eq!(
        outcome,
        ReclaimOutcome { orig_stake: 3000 * DOLLARS, returned: 3000 * DOLLARS, slashed: 0 }
    );
    let info = state.miners(1).unwrap();
    assert_eq!(info.state, MinerState::Ready);
    assert_eq!(info.cool_down_start, 0);
    assert!(state.stakes(1).is_none());
    assert_eq!(
        state.events.last().unwrap(),
        &Event::MinerReclaimed(1, 3000 * DOLLARS, 0)
    );
}

#[test]
fn test_reclaim_slashes_low_scores() {
    let mut state = new_state();
    state.set_cool_down_expiration(100);
    assert_eq!(state.bind(1, 1, registered(600), 0), Ok(()));
    assert_eq!(state.start_mining(1, 3000 * DOLLARS, registered(600), 0), Ok(()));
    // halve the score: v = ve / 2
    let ve = state.miners(1).unwrap().ve;
    let mut info = state.miners(1).unwrap();
    info.v = ve / 2;
    state.miners.insert(1, info);
    assert_eq!(state.stop_mining(1, 0), Ok(()));
    let outcome = state.reclaim(1, 100).unwrap();
    assert_eq!(outcome.orig_stake, 3000 * DOLLARS);
    assert_eq!(outcome.returned, 1500 * DOLLARS);
    assert_eq!(outcome.slashed, 1500 * DOLLARS);
}

#[test]
fn test_forced_unbind_stops_mining() {
    let mut state = new_state();
    assert_eq!(state.bind(1, 1, registered(600), 0), Ok(()));
    assert_eq!(state.start_mining(1, 3000 * DOLLARS, registered(600), 0), Ok(()));
    // actively mining: the unbind forces a stop first, and the forced
    // flag is observable in the notification
    let notification = state.unbind_miner(1, true, 42).unwrap();
    assert_eq!(notification, Some((1, true)));
    assert_eq!(state.online_miners(), 0);
    let info = state.miners(1).unwrap();
    assert_eq!(info.state, MinerState::MiningCoolingDown);
    assert_eq!(info.cool_down_start, 42);
    assert_eq!(state.ensure_miner_bound(1), Err(Error::MinerNotBound));
    assert_eq!(state.ensure_worker_bound(1), Err(Error::WorkerNotBound));
    let n = state.events.len();
    assert_eq!(
        &state.events[n - 2..],
        [Event::MinerStopped(1), Event::MinerUnbound(1, 1)]
    );
}

#[test]
fn test_clean_unbind_is_not_forced() {
    let mut state = new_state();
    assert_eq!(state.bind(1, 1, registered(600), 0), Ok(()));
    let notification = state.unbind_miner(1, true, 0).unwrap();
    assert_eq!(notification, Some((1, false)));
}

#[test]
fn test_rebind_resets_record() {
    let mut state = new_state();
    assert_eq!(state.bind(1, 1, registered(600), 0), Ok(()));
    assert_eq!(state.start_mining(1, 3000 * DOLLARS, registered(600), 0), Ok(()));
    assert_eq!(state.unbind_miner(1, false, 10), Ok(None));
    // the record survives the unbind, cooling down
    assert_eq!(state.miners(1).unwrap().state, MinerState::MiningCoolingDown);
    // a re-bind resets it to a fresh Ready record
    assert_eq!(state.bind(1, 2, registered(700), 20), Ok(()));
    let info = state.miners(1).unwrap();
    assert_eq!(info.state, MinerState::Ready);
    assert_eq!(info.ve, 0);
    assert_eq!(info.v, 0);
    assert_eq!(info.stats.total_reward, 0);
    assert_eq!(info.benchmark.mining_start_time, 20);
    assert!(state.stakes(1).is_none());
}

#[test]
fn test_update_tokenomic_parameters_broadcasts() {
    let mut state = new_state();
    let mut params = default_tokenomic_parameters();
    params.k = 42;
    state.update_tokenomic_parameters(params);
    assert_eq!(
        state.messages.last().unwrap(),
        &OutMessage::TokenomicParametersChanged(params)
    );
    assert_eq!(state.tokenomic_params.k, 42);
}

#[test]
fn test_benchmark_caps_oversized_rates() {
    // the cap applies to the full-width normalized rate: 6 * 2^33
    // iterations in one second still scores exactly 120% of the initial
    // benchmark
    let mut bench = Benchmark { p_instant: 0, iterations: 0, mining_start_time: 0, updated_at: 0 };
    assert_eq!(bench.update(1, 8589934592, 600), Ok(()));
    assert_eq!(bench.p_instant, 720);
    assert_eq!(bench.iterations, 8589934592);
    assert_eq!(bench.updated_at, 1);
}
