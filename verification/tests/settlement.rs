use phala_mining::settle::MiningInfoUpdate;
use phala_mining::state::{GenesisConfig, MiningState};
use phala_mining::types::{Event, MinerState, SettleInfo, WorkerEntry};

const DOLLARS: u128 = 1_000_000_000_000;
const FP_ONE: u128 = 0x1_0000_0000_0000_0000;

fn registered(score: u32) -> Option<WorkerEntry> {
    Some(WorkerEntry { initial_score: Some(score), confidence_level: 1 })
}

fn mining_state_with_two_miners() -> MiningState {
    let mut state = MiningState::new(GenesisConfig::default());
    assert_eq!(state.bind(1, 11, registered(600), 0), Ok(()));
    assert_eq!(state.bind(2, 22, registered(600), 0), Ok(()));
    assert_eq!(state.start_mining(1, 3000 * DOLLARS, registered(600), 0), Ok(()));
    assert_eq!(state.start_mining(2, 3000 * DOLLARS, registered(600), 0), Ok(()));
    state
}

#[test]
fn test_settlement_batch() {
    let mut state = mining_state_with_two_miners();
    let n_events = state.events.len();
    // worker 11 went offline; worker 22 settles with a new v and a payout
    // of 5.5 units; worker 99 was unbound between aggregation and
    // delivery and its entries are skipped silently
    let batch = MiningInfoUpdate {
        offline: vec![11, 99],
        recovered_to_online: vec![],
        settle: vec![
            SettleInfo { pubkey: 22, v: 123 * FP_ONE, payout: 11 * FP_ONE / 2 },
            SettleInfo { pubkey: 99, v: 1, payout: 1 },
        ],
    };
    state.on_gk_message_received(&batch, 77);

    let info1 = state.miners(1).unwrap();
    assert_eq!(info1.state, MinerState::MiningUnresponsive);
    let info2 = state.miners(2).unwrap();
    assert_eq!(info2.state, MinerState::MiningIdle);
    assert_eq!(info2.v, 123 * FP_ONE);
    assert_eq!(info2.v_updated_at, 77);
    assert_eq!(info2.stats.total_reward, 5_500_000_000_000);
    // the counter ignores moves within the online states
    assert_eq!(state.online_miners(), 2);
    assert_eq!(
        &state.events[n_events..],
        [
            Event::MinerEnterUnresponsive(1),
            Event::MinerSettled(2, 123 * FP_ONE, 11 * FP_ONE / 2),
        ]
    );
}

#[test]
fn test_settlement_recovery() {
    let mut state = mining_state_with_two_miners();
    let offline = MiningInfoUpdate {
        offline: vec![11],
        recovered_to_online: vec![],
        settle: vec![],
    };
    state.on_gk_message_received(&offline, 10);
    assert_eq!(state.miners(1).unwrap().state, MinerState::MiningUnresponsive);
    let n_events = state.events.len();
    let recover = MiningInfoUpdate {
        offline: vec![],
        recovered_to_online: vec![11, 99],
        settle: vec![],
    };
    state.on_gk_message_received(&recover, 20);
    assert_eq!(state.miners(1).unwrap().state, MinerState::MiningIdle);
    assert_eq!(state.online_miners(), 2);
    assert_eq!(&state.events[n_events..], [Event::MinerExitUnresponive(1)]);
}

#[test]
fn test_settlement_rewards_accumulate() {
    let mut state = mining_state_with_two_miners();
    for _ in 0..3 {
        let batch = MiningInfoUpdate {
            offline: vec![],
            recovered_to_online: vec![],
            settle: vec![SettleInfo { pubkey: 22, v: 5000 * FP_ONE, payout: 2 * FP_ONE }],
        };
        state.on_gk_message_received(&batch, 30);
    }
    assert_eq!(state.miners(2).unwrap().stats.total_reward, 6 * DOLLARS);
}

#[test]
fn test_empty_settlement_batch_is_noop() {
    let mut state = mining_state_with_two_miners();
    let snapshot_events = state.events.len();
    let snapshot_info1 = state.miners(1).unwrap();
    let batch = MiningInfoUpdate { offline: vec![], recovered_to_online: vec![], settle: vec![] };
    assert!(batch.is_empty());
    state.on_gk_message_received(&batch, 99);
    assert_eq!(state.events.len(), snapshot_events);
    assert_eq!(state.miners(1).unwrap(), snapshot_info1);
}

#[test]
fn test_can_settle_states() {
    assert!(!MinerState::Ready.can_settle());
    assert!(MinerState::MiningIdle.can_settle());
    assert!(MinerState::MiningActive.can_settle());
    assert!(MinerState::MiningUnresponsive.can_settle());
    assert!(MinerState::MiningCoolingDown.can_settle());
    assert!(MinerState::Ready.can_unbind());
    assert!(MinerState::MiningCoolingDown.can_unbind());
    assert!(!MinerState::MiningIdle.can_unbind());
    assert!(!MinerState::MiningActive.can_unbind());
    assert!(!MinerState::MiningUnresponsive.can_unbind());
}
