use std::str::FromStr;

use fixed::types::U64F64;
use phala_mining::tokenomic::{default_tokenomic_parameters, Tokenomic};

const DOLLARS: u128 = 1_000_000_000_000;

fn fp_bits(s: &str) -> u128 {
    U64F64::from_str(s).unwrap().to_bits()
}

#[test]
fn test_tokenomic() {
    let params = default_tokenomic_parameters();
    let tokenomic = Tokenomic::new(params);
    fn pow(x: U64F64, n: u32) -> U64F64 {
        let mut i = n;
        let mut x_pow2 = x;
        let mut z = U64F64::from_num(1);
        while i > 0 {
            if i & 1 == 1 {
                z *= x_pow2;
            }
            x_pow2 *= x_pow2;
            i >>= 1;
        }
        z
    }
    // Vmax
    assert_eq!(tokenomic.v_max(), fp_bits("30000"));
    // Minimal stake
    assert_eq!(tokenomic.minimal_stake(1000), 3162_277660146355);
    // Ve for different confidence level
    assert_eq!(tokenomic.ve(1000 * DOLLARS, 1000, 1), fp_bits("1950.00000000000000001626"));
    assert_eq!(tokenomic.ve(1000 * DOLLARS, 1000, 2), fp_bits("1950.00000000000000001626"));
    assert_eq!(tokenomic.ve(1000 * DOLLARS, 1000, 3), fp_bits("1950.00000000000000001626"));
    assert_eq!(tokenomic.ve(1000 * DOLLARS, 1000, 4), fp_bits("1819.99999999999999998694"));
    assert_eq!(tokenomic.ve(1000 * DOLLARS, 1000, 5), fp_bits("1754.9999999999999999723"));
    // Rig cost estimation
    assert_eq!(tokenomic.rig_cost(500), fp_bits("150.0000000000000000054"));
    assert_eq!(tokenomic.rig_cost(2000), fp_bits("600.0000000000000000217"));
    assert_eq!(tokenomic.rig_cost(2800), fp_bits("840.00000000000000003036"));

    const BLOCK_SEC: u32 = 12;
    const HOUR_BLOCKS: u32 = 3600 / BLOCK_SEC;
    // Slash per hour (around 0.1%)
    let slash_rate = U64F64::from_bits(params.slash_rate);
    let slash_decay = U64F64::from_num(1) - slash_rate;
    assert_eq!(pow(slash_decay, HOUR_BLOCKS), U64F64::from_str("0.9990004981683704595").unwrap());
    // Budget per day
    let budger_per_sec = U64F64::from_bits(params.budget_per_sec);
    assert_eq!(
        budger_per_sec * 3600u128 * 24u128,
        U64F64::from_str("719999.99999999999999843875").unwrap()
    );
    // Cost estimation per year
    assert_eq!(
        U64F64::from_bits(tokenomic.op_cost(2000)) * 3600u128 * 24u128 * 365u128,
        U64F64::from_str("171.71874999890369452304").unwrap()
    );
}

#[test]
fn test_confidence_score_defaults() {
    // levels 1-3 score 1; 4 and 5 are discounted; anything else falls
    // back to the level-1 value
    let one = U64F64::from_num(1).to_bits();
    assert_eq!(Tokenomic::confidence_score(1), one);
    assert_eq!(Tokenomic::confidence_score(2), one);
    assert_eq!(Tokenomic::confidence_score(3), one);
    assert_eq!(Tokenomic::confidence_score(4), fp_bits("0.8"));
    assert_eq!(Tokenomic::confidence_score(5), fp_bits("0.7"));
    assert_eq!(Tokenomic::confidence_score(0), one);
    assert_eq!(Tokenomic::confidence_score(6), one);
    assert_eq!(Tokenomic::confidence_score(255), one);
}

#[test]
fn test_minimal_stake_of_default_params() {
    // k = 100, so the minimal stake scales with the square root of the
    // benchmark score
    let tokenomic = Tokenomic::new(default_tokenomic_parameters());
    assert_eq!(tokenomic.minimal_stake(600), 2449_489742773585);
    assert_eq!(tokenomic.minimal_stake(0), 0);
}
