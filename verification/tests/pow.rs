use phala_mining::challenge::{pow_target, Bits256};
use primitive_types::U256;

fn as_u256(b: Bits256) -> U256 {
    U256([b.w0, b.w1, b.w2, b.w3])
}

#[test]
fn test_pow_target() {
    // No target
    assert_eq!(as_u256(pow_target(20, 0, 12)), U256::zero());
    // Capped target
    assert_eq!(
        as_u256(pow_target(20, 20, 12)),
        U256::from_dec_str(
            "771946525395830978497002573683960742805751636319313395421818009383503547160"
        )
        .unwrap()
    );
    // Not capped target (int(((1 << 256) - 1) * 20 / 200_000))
    assert_eq!(
        as_u256(pow_target(20, 200_000, 12)),
        U256::from_dec_str(
            "11574228623567775471528085581038571683760509746329738253007553123311417715"
        )
        .unwrap()
    );
}
