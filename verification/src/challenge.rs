//! The adaptive challenge-difficulty generator: a 256-bit acceptance
//! threshold scaled to the online-miner population.

use vstd::prelude::*;
use vstd::arithmetic::div_mod::{lemma_div_is_ordered, lemma_div_is_ordered_by_denominator};

verus! {

/// A 256-bit value as four little-endian 64-bit limbs.
#[derive(Clone, Copy, PartialEq, Eq, Debug, Structural)]
pub struct Bits256 {
    pub w0: u64,
    pub w1: u64,
    pub w2: u64,
    pub w3: u64,
}

impl Bits256 {
    /// The numeric value of the four limbs.
    pub open spec fn value(self) -> int {
        self.w0 + self.w1 * 0x1_0000_0000_0000_0000 + self.w2
            * 0x1_0000_0000_0000_0000_0000_0000_0000_0000 + self.w3
            * 0x1_0000_0000_0000_0000_0000_0000_0000_0000_0000_0000_0000_0000
    }

    /// The all-zero value.
    pub fn zero() -> (r: Bits256)
        ensures
            r.value() == 0,
    {
        Bits256 { w0: 0, w1: 0, w2: 0, w3: 0 }
    }
}

/// The challenge threshold, scaled by 2^32 like the intermediate
/// fixed-point values of [`pow_target`]:
/// `frac = floor(targetTx * 2^24 / onlineMiners)` with
/// `targetTx = min(configured, onlineMiners * 2 / (3600 / secsPerBlock))`,
/// and the threshold is `(2^232 - 1) * frac`; zero when no miner is online.
pub open spec fn spec_pow_target(num_tx: u32, num_workers: u32, secs_per_block: u32) -> int {
    if num_workers == 0 {
        0
    } else {
        let q = 3600int / (secs_per_block as int);
        let max_tx = (2 * (num_workers as int) * 0x1_0000_0000) / q;
        let num_tx_bits = (num_tx as int) * 0x1_0000_0000;
        let target_bits = if num_tx_bits <= max_tx {
            num_tx_bits
        } else {
            max_tx
        };
        let ratio = target_bits / (num_workers as int);
        let frac = ratio / 0x100;
        frac * 0xFF_FFFF_FFFF_FFFF_FFFF_FFFF_FFFF_FFFF_FFFF_FFFF_FFFF_FFFF_FFFF_FFFF_FFFF
    }
}

/// Computes the proof-of-work acceptance threshold for heartbeat sampling.
///
/// Matches the 32.32 fixed-point evaluation of
/// `(MAX_256 >> 24) * floor((min(num_tx, num_workers * 2 / (3600 / secs_per_block))
/// / num_workers) << 24)`, with every division truncating.  With no online
/// worker the threshold is zero and no challenge is winnable.
pub fn pow_target(num_tx: u32, num_workers: u32, secs_per_block: u32) -> (r: Bits256)
    requires
        0 < secs_per_block <= 1800,
        num_workers < 0x8000_0000,
    ensures
        r.value() == spec_pow_target(num_tx, num_workers, secs_per_block),
{
    if num_workers == 0 {
        return Bits256::zero();
    }
    let q: u64 = (3600 / secs_per_block) as u64;
    proof {
        lemma_div_is_ordered_by_denominator(3600, secs_per_block as int, 1800);
        assert(q >= 2);
    }
    let nw2_bits: u64 = (num_workers as u64) * 2 * 0x1_0000_0000;
    let max_tx_bits: u64 = nw2_bits / q;
    let num_tx_bits: u64 = (num_tx as u64) * 0x1_0000_0000;
    let target_bits: u64 = if num_tx_bits <= max_tx_bits {
        num_tx_bits
    } else {
        max_tx_bits
    };
    let ratio: u64 = target_bits / (num_workers as u64);
    let frac: u64 = ratio / 0x100;
    proof {
        // q >= 2, so max_tx_bits <= num_workers * 2^32 and the scaled
        // ratio stays within 24 bits.
        lemma_div_is_ordered_by_denominator(nw2_bits as int, 2, q as int);
        assert((nw2_bits as int) / 2 == (num_workers as int) * 0x1_0000_0000);
        lemma_div_is_ordered(target_bits as int, (num_workers as int) * 0x1_0000_0000,
            num_workers as int);
        assert(((num_workers as int) * 0x1_0000_0000) / (num_workers as int) == 0x1_0000_0000)
            by (nonlinear_arith)
            requires
                num_workers > 0,
            ;
        assert(frac <= 0x100_0000);
    }
    if frac == 0 {
        return Bits256::zero();
    }
    let r = Bits256 {
        w0: (u64::MAX - frac) + 1,
        w1: u64::MAX,
        w2: u64::MAX,
        w3: (frac - 1) * 0x100_0000_0000 + 0xFF_FFFF_FFFF,
    };
    r
}

} // verus!
