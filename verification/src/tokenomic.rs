//! The tokenomic calculator: pure functions over a snapshot of the global
//! tokenomic parameters.  All values are 64.64 fixed-point bit patterns and
//! every operation truncates toward zero, so results replay bit-exactly.

use vstd::prelude::*;
use crate::fp::{
    balance_of_fixed, fdiv, fixed_of_balance, fmul, fp_div, fp_mul, fp_sqrt, from_fixed,
    lemma_fmul_le, spec_isqrt, to_fixed, FP_ONE,
};
use vstd::arithmetic::div_mod::lemma_div_is_ordered;

verus! {

/// Raw 64.64 bits of the confidence score for attestation level 4 (0.8).
pub const SCORE_LEVEL_4: u128 = 14757395258967641293;

/// Raw 64.64 bits of the confidence score for attestation level 5 (0.7).
pub const SCORE_LEVEL_5: u128 = 12912720851596686131;

/// The global versioned record of fixed-point tokenomic constants.
/// Every `u128` field except `heartbeat_window` is a raw 64.64 bit pattern.
#[derive(Clone, Copy, PartialEq, Eq, Debug, Structural)]
pub struct TokenomicParams {
    pub pha_rate: u128,
    pub rho: u128,
    pub budget_per_sec: u128,
    pub v_max: u128,
    pub cost_k: u128,
    pub cost_b: u128,
    pub slash_rate: u128,
    pub heartbeat_window: u32,
    pub rig_k: u128,
    pub rig_b: u128,
    pub re: u128,
    pub k: u128,
    pub kappa: u128,
}

/// Confidence level weighting: levels 1-3 score 1, level 4 scores 0.8,
/// level 5 scores 0.7, and any other level defaults to the level-1 value.
pub open spec fn spec_confidence_score(level: u8) -> int {
    if level == 4 {
        SCORE_LEVEL_4 as int
    } else if level == 5 {
        SCORE_LEVEL_5 as int
    } else {
        FP_ONE as int
    }
}

/// Raw bits of `rig_cost(p) = (rig_k * p + rig_b) / pha_rate`.
pub open spec fn spec_rig_cost(pp: TokenomicParams, p: u32) -> int {
    fdiv(fmul(pp.rig_k as int, (p as int) * (FP_ONE as int)) + pp.rig_b, pp.pha_rate as int)
}

/// The intermediate products of `rig_cost` stay inside the representation.
pub open spec fn rig_cost_ok(pp: TokenomicParams, p: u32) -> bool {
    &&& pp.pha_rate > 0
    &&& fmul(pp.rig_k as int, (p as int) * (FP_ONE as int)) <= u128::MAX
    &&& fmul(pp.rig_k as int, (p as int) * (FP_ONE as int)) + pp.rig_b <= u128::MAX
    &&& spec_rig_cost(pp, p) <= u128::MAX
}

/// Raw bits of `op_cost(p) = (cost_k * p + cost_b) / pha_rate`.
pub open spec fn spec_op_cost(pp: TokenomicParams, p: u32) -> int {
    fdiv(fmul(pp.cost_k as int, (p as int) * (FP_ONE as int)) + pp.cost_b, pp.pha_rate as int)
}

/// The intermediate products of `op_cost` stay inside the representation.
pub open spec fn op_cost_ok(pp: TokenomicParams, p: u32) -> bool {
    &&& pp.pha_rate > 0
    &&& fmul(pp.cost_k as int, (p as int) * (FP_ONE as int)) <= u128::MAX
    &&& fmul(pp.cost_k as int, (p as int) * (FP_ONE as int)) + pp.cost_b <= u128::MAX
    &&& spec_op_cost(pp, p) <= u128::MAX
}

/// Raw bits of `tweaked_re(level) = (re - 1) * confidence_score(level) + 1`.
pub open spec fn spec_tweaked_re(pp: TokenomicParams, level: u8) -> int {
    fmul(pp.re - FP_ONE, spec_confidence_score(level)) + FP_ONE
}

/// Raw bits of `ve(stake, p, level) = tweaked_re * (stake + rig_cost(p))`.
pub open spec fn spec_ve(pp: TokenomicParams, stake: u128, p: u32, level: u8) -> int {
    fmul(spec_tweaked_re(pp, level), fixed_of_balance(stake as int) + spec_rig_cost(pp, p))
}

/// The intermediate values of `ve` stay inside the representation.
pub open spec fn ve_ok(pp: TokenomicParams, stake: u128, p: u32, level: u8) -> bool {
    &&& stake < FP_ONE
    &&& pp.re >= FP_ONE
    &&& rig_cost_ok(pp, p)
    &&& fixed_of_balance(stake as int) + spec_rig_cost(pp, p) <= u128::MAX
    &&& spec_ve(pp, stake, p, level) <= u128::MAX
}

/// Balance units of `minimal_stake(p) = k * sqrt(p)`.
pub open spec fn spec_minimal_stake(pp: TokenomicParams, p: u32) -> int {
    balance_of_fixed(fmul(pp.k as int, 0x1_0000_0000 * (spec_isqrt((p as nat) * (FP_ONE as nat)) as int)))
}

/// The product `k * sqrt(p)` stays inside the representation.
pub open spec fn minimal_stake_ok(pp: TokenomicParams, p: u32) -> bool {
    fmul(pp.k as int, 0x1_0000_0000 * (spec_isqrt((p as nat) * (FP_ONE as nat)) as int)) <= u128::MAX
}

/// The default tokenomic parameters: rate 1, rho 1.00000099985 per block,
/// a 720000-per-day reward budget, score ceiling 30000, annual rig and
/// operating cost coefficients 0.3 / 0.0415625 / 88.59375 scaled to
/// per-second values, re 1.5, k 100 and kappa 1 — all as the raw 64.64
/// bit patterns their fixed-point derivations produce.
pub open spec fn spec_default_tokenomic_parameters() -> TokenomicParams {
    TokenomicParams {
        pha_rate: 18446744073709551616,
        rho: 18446762517686613714,
        budget_per_sec: 153722867280912930133,
        v_max: 553402322211286548480000,
        cost_k: 24311669221,
        cost_b: 51822242287550,
        slash_rate: 61489146912365,
        heartbeat_window: 10,
        rig_k: 5534023222112865485,
        rig_b: 0,
        re: 27670116110564327424,
        k: 1844674407370955161600,
        kappa: 18446744073709551616,
    }
}

/// Builds the default tokenomic parameter record.
pub fn default_tokenomic_parameters() -> (r: TokenomicParams)
    ensures
        r == spec_default_tokenomic_parameters(),
{
    TokenomicParams {
        pha_rate: 18446744073709551616,
        rho: 18446762517686613714,
        budget_per_sec: 153722867280912930133,
        v_max: 553402322211286548480000,
        cost_k: 24311669221,
        cost_b: 51822242287550,
        slash_rate: 61489146912365,
        heartbeat_window: 10,
        rig_k: 5534023222112865485,
        rig_b: 0,
        re: 27670116110564327424,
        k: 1844674407370955161600,
        kappa: 18446744073709551616,
    }
}

/// The tokenomic calculator over one parameter snapshot.  No internal
/// state: every method is a pure function of `params` and its arguments.
pub struct Tokenomic {
    pub params: TokenomicParams,
}

impl Tokenomic {
    pub fn new(params: TokenomicParams) -> (r: Tokenomic)
        ensures
            r.params == params,
    {
        Tokenomic { params }
    }

    /// The minimal stake required for a worker with initial score `p`,
    /// in balance units: `k * sqrt(p)`, truncated.
    pub fn minimal_stake(&self, p: u32) -> (r: u128)
        requires
            minimal_stake_ok(self.params, p),
        ensures
            r as int == spec_minimal_stake(self.params, p),
    {
        let p_fixed = (p as u128) * FP_ONE;
        let sqrt_p = fp_sqrt(p_fixed);
        let min_stake = fp_mul(self.params.k, sqrt_p);
        from_fixed(min_stake)
    }

    /// The initial promoted score `ve` assigned at mining start, as raw
    /// 64.64 bits: `tweaked_re * (stake + rig_cost(p))`.
    pub fn ve(&self, s: u128, p: u32, confidence_level: u8) -> (r: u128)
        requires
            ve_ok(self.params, s, p, confidence_level),
        ensures
            r as int == spec_ve(self.params, s, p, confidence_level),
    {
        let score = Self::confidence_score(confidence_level);
        proof {
            lemma_fmul_le(score as int, (self.params.re - FP_ONE) as int);
        }
        let tweaked_re = fp_mul(self.params.re - FP_ONE, score) + FP_ONE;
        let s_fixed = to_fixed(s);
        let c = self.rig_cost(p);
        fp_mul(tweaked_re, s_fixed + c)
    }

    /// The score ceiling, as raw 64.64 bits.
    pub fn v_max(&self) -> (r: u128)
        ensures
            r == self.params.v_max,
    {
        self.params.v_max
    }

    /// The estimated rig cost for a worker with initial score `p`, as raw
    /// 64.64 bits: `(rig_k * p + rig_b) / pha_rate`.
    pub fn rig_cost(&self, p: u32) -> (r: u128)
        requires
            rig_cost_ok(self.params, p),
        ensures
            r as int == spec_rig_cost(self.params, p),
    {
        let p_fixed = (p as u128) * FP_ONE;
        let kp = fp_mul(self.params.rig_k, p_fixed);
        fp_div(kp + self.params.rig_b, self.params.pha_rate)
    }

    /// The estimated operating cost per second for a worker with initial
    /// score `p`, as raw 64.64 bits: `(cost_k * p + cost_b) / pha_rate`.
    pub fn op_cost(&self, p: u32) -> (r: u128)
        requires
            op_cost_ok(self.params, p),
        ensures
            r as int == spec_op_cost(self.params, p),
    {
        let p_fixed = (p as u128) * FP_ONE;
        let kp = fp_mul(self.params.cost_k, p_fixed);
        fp_div(kp + self.params.cost_b, self.params.pha_rate)
    }

    /// Converts a confidence level to its fixed-point weighting.
    pub fn confidence_score(confidence_level: u8) -> (r: u128)
        ensures
            r as int == spec_confidence_score(confidence_level),
    {
        if confidence_level == 4 {
            SCORE_LEVEL_4
        } else if confidence_level == 5 {
            SCORE_LEVEL_5
        } else {
            FP_ONE
        }
    }
}

} // verus!
