//! Per-worker benchmark tracking: smooths reported work-iteration counters
//! into an instantaneous performance score.

use vstd::prelude::*;

verus! {

/// A benchmark snapshot for one bound worker.
#[derive(Clone, Copy, PartialEq, Eq, Debug, Structural)]
pub struct Benchmark {
    /// Smoothed instantaneous performance score.
    pub p_instant: u32,
    /// Monotonically increasing work-iteration counter.
    pub iterations: u64,
    /// When the current mining session started, in seconds.
    pub mining_start_time: u64,
    /// When the last accepted report arrived, in seconds.
    pub updated_at: u64,
}

/// The instantaneous score of an accepted report: the iteration delta
/// normalized to a 6-second cadence by truncating division, then capped at
/// 120% of the worker's benchmarked initial score.  The cap is applied to
/// the full-width rate, so the result always fits the score's 32 bits.
pub open spec fn spec_p_instant(
    delta_iter: u64,
    delta_ts: u64,
    initial_score: u32,
) -> int {
    let raw = (6 * delta_iter) as int / delta_ts as int;
    let cap = (initial_score * 12 / 10) as int;
    if raw <= cap {
        raw
    } else {
        cap
    }
}

impl Benchmark {
    /// A zeroed benchmark for a session starting `now`.
    pub fn reset(now: u64) -> (r: Benchmark)
        ensures
            r == (Benchmark {
                p_instant: 0u32,
                iterations: 0u64,
                mining_start_time: now,
                updated_at: 0u64,
            }),
    {
        Benchmark { p_instant: 0, iterations: 0, mining_start_time: now, updated_at: 0 }
    }

    /// Records the latest benchmark snapshot and updates `p_instant`.
    ///
    /// A report whose timestamp or iteration counter is not strictly greater
    /// than the previous one is rejected without mutating anything; the
    /// caller discards that one report and continues.
    pub fn update(&mut self, updated_at: u64, iterations: u64, initial_score: u32) -> (r: Result<
        (),
        (),
    >)
        requires
            (updated_at > old(self).updated_at && iterations > old(self).iterations) ==> {
                &&& 6 * (iterations - old(self).iterations) <= u64::MAX
                &&& initial_score * 12 <= u32::MAX
            },
        ensures
            r is Ok <==> (updated_at > old(self).updated_at && iterations > old(
                self,
            ).iterations),
            r is Err ==> *final(self) == *old(self),
            r is Ok ==> *final(self) == (Benchmark {
                p_instant: spec_p_instant(
                    (iterations - old(self).iterations) as u64,
                    (updated_at - old(self).updated_at) as u64,
                    initial_score,
                ) as u32,
                iterations,
                mining_start_time: old(self).mining_start_time,
                updated_at,
            }),
    {
        if updated_at <= self.updated_at || iterations <= self.iterations {
            return Err(());
        }
        let delta_iter = iterations - self.iterations;
        let delta_ts = updated_at - self.updated_at;
        self.updated_at = updated_at;
        self.iterations = iterations;
        let raw: u64 = delta_iter * 6 / delta_ts;
        let cap = initial_score * 12 / 10;
        self.p_instant = if raw <= cap as u64 {
            raw as u32
        } else {
            cap
        };
        proof {
            assert(delta_iter * 6 == 6 * delta_iter);
        }
        Ok(())
    }
}

} // verus!
