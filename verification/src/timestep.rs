//! The fixed-timestep accumulator.
//!
//! Wall-clock time arrives in variable-sized deltas, in integer time units.
//! The accumulator banks them and pays out whole fixed ticks: however the
//! elapsed time is chunked across frames, the cumulative number of ticks is
//! `floor(total_elapsed / tick)`.

use vstd::arithmetic::div_mod::{lemma_fundamental_div_mod, lemma_fundamental_div_mod_converse};
use vstd::prelude::*;

verus! {

/// Banks elapsed time and converts it into whole fixed-rate ticks.
pub struct Accumulator {
    /// Time units banked so far; always less than `tick`.
    pub acc: u64,
    /// Duration of one fixed tick, in time units; always positive.
    pub tick: u64,
}

/// The sum of a sequence of deltas.
pub open spec fn sum_deltas(ds: Seq<u64>) -> int
    decreases ds.len(),
{
    if ds.len() == 0 {
        0
    } else {
        ds[0] + sum_deltas(ds.skip(1))
    }
}

/// The cumulative number of ticks paid out when the deltas `ds` are fed one
/// by one into an accumulator holding `acc`, with tick duration `tick`.
pub open spec fn ticks_of(acc: int, tick: int, ds: Seq<u64>) -> int
    decreases ds.len(),
{
    if ds.len() == 0 {
        0
    } else {
        (acc + ds[0]) / tick + ticks_of((acc + ds[0]) % tick, tick, ds.skip(1))
    }
}

proof fn lemma_sum_deltas_nonneg(ds: Seq<u64>)
    ensures
        sum_deltas(ds) >= 0,
    decreases ds.len(),
{
    if ds.len() > 0 {
        lemma_sum_deltas_nonneg(ds.skip(1));
    }
}

/// Fixed-timestep determinism: feeding any sequence of wall-clock deltas
/// into the accumulator pays out exactly `floor((acc + total) / tick)` ticks
/// in all, so the count depends only on the total elapsed time, not on how
/// it was chunked across polls.
pub proof fn lemma_fixed_timestep_determinism(acc: int, tick: int, ds: Seq<u64>)
    requires
        0 < tick,
        0 <= acc < tick,
    ensures
        ticks_of(acc, tick, ds) == (acc + sum_deltas(ds)) / tick,
    decreases ds.len(),
{
    if ds.len() == 0 {
        assert(acc / tick == 0) by (nonlinear_arith)
            requires
                0 < tick,
                0 <= acc < tick,
        {}
    } else {
        let a1 = acc + ds[0];
        let rest = ds.skip(1);
        let s1 = sum_deltas(rest);
        lemma_sum_deltas_nonneg(rest);
        lemma_fundamental_div_mod(a1, tick);
        lemma_fixed_timestep_determinism(a1 % tick, tick, rest);
        let q2 = (a1 % tick + s1) / tick;
        let r2 = (a1 % tick + s1) % tick;
        lemma_fundamental_div_mod(a1 % tick + s1, tick);
        assert(a1 + s1 == (a1 / tick + q2) * tick + r2) by (nonlinear_arith)
            requires
                a1 == tick * (a1 / tick) + a1 % tick,
                a1 % tick + s1 == tick * q2 + r2,
        {}
        lemma_fundamental_div_mod_converse(a1 + s1, tick, a1 / tick + q2, r2);
    }
}

impl Accumulator {
    /// The accumulator's invariant: a positive tick, and a banked remainder
    /// strictly below one tick.
    pub open spec fn wf(self) -> bool {
        0 < self.tick && self.acc < self.tick
    }

    pub fn new(tick: u64) -> (r: Accumulator)
        requires
            0 < tick,
        ensures
            r.wf(),
            r.tick == tick,
            r.acc == 0,
    {
        Accumulator { acc: 0, tick }
    }

    /// Banks `delta` more time units and pays out the whole ticks now owed:
    /// the quotient of the banked total by the tick duration, keeping the
    /// remainder banked.
    pub fn advance(&mut self, delta: u64) -> (ticks: u64)
        requires
            old(self).wf(),
            old(self).acc + delta <= u64::MAX,
        ensures
            final(self).wf(),
            final(self).tick == old(self).tick,
            ticks == (old(self).acc + delta) / (old(self).tick as int),
            final(self).acc == (old(self).acc + delta) % (old(self).tick as int),
    {
        let total = self.acc + delta;
        let ticks = total / self.tick;
        self.acc = total % self.tick;
        ticks
    }
}

} // verus!
