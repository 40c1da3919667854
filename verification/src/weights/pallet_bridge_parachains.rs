//! Weights for the parachains bridge pallet of the Westend bridge hub.

use vstd::prelude::*;
use crate::weights::{saturated, RuntimeDbWeight, Weight};

verus! {

/// Weight functions for the parachains bridge pallet.
#[derive(Clone, Copy, Debug)]
pub struct WeightInfo {
    /// What one database read and one write cost in the runtime.
    pub db_weight: RuntimeDbWeight,
}

impl WeightInfo {
    /// Weight functions for a runtime with the given database costs.
    pub fn new(db_weight: RuntimeDbWeight) -> (info: WeightInfo)
        ensures
            info.db_weight == db_weight,
    {
        WeightInfo { db_weight }
    }

    /// A base reference time with four reads and three writes on top.
    pub open spec fn heads_ref_time(&self, base: int) -> int {
        base + 4 * self.db_weight.read + 3 * self.db_weight.write
    }

    /// The weight of a call with the given base reference time that reads
    /// four times and writes three times.
    fn heads_weight(&self, base: u64) -> (weight: Weight)
        ensures
            weight.ref_time == saturated(self.heads_ref_time(base as int)),
            weight.proof_size == 2543,
    {
        Weight::from_parts(base, 0).saturating_add(Weight::from_parts(0, 2543)).saturating_add(
            self.db_weight.reads(4),
        ).saturating_add(self.db_weight.writes(3))
    }

    /// The weight of submitting the heads of `_p` parachains. The number
    /// of parachains has no measurable part in it.
    pub fn submit_parachain_heads_with_n_parachains(&self, _p: u32) -> (weight: Weight)
        ensures
            weight.ref_time == saturated(self.heads_ref_time(31_567_220)),
            weight.proof_size == 2543,
    {
        self.heads_weight(31_567_220)
    }

    /// The weight of submitting parachain heads with a proof of one
    /// kilobyte.
    pub fn submit_parachain_heads_with_1kb_proof(&self) -> (weight: Weight)
        ensures
            weight.ref_time == saturated(self.heads_ref_time(32_570_000)),
            weight.proof_size == 2543,
    {
        self.heads_weight(32_570_000)
    }

    /// The weight of submitting parachain heads with a proof of sixteen
    /// kilobytes.
    pub fn submit_parachain_heads_with_16kb_proof(&self) -> (weight: Weight)
        ensures
            weight.ref_time == saturated(self.heads_ref_time(63_046_000)),
            weight.proof_size == 2543,
    {
        self.heads_weight(63_046_000)
    }
}

} // verus!
