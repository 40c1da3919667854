//! Weights for the GRANDPA bridge pallet of the Westend bridge hub.

use vstd::prelude::*;
use crate::weights::{saturated, RuntimeDbWeight, Weight};

verus! {

/// Weight functions for the GRANDPA bridge pallet.
#[derive(Clone, Copy, Debug)]
pub struct WeightInfo {
    /// What one database read and one write cost in the runtime.
    pub db_weight: RuntimeDbWeight,
}

impl WeightInfo {
    /// Weight functions for a runtime with the given database costs.
    pub fn new(db_weight: RuntimeDbWeight) -> (info: WeightInfo)
        ensures
            info.db_weight == db_weight,
    {
        WeightInfo { db_weight }
    }

    /// The reference time of submitting a finality proof with `p`
    /// precommits and `v` votes ancestries: a base, a part for each
    /// precommit and each ancestry, and five reads and five writes.
    pub open spec fn finality_proof_ref_time(&self, p: u32, v: u32) -> int {
        16_868_060 + 55_200_017 * p + 2_689_151 * v + 5 * self.db_weight.read + 5
            * self.db_weight.write
    }

    /// The weight of submitting a finality proof with `p` precommits and
    /// `v` votes ancestries.
    pub fn submit_finality_proof(&self, p: u32, v: u32) -> (weight: Weight)
        ensures
            weight.ref_time == saturated(self.finality_proof_ref_time(p, v)),
            weight.proof_size == 51735,
    {
        Weight::from_parts(16_868_060, 0).saturating_add(Weight::from_parts(0, 51735)).saturating_add(
            Weight::from_parts(55_200_017, 0).saturating_mul(p.into()),
        ).saturating_add(
            Weight::from_parts(2_689_151, 0).saturating_mul(v.into()),
        ).saturating_add(self.db_weight.reads(5)).saturating_add(self.db_weight.writes(5))
    }
}

} // verus!
