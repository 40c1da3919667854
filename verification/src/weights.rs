//! Weights of dispatchable calls: a reference time and a proof size, with
//! arithmetic that stops at the largest value instead of overflowing.

use vstd::prelude::*;

pub mod pallet_bridge_grandpa;
pub mod pallet_bridge_parachains;

verus! {

/// `n`, or the largest `u64` where `n` does not fit.
pub open spec fn saturated(n: int) -> u64 {
    if n > u64::MAX {
        u64::MAX
    } else if n < 0 {
        0
    } else {
        n as u64
    }
}

/// The cost of a call in two dimensions.
#[derive(Clone, Copy, Debug, PartialEq, Eq, Structural)]
pub struct Weight {
    /// Computational time, in picoseconds of a reference machine.
    pub ref_time: u64,
    /// Bytes of storage proof that the call adds to a block.
    pub proof_size: u64,
}

impl Weight {
    /// A weight from its two parts.
    pub fn from_parts(ref_time: u64, proof_size: u64) -> (weight: Weight)
        ensures
            weight == (Weight { ref_time, proof_size }),
    {
        Weight { ref_time, proof_size }
    }

    /// The reference time part of the weight.
    pub fn ref_time(&self) -> (ref_time: u64)
        ensures
            ref_time == self.ref_time,
    {
        self.ref_time
    }

    /// The proof size part of the weight.
    pub fn proof_size(&self) -> (proof_size: u64)
        ensures
            proof_size == self.proof_size,
    {
        self.proof_size
    }

    /// The sum of two weights, each part stopping at the largest value.
    pub fn saturating_add(self, rhs: Weight) -> (sum: Weight)
        ensures
            sum.ref_time == saturated(self.ref_time + rhs.ref_time),
            sum.proof_size == saturated(self.proof_size + rhs.proof_size),
    {
        Weight {
            ref_time: self.ref_time.saturating_add(rhs.ref_time),
            proof_size: self.proof_size.saturating_add(rhs.proof_size),
        }
    }

    /// The weight taken `scalar` times, each part stopping at the largest
    /// value.
    pub fn saturating_mul(self, scalar: u64) -> (product: Weight)
        ensures
            product.ref_time == saturated(self.ref_time * scalar),
            product.proof_size == saturated(self.proof_size * scalar),
    {
        Weight {
            ref_time: saturating_product(self.ref_time, scalar),
            proof_size: saturating_product(self.proof_size, scalar),
        }
    }
}

/// The product of two numbers, stopping at the largest value.
pub fn saturating_product(a: u64, b: u64) -> (product: u64)
    ensures
        product == saturated(a * b),
{
    match a.checked_mul(b) {
        Some(product) => product,
        None => u64::MAX,
    }
}

/// The weight of database operations that the runtime can invoke.
#[derive(Clone, Copy, Debug, PartialEq, Eq, Structural)]
pub struct RuntimeDbWeight {
    /// Reference time of one read.
    pub read: u64,
    /// Reference time of one write.
    pub write: u64,
}

impl RuntimeDbWeight {
    /// The weight of `r` reads.
    pub fn reads(self, r: u64) -> (weight: Weight)
        ensures
            weight == (Weight { ref_time: saturated(self.read * r), proof_size: 0 }),
    {
        Weight::from_parts(saturating_product(self.read, r), 0)
    }

    /// The weight of `w` writes.
    pub fn writes(self, w: u64) -> (weight: Weight)
        ensures
            weight == (Weight { ref_time: saturated(self.write * w), proof_size: 0 }),
    {
        Weight::from_parts(saturating_product(self.write, w), 0)
    }
}

} // verus!
