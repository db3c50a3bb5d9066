//! Two-dimensional weights and the weight of database accesses.

use vstd::prelude::*;

verus! {

/// An integer clamped to the range of `u64` from above.
pub open spec fn sat(x: int) -> int {
    if x > u64::MAX {
        u64::MAX as int
    } else {
        x
    }
}

/// Saturation leaves every value that fits a `u64` as it is and turns every
/// larger one into `u64::MAX`; it never exceeds `u64::MAX` and never grows a
/// value.
pub proof fn lemma_saturation(x: int)
    ensures
        x <= u64::MAX ==> sat(x) == x,
        x > u64::MAX ==> sat(x) == u64::MAX,
        sat(x) <= u64::MAX,
        sat(x) <= x,
{
}

/// The product of two `u64`, saturating at `u64::MAX`.
pub fn mul_sat(a: u64, b: u64) -> (r: u64)
    ensures
        r == sat(a * b),
{
    proof {
        assert(a * b >= 0) by (nonlinear_arith);
    }
    match a.checked_mul(b) {
        Some(p) => p,
        None => u64::MAX,
    }
}

/// The weight of a computation: time on the reference hardware and the size
/// of the proof.
#[derive(Clone, Copy, Debug, PartialEq, Eq)]
pub struct Weight {
    pub ref_time: u64,
    pub proof_size: u64,
}

/// The weight with both parts clamped to `u64`.
pub open spec fn weight_of(ref_time: int, proof_size: int) -> Weight {
    Weight { ref_time: sat(ref_time) as u64, proof_size: sat(proof_size) as u64 }
}

impl Weight {
    /// A weight made of its two parts.
    pub fn from_parts(ref_time: u64, proof_size: u64) -> (r: Weight)
        ensures
            r == (Weight { ref_time, proof_size }),
    {
        Weight { ref_time, proof_size }
    }

    /// The zero weight.
    pub fn zero() -> (r: Weight)
        ensures
            r == (Weight { ref_time: 0, proof_size: 0 }),
    {
        Weight { ref_time: 0, proof_size: 0 }
    }

    /// The sum of two weights, each part saturating at `u64::MAX`.
    pub fn saturating_add(self, rhs: Weight) -> (r: Weight)
        ensures
            r == weight_of(self.ref_time + rhs.ref_time, self.proof_size + rhs.proof_size),
    {
        Weight {
            ref_time: self.ref_time.saturating_add(rhs.ref_time),
            proof_size: self.proof_size.saturating_add(rhs.proof_size),
        }
    }

    /// Both parts multiplied by a scalar, saturating at `u64::MAX`.
    pub fn saturating_mul(self, scalar: u64) -> (r: Weight)
        ensures
            r == weight_of(self.ref_time * scalar, self.proof_size * scalar),
    {
        proof {
            assert(self.ref_time * scalar >= 0 && self.proof_size * scalar >= 0) by (nonlinear_arith);
        }
        Weight {
            ref_time: mul_sat(self.ref_time, scalar),
            proof_size: mul_sat(self.proof_size, scalar),
        }
    }
}

/// The weight of one database read and of one database write.
#[derive(Clone, Copy, Debug, PartialEq, Eq)]
pub struct RuntimeDbWeight {
    pub read: u64,
    pub write: u64,
}

impl RuntimeDbWeight {
    /// The weight of `r` reads.
    pub fn reads(self, r: u64) -> (w: Weight)
        ensures
            w == weight_of(self.read * r, 0),
    {
        proof {
            assert(self.read * r >= 0) by (nonlinear_arith);
        }
        Weight { ref_time: mul_sat(self.read, r), proof_size: 0 }
    }

    /// The weight of `w` writes.
    pub fn writes(self, w: u64) -> (r: Weight)
        ensures
            r == weight_of(self.write * w, 0),
    {
        proof {
            assert(self.write * w >= 0) by (nonlinear_arith);
        }
        Weight { ref_time: mul_sat(self.write, w), proof_size: 0 }
    }
}

/// The database weights of RocksDB: 25 µs per read and 100 µs per write, in
/// picoseconds of reference time.
pub fn rocks_db_weight() -> (r: RuntimeDbWeight)
    ensures
        r == (RuntimeDbWeight { read: 25_000_000, write: 100_000_000 }),
{
    RuntimeDbWeight { read: 25_000_000, write: 100_000_000 }
}

} // verus!
