//! Deterministic conversion between a two-dimensional block resource cost
//! and a fee.
//!
//! The converter is configured by a fee ratio `P/Q` and a block resource
//! envelope `(max_reference_time, max_proof_size)`. Reference time is
//! charged at `P/Q` per unit; proof size is charged at the coefficient
//! `(P/Q) · (max_reference_time / max_proof_size)`, derived once at
//! construction. All arithmetic is integer rational arithmetic, truncating
//! toward zero and saturating at the numeric range, never wrapping, so the
//! result is bit-identical across independent computations.

use vstd::prelude::*;
use vstd::arithmetic::div_mod::{
    lemma_div_by_multiple, lemma_div_denominator, lemma_div_is_ordered,
    lemma_div_is_ordered_by_denominator, lemma_div_pos_is_pos, lemma_fundamental_div_mod,
    lemma_hoist_over_denominator,
};
use vstd::arithmetic::mul::lemma_mul_inequality;

verus! {

/// Marker trait: the fee scheme in this module is the only one the
/// surrounding runtime accepts, so nothing outside this crate may claim
/// to implement it.
pub trait Sealed {}

/// A block resource cost: computation time and storage proof footprint,
/// two independent axes.
#[derive(Clone, Copy, Debug, PartialEq, Eq, Structural)]
pub struct Weight {
    pub ref_time: u64,
    pub proof_size: u64,
}

/// Why construction of a fee converter was rejected.
#[derive(Clone, Copy, Debug, PartialEq, Eq, Structural)]
pub enum ConfigurationError {
    /// The fee ratio `P/Q` has a zero component: the inverse mapping would
    /// divide by zero, so the converter refuses to exist at all rather
    /// than fail at request time.
    ZeroFeeRatio,
    /// The block resource envelope has a zero axis, which would make the
    /// proof-size coefficient undefined.
    ZeroResourceEnvelope,
}

/// `x` clamped from above to the `u128` range.
pub open spec fn sat_u128(x: int) -> int {
    if x > u128::MAX as int {
        u128::MAX as int
    } else {
        x
    }
}

/// `x` clamped from above to the `u64` range.
pub open spec fn sat_u64(x: int) -> int {
    if x > u64::MAX as int {
        u64::MAX as int
    } else {
        x
    }
}

/// The larger of two integers.
pub open spec fn int_max(a: int, b: int) -> int {
    if a >= b {
        a
    } else {
        b
    }
}

/// Converts block resource costs to fees at the fixed rate `P/Q` per unit
/// of reference time, and back. Stateless once built: both directions are
/// pure functions of the configuration and the argument.
#[derive(Clone, Copy, Debug, PartialEq, Eq, Structural)]
pub struct BlockRatioFee {
    /// Numerator `P` of the fee ratio.
    pub p: u64,
    /// Denominator `Q` of the fee ratio.
    pub q: u64,
    /// Reference-time axis of the block resource envelope.
    pub max_reference_time: u64,
    /// Proof-size axis of the block resource envelope.
    pub max_proof_size: u64,
    /// Numerator of the proof-size coefficient
    /// `(P · max_reference_time) / (Q · max_proof_size)`, derived once at
    /// construction; the denominator is kept in factored form.
    pub proof_size_num: u128,
}

impl Sealed for BlockRatioFee {
}

impl BlockRatioFee {
    /// A converter is well formed when every configured divisor is positive
    /// and the derived proof-size numerator matches the configuration.
    pub open spec fn wf(self) -> bool {
        &&& 0 < self.p
        &&& 0 < self.q
        &&& 0 < self.max_reference_time
        &&& 0 < self.max_proof_size
        &&& self.proof_size_num == self.p as int * self.max_reference_time as int
    }

    /// Fee charged for the reference-time axis: `⌊P·ref_time / Q⌋`.
    pub open spec fn spec_ref_time_fee(self, ref_time: int) -> int {
        (self.p as int * ref_time) / (self.q as int)
    }

    /// Fee charged for the proof-size axis: the proof-size coefficient
    /// applied with truncation, saturating at `u128::MAX` once scaled by
    /// the envelope ratio.
    pub open spec fn spec_proof_size_fee(self, proof_size: int) -> int {
        sat_u128((self.proof_size_num as int * proof_size) / (self.max_proof_size as int)) / (self.q as int)
    }

    /// The fee for a weight: the more expensive of its two axes.
    pub open spec fn spec_weight_to_fee(self, w: Weight) -> int {
        int_max(
            self.spec_ref_time_fee(w.ref_time as int),
            self.spec_proof_size_fee(w.proof_size as int),
        )
    }

    /// The reference time a fee buys: `⌊fee·Q / P⌋`, clamped to `u64`.
    pub open spec fn spec_fee_to_ref_time(self, fee: int) -> int {
        sat_u64((fee * self.q as int) / (self.p as int))
    }

    /// The proof size a fee buys: the fee divided by the proof-size
    /// coefficient `(P·max_reference_time)/(Q·max_proof_size)` in one
    /// truncating division, clamped to `u64`.
    pub open spec fn spec_fee_to_proof_size(self, fee: int) -> int {
        sat_u64(
            (fee * self.q as int * self.max_proof_size as int) / (self.p as int
                * self.max_reference_time as int),
        )
    }

    /// Builds a converter for fee ratio `P/Q` under the given block
    /// resource envelope. Fails fast when the ratio or the envelope has a
    /// zero component, since both directions of the conversion divide by
    /// these values; no conversion is ever attempted on a rejected
    /// configuration.
    pub fn new(p: u64, q: u64, max_reference_time: u64, max_proof_size: u64) -> (r: Result<
        BlockRatioFee,
        ConfigurationError,
    >)
        ensures
            (p == 0 || q == 0) <==> r == Err::<BlockRatioFee, ConfigurationError>(
                ConfigurationError::ZeroFeeRatio,
            ),
            (p != 0 && q != 0 && (max_reference_time == 0 || max_proof_size == 0)) <==> r
                == Err::<BlockRatioFee, ConfigurationError>(
                ConfigurationError::ZeroResourceEnvelope,
            ),
            r matches Ok(c) ==> {
                &&& c.wf()
                &&& c.p == p
                &&& c.q == q
                &&& c.max_reference_time == max_reference_time
                &&& c.max_proof_size == max_proof_size
            },
    {
        if p == 0 || q == 0 {
            return Err(ConfigurationError::ZeroFeeRatio);
        }
        if max_reference_time == 0 || max_proof_size == 0 {
            return Err(ConfigurationError::ZeroResourceEnvelope);
        }
        proof {
            lemma_mul_inequality(p as int, u64::MAX as int, max_reference_time as int);
            lemma_mul_inequality(max_reference_time as int, u64::MAX as int, u64::MAX as int);
        }
        Ok(
            BlockRatioFee {
                p,
                q,
                max_reference_time,
                max_proof_size,
                proof_size_num: (p as u128) * (max_reference_time as u128),
            },
        )
    }

    /// The fee for a weight: the more expensive of its two axes, each
    /// converted at its coefficient with truncating, saturating rational
    /// arithmetic.
    pub fn weight_to_fee(&self, weight: &Weight) -> (fee: u128)
        requires
            self.wf(),
        ensures
            fee as int == self.spec_weight_to_fee(*weight),
    {
        proof {
            lemma_mul_inequality(self.p as int, u64::MAX as int, weight.ref_time as int);
            lemma_mul_inequality(weight.ref_time as int, u64::MAX as int, u64::MAX as int);
        }
        let ref_fee: u128 = ((self.p as u128) * (weight.ref_time as u128)) / (self.q as u128);
        let scaled: u128 = mul_div_sat(self.proof_size_num, weight.proof_size, self.max_proof_size);
        let proof_fee: u128 = scaled / (self.q as u128);
        if ref_fee >= proof_fee {
            ref_fee
        } else {
            proof_fee
        }
    }

    /// The weight a fee buys, inverted independently per axis. This is
    /// deliberately not an inverse of the `max` taken in the forward
    /// direction: only the axis that dominated the fee is reproduced, the
    /// round trip is lossy by design.
    pub fn fee_to_weight(&self, fee: u128) -> (w: Weight)
        requires
            self.wf(),
        ensures
            w.ref_time as int == self.spec_fee_to_ref_time(fee as int),
            w.proof_size as int == self.spec_fee_to_proof_size(fee as int),
    {
        let rt_full: u128 = mul_div_sat(fee, self.q, self.p);
        proof {
            lemma_mul_inequality(self.q as int, u64::MAX as int, self.max_proof_size as int);
            lemma_mul_inequality(self.max_proof_size as int, u64::MAX as int, u64::MAX as int);
        }
        let coeff_den: u128 = (self.q as u128) * (self.max_proof_size as u128);
        let scaled: u128 = mul_div_sat_wide(fee, coeff_den, self.max_reference_time);
        let ps_full: u128 = scaled / (self.p as u128);
        proof {
            self.lemma_proof_size_axis_inverse(fee, coeff_den as int, scaled as int);
        }
        Weight {
            ref_time: if rt_full > u64::MAX as u128 {
                u64::MAX
            } else {
                rt_full as u64
            },
            proof_size: if ps_full > u64::MAX as u128 {
                u64::MAX
            } else {
                ps_full as u64
            },
        }
    }

    /// Dividing the envelope-scaled fee by `P` yields the proof-size axis
    /// of the inverse: `⌊fee·Q·max_proof_size / (P·max_reference_time)⌋`,
    /// with the one `u128` saturation collapsing into the final `u64`
    /// clamp because a saturated intermediate already exceeds `u64::MAX`
    /// after the division by `P`.
    proof fn lemma_proof_size_axis_inverse(self, fee: u128, coeff_den: int, scaled: int)
        requires
            self.wf(),
            coeff_den == self.q as int * self.max_proof_size as int,
            scaled == sat_u128((fee as int * coeff_den) / (self.max_reference_time as int)),
        ensures
            sat_u64(scaled / (self.p as int)) == self.spec_fee_to_proof_size(fee as int),
    {
        assert(fee as int * coeff_den == fee as int * self.q as int
            * self.max_proof_size as int) by (nonlinear_arith)
            requires
                coeff_den == self.q as int * self.max_proof_size as int,
        ;
        assert(fee as int * self.q as int * self.max_proof_size as int >= 0) by (nonlinear_arith)
            requires
                fee as int >= 0,
                self.q as int >= 0,
                self.max_proof_size as int >= 0,
        ;
        let x = fee as int * self.q as int * self.max_proof_size as int;
        lemma_div_denominator(x, self.max_reference_time as int, self.p as int);
        assert(self.max_reference_time as int * self.p as int == self.p as int
            * self.max_reference_time as int);
        if x / (self.max_reference_time as int) > u128::MAX as int {
            // The quotient of a saturated value by `P` already overshoots
            // the final clamp: u128::MAX is u64::MAX · (u64::MAX + 2).
            assert(u128::MAX as int == u64::MAX as int * (u64::MAX as int + 2));
            lemma_div_by_multiple(u64::MAX as int + 2, u64::MAX as int);
            assert((u64::MAX as int + 2) * u64::MAX as int == u64::MAX as int * (u64::MAX as int
                + 2));
            lemma_div_is_ordered_by_denominator(u128::MAX as int, self.p as int, u64::MAX as int);
            // So does the true quotient, which is at least as large.
            lemma_div_pos_is_pos(x, self.max_reference_time as int);
            lemma_div_is_ordered(
                u128::MAX as int,
                x / (self.max_reference_time as int),
                self.p as int,
            );
        }
    }

    /// The proof-size coefficient derived at construction, as an exact
    /// rational: numerator `P · max_reference_time`, denominator
    /// `Q · max_proof_size`.
    pub fn proof_size_to_fee(&self) -> (r: (u128, u128))
        requires
            self.wf(),
        ensures
            r.0 == self.proof_size_num,
            r.1 as int == self.q as int * self.max_proof_size as int,
    {
        proof {
            lemma_mul_inequality(self.q as int, u64::MAX as int, self.max_proof_size as int);
            lemma_mul_inequality(self.max_proof_size as int, u64::MAX as int, u64::MAX as int);
        }
        (self.proof_size_num, (self.q as u128) * (self.max_proof_size as u128))
    }
}

/// `⌊a·x / d⌋`, saturating at `u128::MAX`. The product is taken apart as
/// `a = d·⌊a/d⌋ + a%d` so that no intermediate value outgrows `u128`.
fn mul_div_sat(a: u128, x: u64, d: u64) -> (r: u128)
    requires
        0 < d,
    ensures
        r as int == sat_u128((a as int * x as int) / (d as int)),
{
    let quot: u128 = a / (d as u128);
    let rem: u128 = a % (d as u128);
    proof {
        lemma_fundamental_div_mod(a as int, d as int);
        assert(rem as int * x as int <= u128::MAX as int) by (nonlinear_arith)
            requires
                rem < d,
                d <= u64::MAX,
                x <= u64::MAX,
        ;
        lemma_hoist_over_denominator(rem as int * x as int, quot as int * x as int, d as nat);
        assert(rem as int * x as int + (quot as int * x as int) * d as int == a as int
            * x as int) by (nonlinear_arith)
            requires
                a as int == d as int * quot as int + rem as int,
        ;
        lemma_div_pos_is_pos(rem as int * x as int, d as int);
    }
    let low: u128 = (rem * (x as u128)) / (d as u128);
    match quot.checked_mul(x as u128) {
        None => u128::MAX,
        Some(hi) => match hi.checked_add(low) {
            None => u128::MAX,
            Some(t) => t,
        },
    }
}

/// `⌊a·m / d⌋` with a 128-bit multiplier, saturating at `u128::MAX`. The
/// multiplier is taken apart as `m = d·⌊m/d⌋ + m%d`, which leaves one
/// product of `a` with a value below `d` for `mul_div_sat` to finish.
fn mul_div_sat_wide(a: u128, m: u128, d: u64) -> (r: u128)
    requires
        0 < d,
    ensures
        r as int == sat_u128((a as int * m as int) / (d as int)),
{
    let quot: u128 = m / (d as u128);
    let rem: u64 = (m % (d as u128)) as u64;
    proof {
        lemma_fundamental_div_mod(m as int, d as int);
        assert(a as int * rem as int + (a as int * quot as int) * d as int == a as int
            * m as int) by (nonlinear_arith)
            requires
                m as int == d as int * quot as int + rem as int,
        ;
        lemma_hoist_over_denominator(a as int * rem as int, a as int * quot as int, d as nat);
        lemma_div_pos_is_pos(a as int * rem as int, d as int);
    }
    let low: u128 = mul_div_sat(a, rem, d);
    match a.checked_mul(quot) {
        None => u128::MAX,
        Some(hi) => match hi.checked_add(low) {
            None => u128::MAX,
            Some(t) => t,
        },
    }
}

/// The fee is monotonically non-decreasing in each axis of the weight
/// independently: growing either resource dimension (holding the other
/// fixed, or growing both) never lowers the fee.
pub proof fn lemma_weight_to_fee_monotone(c: BlockRatioFee, w1: Weight, w2: Weight)
    requires
        c.wf(),
        w1.ref_time <= w2.ref_time,
        w1.proof_size <= w2.proof_size,
    ensures
        c.spec_weight_to_fee(w1) <= c.spec_weight_to_fee(w2),
{
    assert(c.p as int * w1.ref_time as int <= c.p as int * w2.ref_time as int) by (nonlinear_arith)
        requires
            0 < c.p,
            w1.ref_time <= w2.ref_time,
    ;
    lemma_div_is_ordered(c.p as int * w1.ref_time as int, c.p as int * w2.ref_time as int, c.q as int);
    assert(c.proof_size_num as int * w1.proof_size as int <= c.proof_size_num as int
        * w2.proof_size as int)
        by (nonlinear_arith)
        requires
            0 <= c.proof_size_num,
            w1.proof_size <= w2.proof_size,
    ;
    lemma_div_is_ordered(
        c.proof_size_num as int * w1.proof_size as int,
        c.proof_size_num as int * w2.proof_size as int,
        c.max_proof_size as int,
    );
    lemma_div_is_ordered(
        sat_u128((c.proof_size_num as int * w1.proof_size as int) / (c.max_proof_size as int)),
        sat_u128((c.proof_size_num as int * w2.proof_size as int) / (c.max_proof_size as int)),
        c.q as int,
    );
}

} // verus!
