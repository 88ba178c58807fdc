//! Tweenable values: the easing marker, the `Tween` contract that value
//! types implement, authored keyframes, and a closed set of erased values
//! for heterogeneous timelines.

use vstd::prelude::*;
use crate::timecode::Fraction;

verus! {

/// The easing curve applied to an interpolation fraction. This layer always
/// interpolates linearly; a nonlinear curve is the business of the value
/// type or of the composition layer above it.
#[derive(Copy, Clone, Debug, PartialEq, Eq, Structural)]
pub enum Easing {
    /// The identity curve: the fraction is used as it is.
    Linear,
}

/// A value that can be interpolated between two samples of itself.
///
/// `tween_spec` is the implementor's own statement of what `tween`
/// computes, and `tween` must return exactly that. `duplicate` must return
/// the value unchanged; it is what the engine hands out once a sequence has
/// ended and the last sample is simply held.
pub trait Tween: Sized {
    /// What `tween` returns on these operands.
    spec fn tween_spec(self, other: Self, t: Fraction, easing: Easing) -> Self;

    /// Interpolate from `self` towards `other` at fraction `t`.
    fn tween(&self, other: &Self, t: &Fraction, easing: &Easing) -> (r: Self)
        ensures
            r == self.tween_spec(*other, *t, *easing),
    ;

    /// An exact copy of the value.
    fn duplicate(&self) -> (r: Self)
        ensures
            r == *self,
    ;
}

/// One authored sample of a tweenable value.
#[derive(Clone, Debug, Default)]
pub struct Keyframe<T: Tween> {
    pub value: T,
}

impl<T: Tween> Keyframe<T> {
    pub fn new(value: T) -> (r: Self)
        ensures
            r == (Keyframe { value }),
    {
        Keyframe { value }
    }

    /// An exact copy of the sample.
    pub fn duplicate(&self) -> (r: Self)
        ensures
            r == *self,
    {
        Keyframe { value: self.value.duplicate() }
    }
}

/// Truncating (toward zero) division, the rounding rule used for sample
/// interpolation.
pub open spec fn spec_trunc_div(x: int, d: int) -> int {
    if x >= 0 {
        x / d
    } else {
        -((-x) / d)
    }
}

/// Clamp an unbounded integer into the `i64` range.
pub open spec fn spec_clamp_i64(x: int) -> i64 {
    if x > i64::MAX {
        i64::MAX
    } else if x < i64::MIN {
        i64::MIN
    } else {
        x as i64
    }
}

/// Exact linear interpolation of `a` towards `b` at the fraction `t`:
/// `a + (b - a) * num / den`, truncated toward zero and saturated at the
/// `i64` range. A degenerate fraction (nonpositive denominator) holds `a`.
pub open spec fn spec_lerp_i64(a: i64, b: i64, t: Fraction) -> i64 {
    if t.den <= 0 {
        a
    } else {
        spec_clamp_i64(a + spec_trunc_div((b as int - a as int) * t.num, t.den as int))
    }
}

/// Linear interpolation of `a` towards `b` at the fraction `t`, in 128-bit
/// arithmetic, saturated at the `i64` range.
pub fn lerp_i64(a: i64, b: i64, t: &Fraction) -> (r: i64)
    ensures
        r == spec_lerp_i64(a, b, *t),
{
    if t.den <= 0 {
        return a;
    }
    let delta: i128 = (b as i128) - (a as i128);
    proof {
        assert((b as int - a as int) * (t.num as int)
            <= 170141183460469231722463931679029329920 && (b as int - a as int) * (t.num as int)
            >= -170141183460469231722463931679029329920) by (nonlinear_arith)
            requires
                i64::MIN <= a as int <= i64::MAX,
                i64::MIN <= b as int <= i64::MAX,
                i64::MIN <= t.num as int <= i64::MAX,
        ;
    }
    let prod: i128 = delta * (t.num as i128);
    let den128: i128 = t.den as i128;
    let q: i128;
    if prod >= 0 {
        proof {
            crate::timecode::lemma_div_bounds(prod as int, den128 as int);
        }
        q = prod / den128;
    } else {
        let negp = -prod;
        proof {
            crate::timecode::lemma_div_bounds(negp as int, den128 as int);
        }
        let qq = negp / den128;
        q = -qq;
    }
    let sum: i128 = (a as i128) + q;
    if sum > (i64::MAX as i128) {
        i64::MAX
    } else if sum < (i64::MIN as i128) {
        i64::MIN
    } else {
        sum as i64
    }
}

/// A closed set of tweenable values, so that sequences of different value
/// shapes can share one type-erased directory inside a timeline.
#[derive(Copy, Clone, Debug, PartialEq, Eq, Structural)]
pub enum ErasedValue {
    /// A single integer channel.
    Scalar(i64),
    /// Two integer channels, such as a planar point.
    Pair(i64, i64),
}

impl Tween for ErasedValue {
    open spec fn tween_spec(self, other: Self, t: Fraction, easing: Easing) -> Self {
        match (self, other) {
            (ErasedValue::Scalar(a), ErasedValue::Scalar(b)) => ErasedValue::Scalar(
                spec_lerp_i64(a, b, t),
            ),
            (ErasedValue::Pair(ax, ay), ErasedValue::Pair(bx, by)) => ErasedValue::Pair(
                spec_lerp_i64(ax, bx, t),
                spec_lerp_i64(ay, by, t),
            ),
            _ => self,
        }
    }

    fn tween(&self, other: &Self, t: &Fraction, easing: &Easing) -> (r: Self) {
        match (self, other) {
            (ErasedValue::Scalar(a), ErasedValue::Scalar(b)) => ErasedValue::Scalar(
                lerp_i64(*a, *b, t),
            ),
            (ErasedValue::Pair(ax, ay), ErasedValue::Pair(bx, by)) => ErasedValue::Pair(
                lerp_i64(*ax, *bx, t),
                lerp_i64(*ay, *by, t),
            ),
            _ => *self,
        }
    }

    fn duplicate(&self) -> (r: Self) {
        *self
    }
}

} // verus!
