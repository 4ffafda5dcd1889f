//! Integer multiple alignment: floor and ceiling of a value to a multiple of
//! a factor. These underpin timestamp alignment to intervals.

use vstd::arithmetic::div_mod::{
    lemma_fundamental_div_mod, lemma_fundamental_div_mod_converse_div, lemma_mod_bound,
    lemma_mod_multiples_basic,
};
use vstd::arithmetic::mul::lemma_mul_is_commutative;
use vstd::prelude::*;

verus! {

/// Largest multiple of `factor` that is at most `value`.
pub open spec fn spec_floor_multiple(value: int, factor: int) -> int {
    (value / factor) * factor
}

/// Smallest multiple of `factor` that is at least `value`.
pub open spec fn spec_ceil_multiple(value: int, factor: int) -> int {
    ((value + factor - 1) / factor) * factor
}

pub fn floor_multiple(value: u64, factor: u64) -> (r: u64)
    requires
        factor > 0,
    ensures
        r == spec_floor_multiple(value as int, factor as int),
        r <= value,
        r % factor == 0,
        value - r < factor,
{
    let q = value / factor;
    proof {
        lemma_fundamental_div_mod(value as int, factor as int);
        lemma_mod_bound(value as int, factor as int);
        lemma_mul_is_commutative(q as int, factor as int);
        lemma_mod_multiples_basic(q as int, factor as int);
    }
    q * factor
}

pub fn ceil_multiple(value: u64, factor: u64) -> (r: u64)
    requires
        factor > 0,
        value + factor - 1 <= u64::MAX,
    ensures
        r == spec_ceil_multiple(value as int, factor as int),
        value <= r,
        r % factor == 0,
        r - value < factor,
{
    let shifted: u64 = value + (factor - 1);
    let q = shifted / factor;
    proof {
        lemma_fundamental_div_mod(shifted as int, factor as int);
        lemma_mod_bound(shifted as int, factor as int);
        lemma_mul_is_commutative(q as int, factor as int);
        lemma_mod_multiples_basic(q as int, factor as int);
    }
    q * factor
}

/// Largest point of the grid `offset + k * factor` that is at most `value`,
/// clamped to zero for values before the grid's first non-negative point.
pub open spec fn spec_floor_multiple_offset(value: int, factor: int, offset: int) -> int {
    if value >= offset {
        offset + spec_floor_multiple(value - offset, factor)
    } else {
        0
    }
}

/// Smallest point of the grid `offset + k * factor` that is at least `value`.
pub open spec fn spec_ceil_multiple_offset(value: int, factor: int, offset: int) -> int {
    if value <= offset {
        offset
    } else {
        offset + spec_ceil_multiple(value - offset, factor)
    }
}

pub fn floor_multiple_offset(value: u64, factor: u64, offset: u64) -> (r: u64)
    requires
        factor > 0,
    ensures
        r == spec_floor_multiple_offset(value as int, factor as int, offset as int),
        r <= value,
        value >= offset ==> r >= offset && (r - offset) % (factor as int) == 0 && value - r < factor,
        value < offset ==> r == 0,
{
    if value >= offset {
        offset + floor_multiple(value - offset, factor)
    } else {
        0
    }
}

pub fn ceil_multiple_offset(value: u64, factor: u64, offset: u64) -> (r: u64)
    requires
        factor > 0,
        value + factor - 1 <= u64::MAX,
    ensures
        r == spec_ceil_multiple_offset(value as int, factor as int, offset as int),
        value <= r,
        value <= offset ==> r == offset,
        value > offset ==> r >= offset && (r - offset) % (factor as int) == 0 && r - value < factor,
{
    if value <= offset {
        offset
    } else {
        offset + ceil_multiple(value - offset, factor)
    }
}

/// A value already on a multiple of `factor` is its own floor and ceiling.
pub proof fn lemma_multiple_is_fixed_point(value: int, factor: int)
    requires
        factor > 0,
        value >= 0,
        value % factor == 0,
    ensures
        spec_floor_multiple(value, factor) == value,
        spec_ceil_multiple(value, factor) == value,
{
    lemma_fundamental_div_mod(value, factor);
    lemma_mul_is_commutative(value / factor, factor);
    lemma_fundamental_div_mod_converse_div(
        value + factor - 1,
        factor,
        value / factor,
        factor - 1,
    );
    lemma_mul_is_commutative((value + factor - 1) / factor, factor);
}

} // verus!
