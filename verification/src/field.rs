//! The prime field the machine works over, seen through its canonical
//! `u32` representatives. Arithmetic on representatives is delegated to
//! the field crate; this module states what those operations return.

use p3_field::PrimeField32;
use vstd::prelude::*;

verus! {

/// The field modulus: 2^31 - 2^27 + 1.
pub const FIELD_MODULUS: u32 = 2013265921;

/// A `u32` is a canonical field representative when it is below the modulus.
pub open spec fn is_felt(x: u32) -> bool {
    x < FIELD_MODULUS
}

/// The canonical representative of the additive inverse of `x`.
pub open spec fn felt_neg(x: u32) -> u32 {
    if x == 0 {
        0
    } else {
        (FIELD_MODULUS - x) as u32
    }
}

/// The canonical representative of the sum of `x` and `y`.
pub open spec fn felt_add(x: u32, y: u32) -> u32 {
    ((x + y) % (FIELD_MODULUS as int)) as u32
}

/// Relies on `p3_baby_bear::BabyBear`: `BabyBear::new` embeds a canonical
/// `u32` into the field, unary `-` is the additive inverse, and
/// `p3_field::PrimeField32::as_canonical_u32` returns the canonical
/// representative, which for the inverse of `x` is `0` when `x == 0` and
/// `MODULUS - x` otherwise.
#[verifier::external_body]
pub(crate) fn field_neg(x: u32) -> (r: u32)
    requires
        is_felt(x),
    ensures
        r == felt_neg(x),
        is_felt(r),
{
    (-p3_baby_bear::BabyBear::new(x)).as_canonical_u32()
}

/// Relies on `p3_baby_bear::BabyBear`: `+` on field elements adds modulo
/// the prime, so on canonical representatives it returns `(x + y) % MODULUS`.
#[verifier::external_body]
pub(crate) fn field_add(x: u32, y: u32) -> (r: u32)
    requires
        is_felt(x),
        is_felt(y),
    ensures
        r == felt_add(x, y),
        is_felt(r),
{
    (p3_baby_bear::BabyBear::new(x) + p3_baby_bear::BabyBear::new(y)).as_canonical_u32()
}

} // verus!
