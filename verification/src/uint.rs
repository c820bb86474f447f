//! Unsigned 256-bit amounts.
//!
//! An amount is held as four 64-bit limbs and stands for a natural number
//! below 2^256. Comparison is done here on the limbs; sums, differences,
//! products and quotients are computed by `alloy_primitives::U256`.
use vstd::prelude::*;

verus! {

/// 2^256: one more than the largest amount.
pub open spec fn u256_limit() -> nat {
    0x1_0000_0000_0000_0000 * 0x1_0000_0000_0000_0000 * 0x1_0000_0000_0000_0000
        * 0x1_0000_0000_0000_0000
}

/// An unsigned 256-bit number, least significant limb first.
#[derive(Clone, Copy, Debug, PartialEq, Eq, Structural)]
pub struct U256 {
    pub l0: u64,
    pub l1: u64,
    pub l2: u64,
    pub l3: u64,
}

impl View for U256 {
    type V = nat;

    /// The number that the four limbs stand for.
    open spec fn view(&self) -> nat {
        (self.l0 + 0x1_0000_0000_0000_0000 * (self.l1 + 0x1_0000_0000_0000_0000 * (self.l2
            + 0x1_0000_0000_0000_0000 * self.l3))) as nat
    }
}

impl U256 {
    /// The amount zero.
    pub fn zero() -> (r: U256)
        ensures
            r@ == 0,
    {
        U256 { l0: 0, l1: 0, l2: 0, l3: 0 }
    }

    /// The amount that stands for `x`.
    pub fn from_u64(x: u64) -> (r: U256)
        ensures
            r@ == x,
    {
        U256 { l0: x, l1: 0, l2: 0, l3: 0 }
    }

    /// The amount as a `u64`, where it fits in one.
    pub fn to_u64(&self) -> (r: Option<u64>)
        ensures
            self@ <= u64::MAX ==> r == Some(self@ as u64),
            self@ > u64::MAX ==> r is None,
    {
        if self.l1 == 0 && self.l2 == 0 && self.l3 == 0 {
            Some(self.l0)
        } else {
            None
        }
    }

    /// Whether the amount is zero.
    pub fn is_zero(&self) -> (r: bool)
        ensures
            r == (self@ == 0),
    {
        self.l0 == 0 && self.l1 == 0 && self.l2 == 0 && self.l3 == 0
    }

    /// Whether this amount is less than `other`.
    pub fn lt(&self, other: &U256) -> (r: bool)
        ensures
            r == (self@ < other@),
    {
        if self.l3 != other.l3 {
            self.l3 < other.l3
        } else if self.l2 != other.l2 {
            self.l2 < other.l2
        } else if self.l1 != other.l1 {
            self.l1 < other.l1
        } else {
            self.l0 < other.l0
        }
    }

    /// The sum, where it is known to fit.
    pub fn plus(self, rhs: U256) -> (r: U256)
        requires
            self@ + rhs@ < u256_limit(),
        ensures
            r@ == self@ + rhs@,
    {
        match checked_add(self, rhs) {
            Some(v) => v,
            None => vstd::pervasive::unreached(),
        }
    }

    /// The difference, where `rhs` is known not to exceed this amount.
    pub fn minus(self, rhs: U256) -> (r: U256)
        requires
            rhs@ <= self@,
        ensures
            r@ == self@ - rhs@,
    {
        match checked_sub(self, rhs) {
            Some(v) => v,
            None => vstd::pervasive::unreached(),
        }
    }

    /// The product, where it is known to fit.
    pub fn times(self, rhs: U256) -> (r: U256)
        requires
            self@ * rhs@ < u256_limit(),
        ensures
            r@ == self@ * rhs@,
    {
        match checked_mul(self, rhs) {
            Some(v) => v,
            None => vstd::pervasive::unreached(),
        }
    }

    /// The quotient, rounded down, by a divisor known not to be zero.
    pub fn over(self, rhs: U256) -> (r: U256)
        requires
            rhs@ != 0,
        ensures
            r@ == self@ / rhs@,
    {
        match checked_div(self, rhs) {
            Some(v) => v,
            None => vstd::pervasive::unreached(),
        }
    }
}

/// Calls `alloy_primitives::U256::checked_add`. Not proved: that it returns
/// the sum of the two numbers where that is below 2^256, and `None` where it
/// is not.
#[verifier::external_body]
pub(crate) fn checked_add(a: U256, b: U256) -> (r: Option<U256>)
    ensures
        a@ + b@ < u256_limit() ==> r is Some && r->0@ == a@ + b@,
        a@ + b@ >= u256_limit() ==> r is None,
{
    let x = alloy_primitives::U256::from_limbs([a.l0, a.l1, a.l2, a.l3]);
    let y = alloy_primitives::U256::from_limbs([b.l0, b.l1, b.l2, b.l3]);
    x.checked_add(y).map(|v| v.into_limbs()).map(|l| U256 { l0: l[0], l1: l[1], l2: l[2], l3: l[3] })
}

/// Calls `alloy_primitives::U256::checked_sub`. Not proved: that it returns
/// the first number less the second where the second is not the larger, and
/// `None` where it is.
#[verifier::external_body]
pub(crate) fn checked_sub(a: U256, b: U256) -> (r: Option<U256>)
    ensures
        b@ <= a@ ==> r is Some && r->0@ == a@ - b@,
        b@ > a@ ==> r is None,
{
    let x = alloy_primitives::U256::from_limbs([a.l0, a.l1, a.l2, a.l3]);
    let y = alloy_primitives::U256::from_limbs([b.l0, b.l1, b.l2, b.l3]);
    x.checked_sub(y).map(|v| v.into_limbs()).map(|l| U256 { l0: l[0], l1: l[1], l2: l[2], l3: l[3] })
}

/// Calls `alloy_primitives::U256::checked_mul`. Not proved: that it returns
/// the product of the two numbers where that is below 2^256, and `None` where
/// it is not.
#[verifier::external_body]
pub(crate) fn checked_mul(a: U256, b: U256) -> (r: Option<U256>)
    ensures
        a@ * b@ < u256_limit() ==> r is Some && r->0@ == a@ * b@,
        a@ * b@ >= u256_limit() ==> r is None,
{
    let x = alloy_primitives::U256::from_limbs([a.l0, a.l1, a.l2, a.l3]);
    let y = alloy_primitives::U256::from_limbs([b.l0, b.l1, b.l2, b.l3]);
    x.checked_mul(y).map(|v| v.into_limbs()).map(|l| U256 { l0: l[0], l1: l[1], l2: l[2], l3: l[3] })
}

/// Calls `alloy_primitives::U256::checked_div`. Not proved: that it returns
/// the first number divided by the second, rounded down, where the second is
/// not zero, and `None` where it is.
#[verifier::external_body]
pub(crate) fn checked_div(a: U256, b: U256) -> (r: Option<U256>)
    ensures
        b@ != 0 ==> r is Some && r->0@ == a@ / b@,
        b@ == 0 ==> r is None,
{
    let x = alloy_primitives::U256::from_limbs([a.l0, a.l1, a.l2, a.l3]);
    let y = alloy_primitives::U256::from_limbs([b.l0, b.l1, b.l2, b.l3]);
    x.checked_div(y).map(|v| v.into_limbs()).map(|l| U256 { l0: l[0], l1: l[1], l2: l[2], l3: l[3] })
}

} // verus!
