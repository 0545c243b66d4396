//! 256-bit amounts of value.

use primitive_types::U256;
use vstd::prelude::*;

verus! {

/// The number of values of a 256-bit amount: two to the power 256.
pub open spec fn amount_limit() -> nat {
    0x1_0000_0000_0000_0000 * (0x1_0000_0000_0000_0000 * (0x1_0000_0000_0000_0000
        * 0x1_0000_0000_0000_0000))
}

/// An unsigned 256-bit amount, held as four 64-bit limbs, least significant first.
#[derive(Clone, Copy, Debug, PartialEq, Eq)]
pub struct Amount {
    pub l0: u64,
    pub l1: u64,
    pub l2: u64,
    pub l3: u64,
}

impl View for Amount {
    type V = nat;

    /// The number that the limbs spell in base two to the power 64.
    open spec fn view(&self) -> nat {
        (self.l0 + 0x1_0000_0000_0000_0000 * (self.l1 + 0x1_0000_0000_0000_0000 * (self.l2
            + 0x1_0000_0000_0000_0000 * self.l3))) as nat
    }
}

impl Amount {
    /// The amount nothing.
    pub fn zero() -> (r: Amount)
        ensures
            r@ == 0,
    {
        Amount { l0: 0, l1: 0, l2: 0, l3: 0 }
    }

    /// The amount that a 64-bit number stands for.
    pub fn from_u64(v: u64) -> (r: Amount)
        ensures
            r@ == v,
    {
        Amount { l0: v, l1: 0, l2: 0, l3: 0 }
    }

    /// The amount that a 128-bit number stands for.
    pub fn from_u128(v: u128) -> (r: Amount)
        ensures
            r@ == v,
    {
        assert(v & 0xffff_ffff_ffff_ffff <= 0xffff_ffff_ffff_ffff) by (bit_vector);
        assert(v >> 64 <= 0xffff_ffff_ffff_ffff) by (bit_vector);
        assert(v == (v & 0xffff_ffff_ffff_ffff) + 0x1_0000_0000_0000_0000 * (v >> 64))
            by (bit_vector);
        Amount { l0: (v & 0xffff_ffff_ffff_ffff) as u64, l1: (v >> 64) as u64, l2: 0, l3: 0 }
    }

    /// The amount as a 128-bit number, or `None` where it does not fit.
    pub fn to_u128(&self) -> (r: Option<u128>)
        ensures
            match r {
                Some(v) => v == self@,
                None => self@ > u128::MAX,
            },
    {
        if self.l2 == 0 && self.l3 == 0 {
            Some(self.l0 as u128 + 0x1_0000_0000_0000_0000 * (self.l1 as u128))
        } else {
            None
        }
    }

    /// Whether the amount is nothing.
    pub fn is_zero(&self) -> (r: bool)
        ensures
            r == (self@ == 0),
    {
        self.l0 == 0 && self.l1 == 0 && self.l2 == 0 && self.l3 == 0
    }
}

/// `primitive_types::U256::checked_add`: the sum of the two amounts, or `None`
/// where the sum does not fit in 256 bits.
#[verifier::external_body]
pub(crate) fn amount_checked_add(a: Amount, b: Amount) -> (r: Option<Amount>)
    ensures
        match r {
            Some(s) => s@ == a@ + b@,
            None => a@ + b@ >= amount_limit(),
        },
{
    U256([a.l0, a.l1, a.l2, a.l3]).checked_add(U256([b.l0, b.l1, b.l2, b.l3])).map(
        |s| Amount { l0: s.0[0], l1: s.0[1], l2: s.0[2], l3: s.0[3] },
    )
}

/// `primitive_types::U256::checked_mul`: the product of the two amounts, or
/// `None` where the product does not fit in 256 bits.
#[verifier::external_body]
pub(crate) fn amount_checked_mul(a: Amount, b: Amount) -> (r: Option<Amount>)
    ensures
        match r {
            Some(s) => s@ == a@ * b@,
            None => a@ * b@ >= amount_limit(),
        },
{
    U256([a.l0, a.l1, a.l2, a.l3]).checked_mul(U256([b.l0, b.l1, b.l2, b.l3])).map(
        |s| Amount { l0: s.0[0], l1: s.0[1], l2: s.0[2], l3: s.0[3] },
    )
}

/// `primitive_types::U256::checked_div`: the quotient of the two amounts,
/// rounded down, or `None` where the divisor is nothing.
#[verifier::external_body]
pub(crate) fn amount_checked_div(a: Amount, b: Amount) -> (r: Option<Amount>)
    ensures
        match r {
            Some(s) => b@ != 0 && s@ == a@ / b@,
            None => b@ == 0,
        },
{
    U256([a.l0, a.l1, a.l2, a.l3]).checked_div(U256([b.l0, b.l1, b.l2, b.l3])).map(
        |s| Amount { l0: s.0[0], l1: s.0[1], l2: s.0[2], l3: s.0[3] },
    )
}

/// The `<` of `primitive_types::U256`: whether the first amount is the smaller
/// number.
#[verifier::external_body]
pub(crate) fn amount_lt(a: Amount, b: Amount) -> (r: bool)
    ensures
        r == (a@ < b@),
{
    U256([a.l0, a.l1, a.l2, a.l3]) < U256([b.l0, b.l1, b.l2, b.l3])
}

} // verus!
