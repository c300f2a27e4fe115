//! Fixed-point fractions with 18 decimal places, and flooring products.

use vstd::prelude::*;

verus! {

/// The number of atomic units in the fraction 1.0.
pub const DECIMAL_FRACTIONAL: u128 = 1_000_000_000_000_000_000u128;

/// A non-negative fixed-point number, held as a count of 10^-18 units.
#[derive(Clone, Copy, Debug, PartialEq, Eq, Structural)]
pub struct Decimal {
    atomics: u128,
}

impl Decimal {
    /// The count of 10^-18 units that this fraction holds.
    pub closed spec fn units(self) -> nat {
        self.atomics as nat
    }

    /// `floor(self × amount)`, the product rounded down to a whole unit.
    pub open spec fn floor_mul(self, amount: nat) -> nat {
        (self.units() * amount) / (DECIMAL_FRACTIONAL as nat)
    }

    /// The fraction made of `atomics` units of 10^-18.
    pub fn raw(atomics: u128) -> (d: Decimal)
        ensures
            d.units() == atomics,
    {
        Decimal { atomics }
    }

    pub fn zero() -> (d: Decimal)
        ensures
            d.units() == 0,
    {
        Decimal { atomics: 0 }
    }

    pub fn one() -> (d: Decimal)
        ensures
            d.units() == DECIMAL_FRACTIONAL,
    {
        Decimal { atomics: DECIMAL_FRACTIONAL }
    }

    /// `x` hundredths.
    pub fn percent(x: u64) -> (d: Decimal)
        ensures
            d.units() == x * 10_000_000_000_000_000,
    {
        let wide: u128 = x as u128;
        assert(wide * 10_000_000_000_000_000 <= u128::MAX) by (nonlinear_arith)
            requires
                wide <= u64::MAX,
        ;
        Decimal { atomics: wide * 10_000_000_000_000_000 }
    }

    /// `x` thousandths.
    pub fn permille(x: u64) -> (d: Decimal)
        ensures
            d.units() == x * 1_000_000_000_000_000,
    {
        let wide: u128 = x as u128;
        assert(wide * 1_000_000_000_000_000 <= u128::MAX) by (nonlinear_arith)
            requires
                wide <= u64::MAX,
        ;
        Decimal { atomics: wide * 1_000_000_000_000_000 }
    }

    pub fn atomics(&self) -> (a: u128)
        ensures
            a == self.units(),
    {
        self.atomics
    }

    pub fn is_zero(&self) -> (z: bool)
        ensures
            z == (self.units() == 0),
    {
        self.atomics == 0
    }

    /// The sum, or `None` where it passes the largest fraction that can be held.
    pub fn checked_add(self, other: Decimal) -> (sum: Option<Decimal>)
        ensures
            match sum {
                Some(d) => d.units() == self.units() + other.units(),
                None => self.units() + other.units() > u128::MAX,
            },
    {
        match self.atomics.checked_add(other.atomics) {
            Some(atomics) => Some(Decimal { atomics }),
            None => None,
        }
    }
}

/// `Uint128::checked_mul_floor` of cosmwasm_std, applied to a `Decimal` built
/// from the same atomic units. The product is formed in 256 bits, divided by
/// 10^18 and narrowed again; the call reports an error exactly when the
/// quotient does not fit in 128 bits, which is returned here as `None`.
#[verifier::external_body]
fn mul_floor_outside(amount: u128, fraction: Decimal) -> (product: Option<u128>)
    ensures
        product == (if fraction.floor_mul(amount as nat) <= u128::MAX {
            Some(fraction.floor_mul(amount as nat) as u128)
        } else {
            None
        }),
{
    let rhs = cosmwasm_std::Decimal::raw(fraction.atomics);
    match cosmwasm_std::Uint128::new(amount).checked_mul_floor(rhs) {
        Ok(value) => Some(value.u128()),
        Err(_) => None,
    }
}

/// `floor(fraction × amount)`, or `None` where that passes `u128::MAX`.
pub fn checked_mul_floor(amount: u128, fraction: Decimal) -> (product: Option<u128>)
    ensures
        fraction.floor_mul(amount as nat) <= u128::MAX ==> product == Some(
            fraction.floor_mul(amount as nat) as u128,
        ),
        fraction.floor_mul(amount as nat) > u128::MAX ==> product.is_none(),
{
    mul_floor_outside(amount, fraction)
}

/// A fraction of at most one never makes an amount larger.
pub proof fn lemma_floor_mul_bounded(fraction: Decimal, amount: nat)
    requires
        fraction.units() <= DECIMAL_FRACTIONAL,
    ensures
        fraction.floor_mul(amount) <= amount,
{
    let u = fraction.units();
    let d = DECIMAL_FRACTIONAL as nat;
    assert(u * amount <= d * amount) by (nonlinear_arith)
        requires
            u <= d,
    ;
    assert((d * amount) / d == amount) by (nonlinear_arith)
        requires
            d > 0,
    ;
    assert((u * amount) / d <= (d * amount) / d) by (nonlinear_arith)
        requires
            u * amount <= d * amount,
            d > 0,
    ;
}

/// Nothing times anything is nothing.
pub proof fn lemma_floor_mul_zero(fraction: Decimal, amount: nat)
    ensures
        fraction.floor_mul(0) == 0,
        fraction.units() == 0 ==> fraction.floor_mul(amount) == 0,
{
    let u = fraction.units();
    let d = DECIMAL_FRACTIONAL as nat;
    assert(u * 0 == 0) by (nonlinear_arith);
    assert(0 * amount == 0) by (nonlinear_arith);
    assert(0nat / d == 0) by (nonlinear_arith)
        requires
            d > 0,
    ;
}

} // verus!
