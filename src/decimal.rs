use decimal_wad::common::{TryAdd, TryDiv, TryMul, TrySub};
use decimal_wad::decimal::Decimal;
use decimal_wad::error::DecimalError;
use vstd::prelude::*;

verus! {

/// The fixed-point scale: a value `v` stands for `v / WAD`.
pub const WAD: u128 = 1_000_000_000_000_000_000;

/// Product of two fixed-point values, rounded down.
pub open spec fn wad_mul(a: int, b: int) -> int {
    a * b / (WAD as int)
}

/// Quotient of two fixed-point values, rounded down.
pub open spec fn wad_div(a: int, b: int) -> int {
    a * (WAD as int) / b
}

#[verifier::external_type_specification]
#[verifier::external_body]
pub struct ExDecimalError(DecimalError);

/// Relies on `Decimal::from` for an integer: the scaled value `x * WAD`.
#[verifier::external_body]
pub(crate) fn decimal_from_int(x: u64) -> (r: Result<u128, DecimalError>)
    ensures
        r.is_ok(),
        r.is_ok() ==> r->Ok_0 == (x as int) * (WAD as int),
{
    Decimal::from(x).to_scaled_val::<u128>()
}

/// Relies on `Decimal::try_div` by an integer: the scaled value divided by
/// `b`, rounded down; an error when `b` is zero.
#[verifier::external_body]
pub(crate) fn decimal_div_int(a: u128, b: u64) -> (r: Result<u128, DecimalError>)
    ensures
        b == 0 ==> r.is_err(),
        b != 0 ==> r.is_ok(),
        r.is_ok() ==> r->Ok_0 == (a as int) / (b as int),
{
    Decimal::from_scaled_val(a).try_div(b).and_then(|d| d.to_scaled_val::<u128>())
}

/// Relies on `Decimal::try_div` by a decimal: `a * WAD / b`, rounded down;
/// an error when `b` is zero or the quotient does not fit 128 bits.
#[verifier::external_body]
pub(crate) fn decimal_div(a: u128, b: u128) -> (r: Result<u128, DecimalError>)
    ensures
        b == 0 ==> r.is_err(),
        b != 0 ==> (r.is_ok() <==> wad_div(a as int, b as int) <= u128::MAX),
        r.is_ok() ==> r->Ok_0 == wad_div(a as int, b as int),
{
    Decimal::from_scaled_val(a).try_div(Decimal::from_scaled_val(b)).and_then(|d| d.to_scaled_val::<u128>())
}

/// Relies on `Decimal::try_mul` by a decimal: `a * b / WAD`, rounded down;
/// an error when that does not fit 128 bits.
#[verifier::external_body]
pub(crate) fn decimal_mul(a: u128, b: u128) -> (r: Result<u128, DecimalError>)
    ensures
        r.is_ok() <==> wad_mul(a as int, b as int) <= u128::MAX,
        r.is_ok() ==> r->Ok_0 == wad_mul(a as int, b as int),
{
    Decimal::from_scaled_val(a).try_mul(Decimal::from_scaled_val(b)).and_then(|d| d.to_scaled_val::<u128>())
}

/// Relies on `Decimal::try_add`: the sum; an error when it does not fit 128
/// bits.
#[verifier::external_body]
pub(crate) fn decimal_add(a: u128, b: u128) -> (r: Result<u128, DecimalError>)
    ensures
        r.is_ok() <==> (a as int) + (b as int) <= u128::MAX,
        r.is_ok() ==> r->Ok_0 == (a as int) + (b as int),
{
    Decimal::from_scaled_val(a).try_add(Decimal::from_scaled_val(b)).and_then(|d| d.to_scaled_val::<u128>())
}

/// Relies on `Decimal::try_sub`: the difference; an error when `b > a`.
#[verifier::external_body]
pub(crate) fn decimal_sub(a: u128, b: u128) -> (r: Result<u128, DecimalError>)
    ensures
        r.is_ok() <==> b <= a,
        r.is_ok() ==> r->Ok_0 == (a as int) - (b as int),
{
    Decimal::from_scaled_val(a).try_sub(Decimal::from_scaled_val(b)).and_then(|d| d.to_scaled_val::<u128>())
}

} // verus!
