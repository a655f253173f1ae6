use vstd::prelude::*;

use crate::error::ContractError;

verus! {

pub const DECIMAL_FRACTION_6: u128 = 1_000_000;

pub const DECIMAL_FRACTION_18: u128 = 1_000_000_000_000_000_000;

#[verifier::external_type_specification]
#[verifier::external_body]
pub struct ExUint256(cosmwasm_std::Uint256);

#[verifier::external_type_specification]
#[verifier::external_body]
pub struct ExCheckedMultiplyRatioError(cosmwasm_std::CheckedMultiplyRatioError);

/// The number that a `Uint256` holds.
pub uninterp spec fn uint256_value(v: cosmwasm_std::Uint256) -> nat;

/// Relies on cosmwasm_std::Uint256::from_u128, which widens the number unchanged.
pub assume_specification[ cosmwasm_std::Uint256::from_u128 ](num: u128) -> (r:
    cosmwasm_std::Uint256)
    ensures
        uint256_value(r) == num,
;

/// Relies on cosmwasm_std::Uint256::checked_multiply_ratio: `v * num / den` rounded down,
/// with a 512-bit intermediate product; it fails on a zero `den` or a quotient that needs
/// more than 256 bits.
#[verifier::external_body]
fn multiply_ratio(v: cosmwasm_std::Uint256, num: u128, den: u128) -> (r: Result<
    cosmwasm_std::Uint256,
    cosmwasm_std::CheckedMultiplyRatioError,
>)
    ensures
        r.is_ok() == (den != 0 && uint256_value(v) * num / (den as int) < u256_bound()),
        r matches Ok(q) ==> uint256_value(q) == uint256_value(v) * num / (den as int),
{
    v.checked_multiply_ratio(num, den)
}

/// Relies on the ordering of cosmwasm_std::Uint256, which is that of the numbers held.
#[verifier::external_body]
fn uint256_lt(a: &cosmwasm_std::Uint256, b: &cosmwasm_std::Uint256) -> (r: bool)
    ensures
        r == (uint256_value(*a) < uint256_value(*b)),
{
    a < b
}

/// 2^256: the first number that a `Uint256` cannot hold.
pub open spec fn u256_bound() -> int {
    (u128::MAX as int + 1) * (u128::MAX as int + 1)
}

/// The divisor that scales a price with `decimal` places, for the two supported precisions.
pub open spec fn decimal_divisor(decimal: u8) -> Option<u128> {
    if decimal == 6 {
        Some(DECIMAL_FRACTION_6)
    } else if decimal == 18 {
        Some(DECIMAL_FRACTION_18)
    } else {
        None
    }
}

/// The canonical value of `amount` at `price`: their product over the divisor, rounded down.
pub open spec fn converted_value(amount: u128, price: i64, divisor: u128) -> int {
    (amount * price) / (divisor as int)
}

pub fn decimal_fraction(decimal: u8) -> (r: Result<u128, ContractError>)
    ensures
        decimal_divisor(decimal) matches Some(d) ==> r == Ok::<u128, ContractError>(d),
        decimal_divisor(decimal) is None ==> r == Err::<u128, ContractError>(
            ContractError::InvalidDecimal {},
        ),
{
    match decimal {
        6 => Ok(DECIMAL_FRACTION_6),
        18 => Ok(DECIMAL_FRACTION_18),
        _ => Err(ContractError::InvalidDecimal {}),
    }
}

proof fn lemma_product_fits(amount: u128, price: i64, den: u128)
    requires
        price >= 0,
        den >= 1,
    ensures
        (amount * price) / (den as int) < u256_bound(),
        (amount * price) / (den as int) >= 0,
{
    let m = u128::MAX as int + 1;
    assert((amount as int) * (price as int) < m * m) by (nonlinear_arith)
        requires
            0 <= amount < m,
            0 <= price < m,
    ;
    assert((amount as int) * (price as int) >= 0) by (nonlinear_arith)
        requires 0 <= amount, 0 <= price;
    assert((amount * price) / (den as int) <= amount * price) by (nonlinear_arith)
        requires amount * price >= 0, den >= 1;
}

/// Whether `amount` of a currency priced at `price`, a fixed-point number with `decimal`
/// places, is worth at least `floor`. Only 6 and 18 places are supported, and a negative
/// price is refused: both fail with `InvalidDecimal` before any comparison.
pub fn meets_floor(amount: u128, price: i64, decimal: u8, floor: u128) -> (r: Result<
    bool,
    ContractError,
>)
    ensures
        decimal_divisor(decimal) is None || price < 0 ==> r == Err::<bool, ContractError>(
            ContractError::InvalidDecimal {},
        ),
        decimal_divisor(decimal) is Some && price >= 0 ==> r == Ok::<bool, ContractError>(
            converted_value(amount, price, decimal_divisor(decimal)->0) >= floor,
        ),
{
    let divisor = decimal_fraction(decimal)?;
    if price < 0 {
        return Err(ContractError::InvalidDecimal {});
    }
    proof {
        lemma_product_fits(amount, price, divisor);
    }
    let value = cosmwasm_std::Uint256::from_u128(amount);
    match multiply_ratio(value, price as u128, divisor) {
        Ok(converted) => Ok(!uint256_lt(&converted, &cosmwasm_std::Uint256::from_u128(floor))),
        Err(_) => Err(ContractError::OverflowError {}),
    }
}

} // verus!
