//! Fees, taken in thousandths of an amount and rounded down.

use vstd::prelude::*;
use crate::error::ErrorCode;

verus! {

/// The number of parts that a fee rate counts in.
pub const FEE_DENOMINATOR: u64 = 1000;

/// The fee on `amount` at `rate` thousandths, rounded down.
pub open spec fn fee_on(amount: int, rate: int) -> int {
    (amount * rate) / 1000
}

/// What is left of `amount` once the fee at `rate` is taken.
pub open spec fn net_of(amount: int, rate: int) -> int {
    amount - fee_on(amount, rate)
}

/// A fee at no more than a thousand thousandths never exceeds its amount.
pub proof fn lemma_fee_within_amount(amount: int, rate: int)
    requires
        0 <= amount,
        0 <= rate <= 1000,
    ensures
        0 <= fee_on(amount, rate) <= amount,
{
    assert(0 <= amount * rate <= amount * 1000) by (nonlinear_arith)
        requires
            0 <= amount,
            0 <= rate <= 1000,
    ;
}

/// A fee that exceeds its amount comes from a rate above the whole.
pub proof fn lemma_excessive_fee_has_excessive_rate(amount: int, rate: int)
    requires
        0 <= amount,
        0 <= rate,
        fee_on(amount, rate) > amount,
    ensures
        rate > 1000,
{
    if rate <= 1000 {
        lemma_fee_within_amount(amount, rate);
    }
}

/// The fee on `amount` at `rate` thousandths and what is left of the amount.
/// Fails exactly when the fee would exceed the amount.
pub fn split_fee(amount: u64, rate: u64) -> (r: Result<(u64, u64), ErrorCode>)
    ensures
        fee_on(amount as int, rate as int) <= amount ==> r == Ok::<(u64, u64), ErrorCode>(
            (fee_on(amount as int, rate as int) as u64, net_of(amount as int, rate as int) as u64),
        ),
        fee_on(amount as int, rate as int) > amount ==> r == Err::<(u64, u64), ErrorCode>(
            ErrorCode::ArithmeticUnderflow,
        ),
{
    assert(0 <= amount * rate <= 0xFFFF_FFFF_FFFF_FFFF * 0xFFFF_FFFF_FFFF_FFFF) by (nonlinear_arith)
        requires
            0 <= amount <= 0xFFFF_FFFF_FFFF_FFFF,
            0 <= rate <= 0xFFFF_FFFF_FFFF_FFFF,
    ;
    let product: u128 = (amount as u128) * (rate as u128);
    let fee: u128 = product / 1000;
    if fee > amount as u128 {
        Err(ErrorCode::ArithmeticUnderflow)
    } else {
        let fee: u64 = fee as u64;
        Ok((fee, amount - fee))
    }
}

} // verus!
