//! Checked arithmetic and the identities of the ledger's number types.
//!
//! The operations are those of the `num` crate; each function here hands
//! one of them its arguments and states what it returns.

use vstd::prelude::*;

verus! {

/// The sum of two balances, or `None` where it exceeds `u128::MAX`.
///
/// Calls `num::traits::CheckedAdd::checked_add` on `u128`, which returns the
/// sum, and `None` instead of wrapping around on overflow.
#[verifier::external_body]
pub(crate) fn checked_add_balance(a: u128, b: u128) -> (sum: Option<u128>)
    ensures
        a + b <= u128::MAX ==> sum == Some((a + b) as u128),
        a + b > u128::MAX ==> sum.is_none(),
{
    num::traits::CheckedAdd::checked_add(&a, &b)
}

/// The difference of two balances, or `None` where it would fall below zero.
///
/// Calls `num::traits::CheckedSub::checked_sub` on `u128`, which returns the
/// difference, and `None` instead of wrapping around on underflow.
#[verifier::external_body]
pub(crate) fn checked_sub_balance(a: u128, b: u128) -> (difference: Option<u128>)
    ensures
        a >= b ==> difference == Some((a - b) as u128),
        a < b ==> difference.is_none(),
{
    num::traits::CheckedSub::checked_sub(&a, &b)
}

/// The balance of an account that holds nothing.
///
/// Calls `num::traits::Zero::zero` for `u128`, the additive identity, which is 0.
#[verifier::external_body]
pub(crate) fn zero_balance() -> (zero: u128)
    ensures
        zero == 0,
{
    num::traits::Zero::zero()
}

/// The number of the chain before any block.
///
/// Calls `num::traits::Zero::zero` for `u64`, the additive identity, which is 0.
#[verifier::external_body]
pub(crate) fn zero_block_number() -> (zero: u64)
    ensures
        zero == 0,
{
    num::traits::Zero::zero()
}

/// The step by which the block number grows.
///
/// Calls `num::traits::One::one` for `u64`, the multiplicative identity, which is 1.
#[verifier::external_body]
pub(crate) fn one_block_number() -> (one: u64)
    ensures
        one == 1,
{
    num::traits::One::one()
}

/// The nonce of an account that has sent nothing.
///
/// Calls `num::traits::Zero::zero` for `u32`, the additive identity, which is 0.
#[verifier::external_body]
pub(crate) fn zero_nonce() -> (zero: u32)
    ensures
        zero == 0,
{
    num::traits::Zero::zero()
}

/// The step by which a nonce grows.
///
/// Calls `num::traits::One::one` for `u32`, the multiplicative identity, which is 1.
#[verifier::external_body]
pub(crate) fn one_nonce() -> (one: u32)
    ensures
        one == 1,
{
    num::traits::One::one()
}

} // verus!
