//! Amounts as they cross the query interface.
//!
//! A consumer whose numbers are narrower than 128 bits cannot hold a
//! balance, so the projection hands amounts out as `U128`, which is written
//! as a decimal string.

use near_sdk::json_types::U128;
use vstd::prelude::*;

verus! {

/// `near_sdk::json_types::U128`, a 128-bit unsigned integer that is written
/// as a decimal string. Nothing is assumed of a value of it but what
/// `carried` names.
#[verifier::external_type_specification]
#[verifier::external_body]
pub struct ExU128(U128);

/// The integer that a `U128` carries: what `u128::from` returns for it.
/// Not defined here; the one fact assumed of it is the contract of
/// `U128::from` below.
pub uninterp spec fn carried(amount: U128) -> u128;

/// `<U128 as From<u128>>::from` of near_sdk wraps the integer as it is:
/// the result carries `value`. Assumed, not proved.
pub assume_specification[ <U128 as core::convert::From<u128>>::from ](value: u128) -> (amount: U128)
    ensures
        carried(amount) == value,
;

} // verus!
