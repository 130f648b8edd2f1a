//! The concrete types of this ledger.

use crate::runtime::RuntimeCall;
use crate::support;
use vstd::prelude::*;

verus! {

/// Who owns a balance, a nonce or a claim.
pub type AccountId = String;

/// An amount held or moved.
pub type Balance = u128;

/// The position of a block in the chain.
pub type BlockNumber = u64;

/// How many extrinsics an account has sent.
pub type Nonce = u32;

/// What a claim is made on.
pub type Content = String;

/// An extrinsic of this ledger.
pub type Extrinsic = support::Extrinsic<AccountId, RuntimeCall>;

/// A header of this ledger.
pub type Header = support::Header<BlockNumber>;

/// A block of this ledger.
pub type Block = support::Block<Header, Extrinsic>;

} // verus!
