//! Chain metadata: the number of the current block and one nonce per account.

use crate::arith::{one_block_number, one_nonce, zero_block_number, zero_nonce};
use crate::store::KeyedStore;
use crate::types::{AccountId, BlockNumber, Nonce};
use vstd::prelude::*;

verus! {

/// What the chain metadata holds, as mathematics: the block number and the stored nonces.
pub struct ChainState {
    pub block_number: u64,
    pub nonces: Map<Seq<char>, u32>,
}

/// The nonce of `who`: the stored one, or zero where none is stored.
pub open spec fn nonce_of(nonces: Map<Seq<char>, u32>, who: Seq<char>) -> u32 {
    if nonces.contains_key(who) {
        nonces[who]
    } else {
        0
    }
}

/// The nonces after one more extrinsic of `who`.
pub open spec fn bump_nonce(nonces: Map<Seq<char>, u32>, who: Seq<char>) -> Map<Seq<char>, u32> {
    nonces.insert(who, (nonce_of(nonces, who) + 1) as u32)
}

/// The nonces after `times` more extrinsics of `who`.
pub open spec fn bump_nonce_times(
    nonces: Map<Seq<char>, u32>,
    who: Seq<char>,
    times: nat,
) -> Map<Seq<char>, u32>
    decreases times,
{
    if times == 0 {
        nonces
    } else {
        bump_nonce(bump_nonce_times(nonces, who, (times - 1) as nat), who)
    }
}

/// Raising the nonce of an account `times` times adds `times` to it, from zero for an
/// account that had none, and leaves the nonce of every other account as it was.
pub proof fn lemma_nonce_counts_raises(
    nonces: Map<Seq<char>, u32>,
    who: Seq<char>,
    times: nat,
    other: Seq<char>,
)
    requires
        nonce_of(nonces, who) + times <= u32::MAX,
    ensures
        nonce_of(bump_nonce_times(nonces, who, times), who) == nonce_of(nonces, who) + times,
        nonce_of(bump_nonce_times(Map::empty(), who, times), who) == times,
        other != who ==> nonce_of(bump_nonce_times(nonces, who, times), other) == nonce_of(
            nonces,
            other,
        ),
    decreases times,
{
    if times > 0 {
        lemma_nonce_counts_raises(nonces, who, (times - 1) as nat, other);
        lemma_nonce_counts_raises(Map::empty(), who, (times - 1) as nat, other);
    }
}

/// The chain-metadata module.
#[derive(Debug)]
pub struct Pallet {
    block_number: BlockNumber,
    nonce: KeyedStore<Nonce>,
}

impl View for Pallet {
    type V = ChainState;

    closed spec fn view(&self) -> ChainState {
        ChainState { block_number: self.block_number, nonces: self.nonce@ }
    }
}

impl Pallet {
    /// The metadata of a chain without blocks: block number zero, no nonce stored.
    pub fn new() -> (pallet: Self)
        ensures
            pallet@ == (ChainState { block_number: 0, nonces: Map::empty() }),
    {
        Pallet { block_number: zero_block_number(), nonce: KeyedStore::new() }
    }

    /// The number of the current block.
    pub fn block_number(&self) -> (number: BlockNumber)
        ensures
            number == self@.block_number,
    {
        self.block_number
    }

    /// The nonce of `who`: zero until the account has sent an extrinsic.
    pub fn nonce(&self, who: &AccountId) -> (nonce: Nonce)
        ensures
            nonce == nonce_of(self@.nonces, who@),
    {
        match self.nonce.get(who) {
            Some(stored) => *stored,
            None => zero_nonce(),
        }
    }

    /// The nonce stored for `who`, or `None` where the account has sent nothing yet.
    pub fn get_nonce(&self, who: &AccountId) -> (stored: Option<Nonce>)
        ensures
            stored == if self@.nonces.contains_key(who@) {
                Some(self@.nonces[who@])
            } else {
                None
            },
    {
        match self.nonce.get(who) {
            Some(stored) => Some(*stored),
            None => None,
        }
    }

    /// Raises the block number by one.
    pub fn inc_block_number(&mut self)
        requires
            old(self)@.block_number < u64::MAX,
        ensures
            final(self)@.block_number == old(self)@.block_number + 1,
            final(self)@.nonces == old(self)@.nonces,
    {
        self.block_number += one_block_number();
    }

    /// Raises the nonce of `who` by one; the first time, from zero.
    pub fn inc_nonce(&mut self, who: &AccountId)
        requires
            nonce_of(old(self)@.nonces, who@) < u32::MAX,
        ensures
            final(self)@.block_number == old(self)@.block_number,
            final(self)@.nonces == bump_nonce(old(self)@.nonces, who@),
    {
        let nonce = self.nonce(who) + one_nonce();
        self.nonce.insert(who.clone(), nonce);
    }
}

} // verus!
