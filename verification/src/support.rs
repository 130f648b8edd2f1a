//! The types that the modules and the block executor share.

use vstd::prelude::*;

verus! {

/// The outcome of a dispatched call: success, or the text of the one error it met.
pub type DispatchResult = Result<(), &'static str>;

/// A transfer whose source holds less than the amount.
pub const INSUFFICIENT_FUNDS: &'static str = "Not enough funds.";

/// A transfer that would raise the destination above the largest balance.
pub const OVERFLOW: &'static str = "Overflow occured";

/// A claim on content that already has an owner.
pub const ALREADY_CLAIMED: &'static str = "this content is already claimed";

/// A revocation of content that nobody has claimed.
pub const NO_SUCH_CLAIM: &'static str = "no claim found";

/// A revocation by an account that does not own the claim.
pub const NOT_OWNER: &'static str = "this claim is owned by someone else";

/// A block whose header does not carry the number that follows the chain's.
pub const BLOCK_NUMBER_MISMATCH: &'static str = "Block number mismatch";

/// The head of a block.
pub struct Header<BlockNumber> {
    pub block_number: BlockNumber,
}

/// An instruction handed in from outside: who sends it, and what it asks for.
pub struct Extrinsic<Caller, Call> {
    pub caller: Caller,
    pub call: Call,
}

/// A header and the extrinsics to apply, in order.
pub struct Block<Header, Extrinsic> {
    pub header: Header,
    pub extrinsics: Vec<Extrinsic>,
}

/// A module that carries out the calls addressed to it.
pub trait Dispatch {
    /// Who sends a call.
    type Caller;

    /// What can be asked of the module.
    type Call;

    /// Carries out `call` on behalf of `caller`.
    fn dispatch(&mut self, caller: Self::Caller, call: Self::Call) -> DispatchResult;
}

/// The six error texts differ from one another.
pub proof fn lemma_errors_differ()
    ensures
        INSUFFICIENT_FUNDS != OVERFLOW,
        INSUFFICIENT_FUNDS != ALREADY_CLAIMED,
        INSUFFICIENT_FUNDS != NO_SUCH_CLAIM,
        INSUFFICIENT_FUNDS != NOT_OWNER,
        INSUFFICIENT_FUNDS != BLOCK_NUMBER_MISMATCH,
        OVERFLOW != ALREADY_CLAIMED,
        OVERFLOW != NO_SUCH_CLAIM,
        OVERFLOW != NOT_OWNER,
        OVERFLOW != BLOCK_NUMBER_MISMATCH,
        ALREADY_CLAIMED != NO_SUCH_CLAIM,
        ALREADY_CLAIMED != NOT_OWNER,
        ALREADY_CLAIMED != BLOCK_NUMBER_MISMATCH,
        NO_SUCH_CLAIM != NOT_OWNER,
        NO_SUCH_CLAIM != BLOCK_NUMBER_MISMATCH,
        NOT_OWNER != BLOCK_NUMBER_MISMATCH,
{
    reveal_strlit("Not enough funds.");
    reveal_strlit("Overflow occured");
    reveal_strlit("this content is already claimed");
    reveal_strlit("no claim found");
    reveal_strlit("this claim is owned by someone else");
    reveal_strlit("Block number mismatch");
    assert(INSUFFICIENT_FUNDS@.len() == 17);
    assert(OVERFLOW@.len() == 16);
    assert(ALREADY_CLAIMED@.len() == 31);
    assert(NO_SUCH_CLAIM@.len() == 14);
    assert(NOT_OWNER@.len() == 35);
    assert(BLOCK_NUMBER_MISMATCH@.len() == 21);
}

} // verus!
