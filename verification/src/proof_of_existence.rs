//! Claims: which account owns which content. Content has at most one owner.

use crate::store::KeyedStore;
use crate::support::{Dispatch, DispatchResult, ALREADY_CLAIMED, NOT_OWNER, NO_SUCH_CLAIM};
use crate::types::{AccountId, Content};
use vstd::prelude::*;

verus! {

/// How claiming `claim` ends: the content must not have an owner yet.
pub open spec fn create_outcome(claims: Map<Seq<char>, Seq<char>>, claim: Seq<char>) -> DispatchResult {
    if claims.contains_key(claim) {
        Err(ALREADY_CLAIMED)
    } else {
        Ok(())
    }
}

/// The claims after `caller` asks for `claim`: one more where the content was free.
pub open spec fn create_effect(
    claims: Map<Seq<char>, Seq<char>>,
    caller: Seq<char>,
    claim: Seq<char>,
) -> Map<Seq<char>, Seq<char>> {
    if claims.contains_key(claim) {
        claims
    } else {
        claims.insert(claim, caller)
    }
}

/// How revoking `claim` ends: the content must be claimed, and by `caller`.
pub open spec fn revoke_outcome(
    claims: Map<Seq<char>, Seq<char>>,
    caller: Seq<char>,
    claim: Seq<char>,
) -> DispatchResult {
    if !claims.contains_key(claim) {
        Err(NO_SUCH_CLAIM)
    } else if claims[claim] != caller {
        Err(NOT_OWNER)
    } else {
        Ok(())
    }
}

/// The claims after `caller` revokes `claim`: one fewer where `caller` owned it.
pub open spec fn revoke_effect(
    claims: Map<Seq<char>, Seq<char>>,
    caller: Seq<char>,
    claim: Seq<char>,
) -> Map<Seq<char>, Seq<char>> {
    if claims.contains_key(claim) && claims[claim] == caller {
        claims.remove(claim)
    } else {
        claims
    }
}

/// Content has one owner at most: once an account has asked for a claim, a second
/// request for the same content fails as already claimed and changes nothing; and where
/// the content was free before the first request, its owner is still the first caller.
pub proof fn lemma_second_claim_fails(
    claims: Map<Seq<char>, Seq<char>>,
    first: Seq<char>,
    second: Seq<char>,
    claim: Seq<char>,
)
    ensures
        create_outcome(create_effect(claims, first, claim), claim) == Err::<(), &'static str>(
            ALREADY_CLAIMED,
        ),
        create_effect(create_effect(claims, first, claim), second, claim) == create_effect(
            claims,
            first,
            claim,
        ),
        !claims.contains_key(claim) ==> create_effect(
            create_effect(claims, first, claim),
            second,
            claim,
        )[claim] == first,
{
}

/// A revocation by an account that does not own the claim fails as such and leaves
/// every claim, this one too, with its owner.
pub proof fn lemma_revoke_needs_owner(
    claims: Map<Seq<char>, Seq<char>>,
    caller: Seq<char>,
    claim: Seq<char>,
)
    requires
        claims.contains_key(claim),
        claims[claim] != caller,
    ensures
        revoke_outcome(claims, caller, claim) == Err::<(), &'static str>(NOT_OWNER),
        revoke_effect(claims, caller, claim) == claims,
{
}

/// A claim or a revocation touches no content but the one it names.
pub proof fn lemma_call_touches_one_claim(
    claims: Map<Seq<char>, Seq<char>>,
    caller: Seq<char>,
    claim: Seq<char>,
    other: Seq<char>,
)
    requires
        other != claim,
    ensures
        create_effect(claims, caller, claim).contains_key(other) == claims.contains_key(other),
        revoke_effect(claims, caller, claim).contains_key(other) == claims.contains_key(other),
        claims.contains_key(other) ==> create_effect(claims, caller, claim)[other] == claims[other]
            && revoke_effect(claims, caller, claim)[other] == claims[other],
{
}

/// What can be asked of the claims module.
pub enum Call {
    /// Claim the content for the caller.
    CreateClaim { claim: Content },
    /// Give up the caller's claim on the content.
    RevokeClaim { claim: Content },
}

/// How `call`, sent by `caller`, ends.
pub open spec fn call_outcome(
    claims: Map<Seq<char>, Seq<char>>,
    caller: Seq<char>,
    call: Call,
) -> DispatchResult {
    match call {
        Call::CreateClaim { claim } => create_outcome(claims, claim@),
        Call::RevokeClaim { claim } => revoke_outcome(claims, caller, claim@),
    }
}

/// The claims after `call`, sent by `caller`.
pub open spec fn call_effect(
    claims: Map<Seq<char>, Seq<char>>,
    caller: Seq<char>,
    call: Call,
) -> Map<Seq<char>, Seq<char>> {
    match call {
        Call::CreateClaim { claim } => create_effect(claims, caller, claim@),
        Call::RevokeClaim { claim } => revoke_effect(claims, caller, claim@),
    }
}

/// The stored owners, each as its characters.
pub open spec fn owner_texts(stored: Map<Seq<char>, AccountId>) -> Map<Seq<char>, Seq<char>> {
    Map::new(|claim: Seq<char>| stored.contains_key(claim), |claim: Seq<char>| stored[claim]@)
}

/// The claims module.
#[derive(Debug)]
pub struct Pallet {
    claims: KeyedStore<AccountId>,
}

impl View for Pallet {
    type V = Map<Seq<char>, Seq<char>>;

    closed spec fn view(&self) -> Map<Seq<char>, Seq<char>> {
        owner_texts(self.claims@)
    }
}

impl Pallet {
    /// A registry without claims.
    pub fn new() -> (pallet: Self)
        ensures
            pallet@ == Map::<Seq<char>, Seq<char>>::empty(),
    {
        let pallet = Pallet { claims: KeyedStore::new() };
        assert(pallet@ =~= Map::<Seq<char>, Seq<char>>::empty());
        pallet
    }

    /// The owner of `claim`, if the content is claimed.
    pub fn get_claim(&self, claim: &Content) -> (owner: Option<&AccountId>)
        ensures
            match owner {
                Some(account) => self@.contains_key(claim@) && self@[claim@] == account@,
                None => !self@.contains_key(claim@),
            },
    {
        self.claims.get(claim)
    }

    /// Claims `claim` for `caller`, or fails where the content has an owner.
    pub fn create_claim(&mut self, caller: AccountId, claim: Content) -> (result: DispatchResult)
        ensures
            result == create_outcome(old(self)@, claim@),
            final(self)@ == create_effect(old(self)@, caller@, claim@),
    {
        if self.claims.contains_key(&claim) {
            return Err(ALREADY_CLAIMED);
        }
        self.claims.insert(claim, caller);
        assert(self@ =~= old(self)@.insert(claim@, caller@));
        Ok(())
    }

    /// Gives up the claim of `caller` on `claim`, or fails where the content is
    /// unclaimed or owned by another account.
    pub fn revoke_claim(&mut self, caller: AccountId, claim: Content) -> (result: DispatchResult)
        ensures
            result == revoke_outcome(old(self)@, caller@, claim@),
            final(self)@ == revoke_effect(old(self)@, caller@, claim@),
    {
        let owner = match self.claims.get(&claim) {
            Some(owner) => owner,
            None => {
                return Err(NO_SUCH_CLAIM);
            },
        };
        if *owner != caller {
            return Err(NOT_OWNER);
        }
        self.claims.remove(&claim);
        assert(self@ =~= old(self)@.remove(claim@));
        Ok(())
    }
}

impl Dispatch for Pallet {
    type Caller = AccountId;

    type Call = Call;

    /// Carries out `call` for `caller`: a claim or a revocation.
    fn dispatch(&mut self, caller: AccountId, call: Call) -> (result: DispatchResult)
        ensures
            result == call_outcome(old(self)@, caller@, call),
            final(self)@ == call_effect(old(self)@, caller@, call),
    {
        match call {
            Call::CreateClaim { claim } => self.create_claim(caller, claim),
            Call::RevokeClaim { claim } => self.revoke_claim(caller, claim),
        }
    }
}

} // verus!
