//! The runtime: one instance of each module, the routing of calls to them,
//! and the execution of blocks.

use crate::balances;
use crate::proof_of_existence;
use crate::support::{Dispatch, DispatchResult, BLOCK_NUMBER_MISMATCH};
use crate::system;
use crate::system::{bump_nonce, nonce_of, ChainState};
use crate::types::{AccountId, Block, BlockNumber, Extrinsic};
use vstd::prelude::*;

verus! {

/// Every call that can be sent to the runtime, by the module that carries it out.
pub enum RuntimeCall {
    Balances(balances::Call),
    ProofOfExistence(proof_of_existence::Call),
}

/// What the runtime holds, as mathematics.
pub struct RuntimeState {
    pub chain: ChainState,
    pub balances: Map<Seq<char>, u128>,
    pub claims: Map<Seq<char>, Seq<char>>,
}

/// An extrinsic whose call failed: where it stood, and the error it met.
#[derive(Debug)]
pub struct ExtrinsicFailure {
    pub block_number: BlockNumber,
    pub index: usize,
    pub error: &'static str,
}

/// How `call`, sent by `caller`, ends: as the module that it names decides.
pub open spec fn dispatch_outcome(
    state: RuntimeState,
    caller: Seq<char>,
    call: RuntimeCall,
) -> DispatchResult {
    match call {
        RuntimeCall::Balances(inner) => balances::call_outcome(state.balances, caller, inner),
        RuntimeCall::ProofOfExistence(inner) => proof_of_existence::call_outcome(
            state.claims,
            caller,
            inner,
        ),
    }
}

/// The state after `call`, sent by `caller`: only the module that it names changes.
pub open spec fn dispatch_effect(
    state: RuntimeState,
    caller: Seq<char>,
    call: RuntimeCall,
) -> RuntimeState {
    match call {
        RuntimeCall::Balances(inner) => RuntimeState {
            balances: balances::call_effect(state.balances, caller, inner),
            ..state
        },
        RuntimeCall::ProofOfExistence(inner) => RuntimeState {
            claims: proof_of_existence::call_effect(state.claims, caller, inner),
            ..state
        },
    }
}

/// The state once the caller's nonce has been raised, before the call is carried out.
pub open spec fn charge_nonce(state: RuntimeState, caller: Seq<char>) -> RuntimeState {
    RuntimeState {
        chain: ChainState { nonces: bump_nonce(state.chain.nonces, caller), ..state.chain },
        ..state
    }
}

/// How one extrinsic ends: as its call does, on the state with the nonce raised.
pub open spec fn extrinsic_outcome(state: RuntimeState, extrinsic: Extrinsic) -> DispatchResult {
    dispatch_outcome(charge_nonce(state, extrinsic.caller@), extrinsic.caller@, extrinsic.call)
}

/// The state after one extrinsic: the caller's nonce is raised, whether or not the
/// call succeeds, and the call is carried out.
pub open spec fn apply_extrinsic(state: RuntimeState, extrinsic: Extrinsic) -> RuntimeState {
    dispatch_effect(charge_nonce(state, extrinsic.caller@), extrinsic.caller@, extrinsic.call)
}

/// The state after a sequence of extrinsics, applied in order.
pub open spec fn apply_extrinsics(state: RuntimeState, extrinsics: Seq<Extrinsic>) -> RuntimeState
    decreases extrinsics.len(),
{
    if extrinsics.len() == 0 {
        state
    } else {
        apply_extrinsic(apply_extrinsics(state, extrinsics.drop_last()), extrinsics.last())
    }
}

/// The failures among a sequence of extrinsics, in order, each with its position.
pub open spec fn failures_of(
    state: RuntimeState,
    block_number: BlockNumber,
    extrinsics: Seq<Extrinsic>,
) -> Seq<ExtrinsicFailure>
    decreases extrinsics.len(),
{
    if extrinsics.len() == 0 {
        Seq::empty()
    } else {
        let earlier = extrinsics.drop_last();
        let failures = failures_of(state, block_number, earlier);
        match extrinsic_outcome(apply_extrinsics(state, earlier), extrinsics.last()) {
            Ok(_) => failures,
            Err(error) => failures.push(
                ExtrinsicFailure { block_number, index: earlier.len() as usize, error },
            ),
        }
    }
}

/// How many of the extrinsics `who` has sent.
pub open spec fn sent_by(extrinsics: Seq<Extrinsic>, who: Seq<char>) -> nat
    decreases extrinsics.len(),
{
    if extrinsics.len() == 0 {
        0
    } else {
        sent_by(extrinsics.drop_last(), who) + if extrinsics.last().caller@ == who {
            1nat
        } else {
            0nat
        }
    }
}

/// Every nonce can be raised once for each extrinsic of its account and still fit in `u32`.
pub open spec fn nonces_have_room(nonces: Map<Seq<char>, u32>, extrinsics: Seq<Extrinsic>) -> bool {
    forall|who: Seq<char>| nonce_of(nonces, who) + #[trigger] sent_by(extrinsics, who) <= u32::MAX
}

/// The state once the block number has been raised for a new block.
pub open spec fn advance_block(state: RuntimeState) -> RuntimeState {
    RuntimeState {
        chain: ChainState { block_number: (state.chain.block_number + 1) as u64, ..state.chain },
        ..state
    }
}

/// A prefix of a sequence holds at most as many extrinsics of an account as the whole.
pub proof fn lemma_sent_by_prefix(extrinsics: Seq<Extrinsic>, k: int, who: Seq<char>)
    requires
        0 <= k <= extrinsics.len(),
    ensures
        sent_by(extrinsics.take(k), who) <= sent_by(extrinsics, who),
    decreases extrinsics.len(),
{
    if k == extrinsics.len() {
        assert(extrinsics.take(k) =~= extrinsics);
    } else {
        lemma_sent_by_prefix(extrinsics.drop_last(), k, who);
        assert(extrinsics.drop_last().take(k) =~= extrinsics.take(k));
    }
}

/// Extrinsics change no block number, and raise each nonce by the number of
/// extrinsics that its account has sent, whatever became of the calls.
pub proof fn lemma_nonces_count_extrinsics(
    state: RuntimeState,
    extrinsics: Seq<Extrinsic>,
    who: Seq<char>,
)
    requires
        nonces_have_room(state.chain.nonces, extrinsics),
    ensures
        apply_extrinsics(state, extrinsics).chain.block_number == state.chain.block_number,
        nonce_of(apply_extrinsics(state, extrinsics).chain.nonces, who) == nonce_of(
            state.chain.nonces,
            who,
        ) + sent_by(extrinsics, who),
    decreases extrinsics.len(),
{
    if extrinsics.len() > 0 {
        let earlier = extrinsics.drop_last();
        let sender = extrinsics.last().caller@;
        assert forall|other: Seq<char>|
            nonce_of(state.chain.nonces, other) + #[trigger] sent_by(earlier, other)
                <= u32::MAX by {
            assert(sent_by(earlier, other) <= sent_by(extrinsics, other));
        }
        lemma_nonces_count_extrinsics(state, earlier, who);
        lemma_nonces_count_extrinsics(state, earlier, sender);
        assert(nonce_of(state.chain.nonces, sender) + sent_by(extrinsics, sender) <= u32::MAX);
    }
}

/// An account that has sent at least one of the extrinsics is the caller of one of them.
pub proof fn lemma_sender_is_a_caller(extrinsics: Seq<Extrinsic>, who: Seq<char>)
    requires
        sent_by(extrinsics, who) > 0,
    ensures
        exists|k: int| 0 <= k < extrinsics.len() && (#[trigger] extrinsics[k]).caller@ == who,
    decreases extrinsics.len(),
{
    if extrinsics.last().caller@ == who {
        assert(extrinsics[extrinsics.len() - 1].caller@ == who);
    } else {
        lemma_sender_is_a_caller(extrinsics.drop_last(), who);
        let k = choose|k: int|
            0 <= k < extrinsics.drop_last().len() && (#[trigger] extrinsics.drop_last()[k]).caller@
                == who;
        assert(extrinsics[k].caller@ == who);
    }
}

/// A call changes the state of the module that it names and nothing else: no block
/// number, no nonce, and nothing that another module holds.
pub proof fn lemma_dispatch_touches_one_module(
    state: RuntimeState,
    caller: Seq<char>,
    call: RuntimeCall,
)
    ensures
        dispatch_effect(state, caller, call).chain == state.chain,
        call is Balances ==> dispatch_effect(state, caller, call).claims == state.claims,
        call is ProofOfExistence ==> dispatch_effect(state, caller, call).balances
            == state.balances,
{
}

/// A call that fails changes nothing at all.
pub proof fn lemma_failed_dispatch_changes_nothing(
    state: RuntimeState,
    caller: Seq<char>,
    call: RuntimeCall,
)
    requires
        dispatch_outcome(state, caller, call).is_err(),
    ensures
        dispatch_effect(state, caller, call) == state,
{
}

/// A block whose number is refused leaves every balance, nonce and claim as it was:
/// raising the block number is all that has happened.
pub proof fn lemma_advance_block_keeps_ledger(state: RuntimeState)
    ensures
        advance_block(state).chain.nonces == state.chain.nonces,
        advance_block(state).balances == state.balances,
        advance_block(state).claims == state.claims,
{
}

/// The runtime: the chain metadata, the balances and the claims.
#[derive(Debug)]
pub struct Runtime {
    pub system: system::Pallet,
    pub balances: balances::Pallet,
    pub proof_of_existence: proof_of_existence::Pallet,
}

impl View for Runtime {
    type V = RuntimeState;

    open spec fn view(&self) -> RuntimeState {
        RuntimeState {
            chain: self.system@,
            balances: self.balances@,
            claims: self.proof_of_existence@,
        }
    }
}

impl Dispatch for Runtime {
    type Caller = AccountId;

    type Call = RuntimeCall;

    /// Hands `call` to the module that it names, and returns that module's result.
    fn dispatch(&mut self, caller: AccountId, call: RuntimeCall) -> (result: DispatchResult)
        ensures
            result == dispatch_outcome(old(self)@, caller@, call),
            final(self)@ == dispatch_effect(old(self)@, caller@, call),
    {
        match call {
            RuntimeCall::Balances(call) => self.balances.dispatch(caller, call),
            RuntimeCall::ProofOfExistence(call) => self.proof_of_existence.dispatch(caller, call),
        }
    }
}

/// Counts the extrinsics that `who` has sent.
fn count_sent_by(extrinsics: &Vec<Extrinsic>, who: &AccountId) -> (count: usize)
    ensures
        count == sent_by(extrinsics@, who@),
{
    let mut count: usize = 0;
    let mut j: usize = 0;
    while j < extrinsics.len()
        invariant
            j <= extrinsics@.len(),
            count <= j,
            count == sent_by(extrinsics@.take(j as int), who@),
        decreases extrinsics@.len() - j,
    {
        proof {
            assert(extrinsics@.take(j + 1).drop_last() =~= extrinsics@.take(j as int));
        }
        if extrinsics[j].caller == *who {
            count += 1;
        }
        j += 1;
    }
    proof {
        assert(extrinsics@.take(j as int) =~= extrinsics@);
    }
    count
}

impl Runtime {
    /// An empty runtime: block number zero, no nonces, no balances, no claims.
    pub fn new() -> (runtime: Self)
        ensures
            runtime@ == (RuntimeState {
                chain: ChainState { block_number: 0, nonces: Map::empty() },
                balances: Map::empty(),
                claims: Map::empty(),
            }),
    {
        Runtime {
            system: system::Pallet::new(),
            balances: balances::Pallet::new(),
            proof_of_existence: proof_of_existence::Pallet::new(),
        }
    }

    /// Whether every nonce can be raised once for each of the extrinsics that its
    /// account has sent: what `apply_extrinsics` and `execute_block` ask for.
    pub fn has_room_for(&self, extrinsics: &Vec<Extrinsic>) -> (room: bool)
        ensures
            room == nonces_have_room(self@.chain.nonces, extrinsics@),
    {
        let ghost nonces = self@.chain.nonces;
        let mut i: usize = 0;
        while i < extrinsics.len()
            invariant
                i <= extrinsics@.len(),
                nonces == self@.chain.nonces,
                forall|k: int|
                    0 <= k < i ==> nonce_of(nonces, (#[trigger] extrinsics@[k]).caller@) + sent_by(
                        extrinsics@,
                        extrinsics@[k].caller@,
                    ) <= u32::MAX,
            decreases extrinsics@.len() - i,
        {
            let caller = &extrinsics[i].caller;
            let count = count_sent_by(extrinsics, caller);
            let nonce = self.system.nonce(caller);
            if count > (u32::MAX - nonce) as usize {
                assert(nonce_of(nonces, caller@) + sent_by(extrinsics@, caller@) > u32::MAX);
                return false;
            }
            i += 1;
        }
        proof {
            assert forall|who: Seq<char>|
                nonce_of(nonces, who) + #[trigger] sent_by(extrinsics@, who) <= u32::MAX by {
                if sent_by(extrinsics@, who) > 0 {
                    lemma_sender_is_a_caller(extrinsics@, who);
                    let k = choose|k: int|
                        0 <= k < extrinsics@.len() && (#[trigger] extrinsics@[k]).caller@ == who;
                    assert(extrinsics@[k].caller@ == who);
                }
            }
        }
        true
    }

    /// Applies the extrinsics in order. Each raises its caller's nonce and is then
    /// dispatched; one that fails is recorded with `block_number` and its position,
    /// and the rest go on.
    pub fn apply_extrinsics(
        &mut self,
        block_number: BlockNumber,
        extrinsics: Vec<Extrinsic>,
    ) -> (failures: Vec<ExtrinsicFailure>)
        requires
            nonces_have_room(old(self)@.chain.nonces, extrinsics@),
        ensures
            final(self)@ == apply_extrinsics(old(self)@, extrinsics@),
            failures@ == failures_of(old(self)@, block_number, extrinsics@),
            final(self)@.chain.block_number == old(self)@.chain.block_number,
            forall|who: Seq<char>|
                nonce_of(final(self)@.chain.nonces, who) == nonce_of(old(self)@.chain.nonces, who)
                    + #[trigger] sent_by(extrinsics@, who),
    {
        let mut failures: Vec<ExtrinsicFailure> = Vec::new();
        let ghost all = extrinsics@;
        let ghost start = self@;
        assert(all.len() == extrinsics.len());
        let mut i: usize = 0;
        for extrinsic in it: extrinsics
            invariant
                it.seq() == all,
                i == it.index(),
                all.len() <= usize::MAX,
                nonces_have_room(start.chain.nonces, all),
                self@ == apply_extrinsics(start, all.take(i as int)),
                failures@ == failures_of(start, block_number, all.take(i as int)),
        {
            let Extrinsic { caller, call } = extrinsic;
            proof {
                let done = all.take(i as int);
                let next = all.take(i + 1);
                assert(next.drop_last() =~= done);
                assert(next.last() == all[i as int]);
                lemma_sent_by_prefix(all, i as int, caller@);
                lemma_sent_by_prefix(all, i + 1, caller@);
                assert forall|other: Seq<char>|
                    nonce_of(start.chain.nonces, other) + #[trigger] sent_by(done, other)
                        <= u32::MAX by {
                    lemma_sent_by_prefix(all, i as int, other);
                }
                lemma_nonces_count_extrinsics(start, done, caller@);
            }
            self.system.inc_nonce(&caller);
            match self.dispatch(caller, call) {
                Ok(_) => {},
                Err(error) => {
                    failures.push(ExtrinsicFailure { block_number, index: i, error });
                },
            }
            i += 1;
        }
        proof {
            assert(all.take(i as int) =~= all);
            lemma_nonces_count_extrinsics(start, all, Seq::empty());
            assert forall|who: Seq<char>|
                nonce_of(self@.chain.nonces, who) == nonce_of(start.chain.nonces, who)
                    + #[trigger] sent_by(all, who) by {
                lemma_nonces_count_extrinsics(start, all, who);
            }
        }
        failures
    }

    /// Executes a block: raises the block number, checks it against the header, and
    /// applies the extrinsics. A failing extrinsic does not fail the block.
    pub fn execute_block(&mut self, block: Block) -> (result: DispatchResult)
        requires
            old(self)@.chain.block_number < u64::MAX,
            block.header.block_number == old(self)@.chain.block_number + 1 ==> nonces_have_room(
                old(self)@.chain.nonces,
                block.extrinsics@,
            ),
        ensures
            final(self)@.chain.block_number == old(self)@.chain.block_number + 1,
            block.header.block_number == old(self)@.chain.block_number + 1 ==> forall|
                who: Seq<char>,
            |
                nonce_of(final(self)@.chain.nonces, who) == nonce_of(old(self)@.chain.nonces, who)
                    + #[trigger] sent_by(block.extrinsics@, who),
            block.header.block_number != old(self)@.chain.block_number + 1 ==> result == Err::<
                (),
                &'static str,
            >(BLOCK_NUMBER_MISMATCH) && final(self)@ == advance_block(old(self)@),
            block.header.block_number == old(self)@.chain.block_number + 1 ==> result == Ok::<
                (),
                &'static str,
            >(()) && final(self)@ == apply_extrinsics(
                advance_block(old(self)@),
                block.extrinsics@,
            ),
    {
        self.system.inc_block_number();
        if block.header.block_number != self.system.block_number() {
            return Err(BLOCK_NUMBER_MISMATCH);
        }
        let _failures = self.apply_extrinsics(block.header.block_number, block.extrinsics);
        Ok(())
    }
}

} // verus!
