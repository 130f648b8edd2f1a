//! Balances: what each account holds, and transfers between accounts.

use crate::arith::{checked_add_balance, checked_sub_balance, zero_balance};
use crate::store::KeyedStore;
use crate::support::{Dispatch, DispatchResult, INSUFFICIENT_FUNDS, OVERFLOW};
use crate::types::{AccountId, Balance};
use vstd::prelude::*;

verus! {

/// What `who` holds: the stored balance, or zero where none is stored.
pub open spec fn balance_of(balances: Map<Seq<char>, u128>, who: Seq<char>) -> u128 {
    if balances.contains_key(who) {
        balances[who]
    } else {
        0
    }
}

/// How a transfer of `amount` from `caller` to `to` ends: the source must hold the
/// amount, and the destination must stay within `u128`.
pub open spec fn transfer_outcome(
    balances: Map<Seq<char>, u128>,
    caller: Seq<char>,
    to: Seq<char>,
    amount: u128,
) -> DispatchResult {
    if balance_of(balances, caller) < amount {
        Err(INSUFFICIENT_FUNDS)
    } else if balance_of(balances, to) + amount > u128::MAX {
        Err(OVERFLOW)
    } else {
        Ok(())
    }
}

/// The balances once `amount` has left the account of `caller`.
pub open spec fn lower_balance(
    balances: Map<Seq<char>, u128>,
    caller: Seq<char>,
    amount: u128,
) -> Map<Seq<char>, u128> {
    balances.insert(caller, (balance_of(balances, caller) - amount) as u128)
}

/// The balances once `amount` has reached the account of `to`.
pub open spec fn raise_balance(
    balances: Map<Seq<char>, u128>,
    to: Seq<char>,
    amount: u128,
) -> Map<Seq<char>, u128> {
    balances.insert(to, (balance_of(balances, to) + amount) as u128)
}

/// The balances after a transfer: unchanged where it fails; else the amount has left
/// the source and reached the destination, so that an account that sends to itself
/// holds what it held before.
pub open spec fn transfer_effect(
    balances: Map<Seq<char>, u128>,
    caller: Seq<char>,
    to: Seq<char>,
    amount: u128,
) -> Map<Seq<char>, u128> {
    if transfer_outcome(balances, caller, to, amount).is_ok() {
        raise_balance(lower_balance(balances, caller, amount), to, amount)
    } else {
        balances
    }
}

/// An account that no write names holds nothing: in a ledger without entries every
/// balance is zero, and a write under one account leaves every other balance as it was.
pub proof fn lemma_unwritten_balance_is_zero(
    balances: Map<Seq<char>, u128>,
    written: Seq<char>,
    amount: u128,
    who: Seq<char>,
)
    ensures
        balance_of(Map::empty(), who) == 0,
        who != written ==> balance_of(balances.insert(written, amount), who) == balance_of(
            balances,
            who,
        ),
{
}

/// A transfer, whether it succeeds or fails, leaves the balance of every account
/// but its source and its destination as it was.
pub proof fn lemma_transfer_touches_two_accounts(
    balances: Map<Seq<char>, u128>,
    caller: Seq<char>,
    to: Seq<char>,
    amount: u128,
    who: Seq<char>,
)
    requires
        who != caller,
        who != to,
    ensures
        balance_of(transfer_effect(balances, caller, to, amount), who) == balance_of(balances, who),
{
}

/// A transfer of more than the source holds fails for want of funds and changes nothing.
pub proof fn lemma_transfer_needs_funds(
    balances: Map<Seq<char>, u128>,
    caller: Seq<char>,
    to: Seq<char>,
    amount: u128,
)
    requires
        balance_of(balances, caller) < amount,
    ensures
        transfer_outcome(balances, caller, to, amount) == Err::<(), &'static str>(
            INSUFFICIENT_FUNDS,
        ),
        transfer_effect(balances, caller, to, amount) == balances,
{
}

/// A transfer that succeeds conserves what its two accounts hold together: the source
/// loses exactly what the destination gains, and an account that sends to itself
/// holds what it held before.
pub proof fn lemma_transfer_conserves(
    balances: Map<Seq<char>, u128>,
    caller: Seq<char>,
    to: Seq<char>,
    amount: u128,
)
    requires
        transfer_outcome(balances, caller, to, amount).is_ok(),
    ensures
        balance_of(transfer_effect(balances, caller, to, amount), caller) + balance_of(
            transfer_effect(balances, caller, to, amount),
            to,
        ) == balance_of(balances, caller) + balance_of(balances, to),
        caller != to ==> balance_of(transfer_effect(balances, caller, to, amount), caller)
            == balance_of(balances, caller) - amount,
        caller != to ==> balance_of(transfer_effect(balances, caller, to, amount), to)
            == balance_of(balances, to) + amount,
        caller == to ==> balance_of(transfer_effect(balances, caller, to, amount), caller)
            == balance_of(balances, caller),
{
}

/// A transfer that the source can pay, but that would raise the destination above the
/// largest balance, fails with the overflow error and changes nothing.
pub proof fn lemma_transfer_overflow(
    balances: Map<Seq<char>, u128>,
    caller: Seq<char>,
    to: Seq<char>,
    amount: u128,
)
    requires
        balance_of(balances, caller) >= amount,
        balance_of(balances, to) + amount > u128::MAX,
    ensures
        transfer_outcome(balances, caller, to, amount) == Err::<(), &'static str>(OVERFLOW),
        transfer_effect(balances, caller, to, amount) == balances,
{
}

/// A transfer that fails, for whichever reason, changes nothing.
pub proof fn lemma_failed_transfer_changes_nothing(
    balances: Map<Seq<char>, u128>,
    caller: Seq<char>,
    to: Seq<char>,
    amount: u128,
)
    requires
        transfer_outcome(balances, caller, to, amount).is_err(),
    ensures
        transfer_effect(balances, caller, to, amount) == balances,
{
}

/// What all accounts hold together, in a ledger with finitely many entries.
pub open spec fn total_held(balances: Map<Seq<char>, u128>) -> nat
    decreases balances.dom().len(),
    when balances.dom().finite()
{
    if balances.dom().len() == 0 {
        0
    } else {
        let who = balances.dom().choose();
        balances[who] as nat + total_held(balances.remove(who))
    }
}

/// The total is what any one account holds and what the others hold together.
pub proof fn lemma_total_apart(balances: Map<Seq<char>, u128>, who: Seq<char>)
    requires
        balances.dom().finite(),
        balances.contains_key(who),
    ensures
        total_held(balances) == balances[who] + total_held(balances.remove(who)),
    decreases balances.dom().len(),
{
    let first = balances.dom().choose();
    if first != who {
        lemma_total_apart(balances.remove(first), who);
        lemma_total_apart(balances.remove(who), first);
        assert(balances.remove(first).remove(who) =~= balances.remove(who).remove(first));
    }
}

/// A write under one account changes the total by what that account gains or loses.
pub proof fn lemma_total_after_write(
    balances: Map<Seq<char>, u128>,
    who: Seq<char>,
    amount: u128,
)
    requires
        balances.dom().finite(),
    ensures
        balances.insert(who, amount).dom().finite(),
        total_held(balances.insert(who, amount)) == total_held(balances) - balance_of(
            balances,
            who,
        ) + amount,
{
    let written = balances.insert(who, amount);
    lemma_total_apart(written, who);
    assert(written.remove(who) =~= balances.remove(who));
    if balances.contains_key(who) {
        lemma_total_apart(balances, who);
    } else {
        assert(balances.remove(who) =~= balances);
    }
}

/// A transfer, whether it succeeds or fails, and whether or not its two accounts
/// differ, conserves what all accounts hold together.
pub proof fn lemma_transfer_conserves_total(
    balances: Map<Seq<char>, u128>,
    caller: Seq<char>,
    to: Seq<char>,
    amount: u128,
)
    requires
        balances.dom().finite(),
    ensures
        transfer_effect(balances, caller, to, amount).dom().finite(),
        total_held(transfer_effect(balances, caller, to, amount)) == total_held(balances),
{
    if transfer_outcome(balances, caller, to, amount).is_ok() {
        let lowered = lower_balance(balances, caller, amount);
        lemma_total_after_write(
            balances,
            caller,
            (balance_of(balances, caller) - amount) as u128,
        );
        lemma_total_after_write(lowered, to, (balance_of(lowered, to) + amount) as u128);
    }
}

/// What can be asked of the balances module.
pub enum Call {
    /// Move `amount` from the caller to `to`.
    Transfer { to: AccountId, amount: Balance },
}

/// How `call`, sent by `caller`, ends.
pub open spec fn call_outcome(
    balances: Map<Seq<char>, u128>,
    caller: Seq<char>,
    call: Call,
) -> DispatchResult {
    match call {
        Call::Transfer { to, amount } => transfer_outcome(balances, caller, to@, amount),
    }
}

/// The balances after `call`, sent by `caller`.
pub open spec fn call_effect(
    balances: Map<Seq<char>, u128>,
    caller: Seq<char>,
    call: Call,
) -> Map<Seq<char>, u128> {
    match call {
        Call::Transfer { to, amount } => transfer_effect(balances, caller, to@, amount),
    }
}

/// The balances module.
#[derive(Debug)]
pub struct Pallet {
    balances: KeyedStore<Balance>,
}

impl View for Pallet {
    type V = Map<Seq<char>, u128>;

    closed spec fn view(&self) -> Map<Seq<char>, u128> {
        self.balances@
    }
}

impl Pallet {
    /// A ledger has finitely many entries, so that what all accounts hold together
    /// is a number.
    pub proof fn lemma_ledger_finite(&self)
        ensures
            self@.dom().finite(),
    {
        self.balances.lemma_view_finite();
    }

    /// A ledger in which no account holds anything.
    pub fn new() -> (pallet: Self)
        ensures
            pallet@ == Map::<Seq<char>, u128>::empty(),
    {
        Pallet { balances: KeyedStore::new() }
    }

    /// Sets what `who` holds to `amount`, whatever it held before.
    pub fn set_balance(&mut self, who: &AccountId, amount: Balance)
        ensures
            final(self)@ == old(self)@.insert(who@, amount),
    {
        self.balances.insert(who.clone(), amount);
    }

    /// What `who` holds; zero for an account that was never written.
    pub fn balance(&self, who: &AccountId) -> (balance: Balance)
        ensures
            balance == balance_of(self@, who@),
    {
        match self.balances.get(who) {
            Some(stored) => *stored,
            None => zero_balance(),
        }
    }

    /// Moves `amount` from `caller` to `to`, or fails and changes nothing. Both tests
    /// go by the balances before the transfer; the destination is raised from what it
    /// holds once the source has been lowered.
    pub fn transfer(&mut self, caller: AccountId, to: AccountId, amount: Balance) -> (result:
        DispatchResult)
        ensures
            result == transfer_outcome(old(self)@, caller@, to@, amount),
            final(self)@ == transfer_effect(old(self)@, caller@, to@, amount),
    {
        let caller_balance = self.balance(&caller);
        let to_balance = self.balance(&to);

        let new_caller_balance = match checked_sub_balance(caller_balance, amount) {
            Some(difference) => difference,
            None => {
                return Err(INSUFFICIENT_FUNDS);
            },
        };
        if checked_add_balance(to_balance, amount).is_none() {
            return Err(OVERFLOW);
        }
        self.balances.insert(caller, new_caller_balance);
        let lowered_to_balance = self.balance(&to);
        self.balances.insert(to, lowered_to_balance + amount);

        Ok(())
    }
}

impl Dispatch for Pallet {
    type Caller = AccountId;

    type Call = Call;

    /// Carries out `call` for `caller`: a transfer from the caller's account.
    fn dispatch(&mut self, caller: AccountId, call: Call) -> (result: DispatchResult)
        ensures
            result == call_outcome(old(self)@, caller@, call),
            final(self)@ == call_effect(old(self)@, caller@, call),
    {
        match call {
            Call::Transfer { to, amount } => self.transfer(caller, to, amount),
        }
    }
}

} // verus!
