use ledger_runtime::proof_of_existence::{Call, Pallet};
use ledger_runtime::support::{Dispatch, ALREADY_CLAIMED, NOT_OWNER, NO_SUCH_CLAIM};

#[test]
fn basic_proof_of_existence() {
    let alice = "alice".to_string();
    let bob = "bob".to_string();
    let mut poe = Pallet::new();
    assert!(poe.get_claim(&"Hello".to_string()).is_none());

    let _ = poe.create_claim(alice, "Hello".to_string());

    assert!(poe.create_claim(bob, "Hello".to_string()).is_err())
}

#[test]
fn revoke() {
    let alice = "alice".to_string();
    let bob = "bob".to_string();
    let mut poe = Pallet::new();
    let _ = poe.create_claim(alice.clone(), "Hello".to_string());

    assert!(poe.revoke_claim(bob.clone(), "Hello".to_string()).is_err());
    assert!(poe.revoke_claim(alice, "Hello".to_string()).is_ok());
    assert!(poe.get_claim(&"Hello".to_string()).is_none());

    assert!(poe.revoke_claim(bob, "No Claim Exist".to_string()).is_err());
}

#[test]
fn cant_claim_existing_claim() {
    let alice = "alice".to_string();
    let mut poe = Pallet::new();
    assert!(poe.get_claim(&"Hello".to_string()).is_none());

    let _ = poe.create_claim(alice.clone(), "Hello".to_string());

    assert_eq!(poe.get_claim(&"Hello".to_string()), Some(&alice));
}

#[test]
fn second_claim_leaves_the_first_owner() {
    let alice = "alice".to_string();
    let bob = "bob".to_string();
    let mut poe = Pallet::new();
    assert_eq!(poe.create_claim(alice.clone(), "doc".to_string()), Ok(()));
    assert_eq!(poe.create_claim(bob.clone(), "doc".to_string()), Err(ALREADY_CLAIMED));
    assert_eq!(
        poe.create_claim(alice.clone(), "doc".to_string()),
        Err("this content is already claimed")
    );
    assert_eq!(poe.get_claim(&"doc".to_string()), Some(&alice));
}

#[test]
fn revoke_by_another_account_leaves_the_owner() {
    let alice = "alice".to_string();
    let bob = "bob".to_string();
    let mut poe = Pallet::new();
    assert_eq!(poe.create_claim(alice.clone(), "doc".to_string()), Ok(()));
    assert_eq!(poe.revoke_claim(bob.clone(), "doc".to_string()), Err(NOT_OWNER));
    assert_eq!(
        poe.revoke_claim(bob.clone(), "doc".to_string()),
        Err("this claim is owned by someone else")
    );
    assert_eq!(poe.get_claim(&"doc".to_string()), Some(&alice));
}

#[test]
fn revoke_of_unclaimed_content() {
    let alice = "alice".to_string();
    let mut poe = Pallet::new();
    assert_eq!(poe.revoke_claim(alice.clone(), "doc".to_string()), Err(NO_SUCH_CLAIM));
    assert_eq!(poe.revoke_claim(alice.clone(), "doc".to_string()), Err("no claim found"));
    assert_eq!(poe.create_claim(alice.clone(), "doc".to_string()), Ok(()));
    assert_eq!(poe.revoke_claim(alice.clone(), "doc".to_string()), Ok(()));
    assert_eq!(poe.revoke_claim(alice.clone(), "doc".to_string()), Err(NO_SUCH_CLAIM));
    assert_eq!(poe.get_claim(&"doc".to_string()), None);
}

#[test]
fn revoked_content_can_be_claimed_again() {
    let alice = "alice".to_string();
    let bob = "bob".to_string();
    let mut poe = Pallet::new();
    assert_eq!(poe.create_claim(alice.clone(), "doc".to_string()), Ok(()));
    assert_eq!(poe.create_claim(alice.clone(), "other".to_string()), Ok(()));
    assert_eq!(poe.revoke_claim(alice.clone(), "doc".to_string()), Ok(()));
    assert_eq!(poe.create_claim(bob.clone(), "doc".to_string()), Ok(()));
    assert_eq!(poe.get_claim(&"doc".to_string()), Some(&bob));
    assert_eq!(poe.get_claim(&"other".to_string()), Some(&alice));
}

#[test]
fn dispatch_claims() {
    let alice = "alice".to_string();
    let bob = "bob".to_string();
    let mut poe = Pallet::new();
    let created = poe.dispatch(alice.clone(), Call::CreateClaim { claim: "doc".to_string() });
    assert_eq!(created, Ok(()));
    let taken = poe.dispatch(bob.clone(), Call::CreateClaim { claim: "doc".to_string() });
    assert_eq!(taken, Err(ALREADY_CLAIMED));
    let refused = poe.dispatch(bob.clone(), Call::RevokeClaim { claim: "doc".to_string() });
    assert_eq!(refused, Err(NOT_OWNER));
    assert_eq!(poe.get_claim(&"doc".to_string()), Some(&alice));
    let revoked = poe.dispatch(alice.clone(), Call::RevokeClaim { claim: "doc".to_string() });
    assert_eq!(revoked, Ok(()));
    assert_eq!(poe.get_claim(&"doc".to_string()), None);
}
