use chain_ledger::poe::{Error, Event, Pallet};

const ALICE: u64 = 1;
const BOB: u64 = 2;

#[test]
fn an_unclaimed_key_can_be_claimed() {
    let mut pallet = Pallet::new();
    pallet.set_block_number(4);
    let r = pallet.create_claim(ALICE, b"fact".to_vec());
    assert_eq!(r, Ok(()));
    assert_eq!(pallet.my_proofs(&b"fact".to_vec()), Some((ALICE, 4)));
    assert_eq!(pallet.events().as_slice(), &[Event::ClaimCreated(ALICE, b"fact".to_vec())]);
}

#[test]
fn claiming_a_claimed_key_is_a_conflict() {
    let mut pallet = Pallet::new();
    pallet.create_claim(ALICE, b"fact".to_vec()).unwrap();
    let r = pallet.create_claim(BOB, b"fact".to_vec());
    assert_eq!(r, Err(Error::ProofAlreadyExist));
    assert_eq!(pallet.my_proofs(&b"fact".to_vec()), Some((ALICE, 0)));
}

#[test]
fn revoking_an_unknown_key_fails() {
    let mut pallet = Pallet::new();
    let r = pallet.revoke_claim(ALICE, b"fact".to_vec());
    assert_eq!(r, Err(Error::ClaimNotExist));
}

#[test]
fn transferring_an_unknown_key_fails() {
    let mut pallet = Pallet::new();
    let r = pallet.transfer_claim(ALICE, BOB, b"fact".to_vec());
    assert_eq!(r, Err(Error::ClaimNotExist));
}

#[test]
fn only_the_owner_can_revoke_or_transfer() {
    let mut pallet = Pallet::new();
    pallet.set_block_number(3);
    pallet.create_claim(ALICE, b"fact".to_vec()).unwrap();
    let r = pallet.revoke_claim(BOB, b"fact".to_vec());
    assert_eq!(r, Err(Error::NotClaimOwner));
    let r = pallet.transfer_claim(BOB, BOB, b"fact".to_vec());
    assert_eq!(r, Err(Error::NotClaimOwner));
    assert_eq!(pallet.my_proofs(&b"fact".to_vec()), Some((ALICE, 3)));
    assert_eq!(pallet.events().len(), 1);
}

#[test]
fn a_revoked_key_is_reusable() {
    let mut pallet = Pallet::new();
    pallet.create_claim(ALICE, b"fact".to_vec()).unwrap();
    pallet.revoke_claim(ALICE, b"fact".to_vec()).unwrap();
    assert_eq!(pallet.my_proofs(&b"fact".to_vec()), None);
    let r = pallet.create_claim(BOB, b"fact".to_vec());
    assert_eq!(r, Ok(()));
    assert_eq!(pallet.my_proofs(&b"fact".to_vec()), Some((BOB, 0)));
}

#[test]
fn a_transfer_refreshes_owner_and_height() {
    let mut pallet = Pallet::new();
    pallet.set_block_number(7);
    pallet.create_claim(ALICE, b"fact".to_vec()).unwrap();
    pallet.set_block_number(9);
    let r = pallet.transfer_claim(ALICE, BOB, b"fact".to_vec());
    assert_eq!(r, Ok(()));
    assert_eq!(pallet.my_proofs(&b"fact".to_vec()), Some((BOB, 9)));
    assert_eq!(
        pallet.events().as_slice(),
        &[
            Event::ClaimCreated(ALICE, b"fact".to_vec()),
            Event::ClaimCreated(BOB, b"fact".to_vec()),
        ]
    );
}

#[test]
fn claim_scenario_over_two_owners() {
    let mut pallet = Pallet::new();
    let key = b"0xABCD".to_vec();
    assert_eq!(pallet.create_claim(ALICE, key.clone()), Ok(()));
    assert_eq!(pallet.create_claim(BOB, key.clone()), Err(Error::ProofAlreadyExist));
    assert_eq!(pallet.transfer_claim(ALICE, BOB, key.clone()), Ok(()));
    assert_eq!(pallet.revoke_claim(ALICE, key.clone()), Err(Error::NotClaimOwner));
    assert_eq!(pallet.revoke_claim(BOB, key.clone()), Ok(()));
    assert_eq!(pallet.my_proofs(&key), None);
    assert_eq!(
        pallet.events().as_slice(),
        &[
            Event::ClaimCreated(ALICE, key.clone()),
            Event::ClaimCreated(BOB, key.clone()),
            Event::ClaimRevoked(BOB, key),
        ]
    );
}

#[test]
fn distinct_keys_are_independent() {
    let mut pallet = Pallet::new();
    pallet.create_claim(ALICE, b"one".to_vec()).unwrap();
    pallet.create_claim(BOB, b"two".to_vec()).unwrap();
    assert_eq!(pallet.my_proofs(&b"one".to_vec()), Some((ALICE, 0)));
    assert_eq!(pallet.my_proofs(&b"two".to_vec()), Some((BOB, 0)));
    pallet.revoke_claim(ALICE, b"one".to_vec()).unwrap();
    assert_eq!(pallet.my_proofs(&b"one".to_vec()), None);
    assert_eq!(pallet.my_proofs(&b"two".to_vec()), Some((BOB, 0)));
}
