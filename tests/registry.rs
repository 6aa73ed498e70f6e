use receivable_lending::registry::{Error, ReceivableStatus, ReceivableTokenContract};
use receivable_lending::Address;

const NOW: u64 = 1_000_000;

fn setup() -> (ReceivableTokenContract, Address, Address, Address) {
    let admin = Address::new(1);
    let verifier = Address::new(2);
    let creditor = Address::new(3);
    let registry = ReceivableTokenContract::initialize(admin, verifier);
    (registry, admin, verifier, creditor)
}

fn mint_one(registry: &mut ReceivableTokenContract, verifier: Address, creditor: &Address) -> u64 {
    let currency = Address::new(50);
    registry
        .mint(
            verifier,
            *creditor,
            [1u8; 32],
            1_000_000,
            currency,
            2_000_000,
            [2u8; 32],
            500,
            "ipfs://test".to_string(),
            NOW,
        )
        .unwrap()
}

#[test]
fn test_init_and_mint() {
    let (mut registry, _, verifier, creditor) = setup();
    assert_eq!(registry.total_minted(), 0);
    let id = mint_one(&mut registry, verifier, &creditor);
    assert_eq!(id, 1);
    assert_eq!(registry.total_minted(), 1);
    assert_eq!(registry.total_active(), 1);
    let recv = registry.get_recv(1).unwrap();
    assert_eq!(recv.face_value, 1_000_000);
    assert_eq!(recv.owner, creditor);
    assert_eq!(recv.status, ReceivableStatus::Active);
}

#[test]
fn test_multiple_mints() {
    let (mut registry, _, verifier, creditor) = setup();
    mint_one(&mut registry, verifier, &creditor);
    mint_one(&mut registry, verifier, &creditor);
    assert_eq!(registry.total_minted(), 2);
    assert_eq!(registry.get_owner(creditor).len(), 2);
}

#[test]
fn test_lock_unlock() {
    let (mut registry, admin, verifier, creditor) = setup();
    let borrow_addr = Address::new(40);
    registry.set_borrow(admin, borrow_addr).unwrap();
    let id = mint_one(&mut registry, verifier, &creditor);
    registry.lock(borrow_addr, id).unwrap();
    assert_eq!(registry.get_recv(id).unwrap().status, ReceivableStatus::Collateralized);
    registry.unlock(borrow_addr, id).unwrap();
    assert_eq!(registry.get_recv(id).unwrap().status, ReceivableStatus::Active);
}

#[test]
fn test_transfer() {
    let (mut registry, _, verifier, creditor) = setup();
    let buyer = Address::new(41);
    let id = mint_one(&mut registry, verifier, &creditor);
    registry.transfer(creditor, id, creditor, buyer).unwrap();
    assert_eq!(registry.get_recv(id).unwrap().owner, buyer);
    assert_eq!(registry.get_owner(creditor).len(), 0);
    assert_eq!(registry.get_owner(buyer).len(), 1);
}

#[test]
#[should_panic(expected = "TransferNotAllowed")]
fn test_transfer_collateralized_fails() {
    let (mut registry, admin, verifier, creditor) = setup();
    let borrow_addr = Address::new(40);
    registry.set_borrow(admin, borrow_addr).unwrap();
    let id = mint_one(&mut registry, verifier, &creditor);
    registry.lock(borrow_addr, id).unwrap();
    registry.transfer(creditor, id, creditor, Address::new(41)).unwrap();
}

#[test]
fn test_settle() {
    let (mut registry, admin, verifier, creditor) = setup();
    let id = mint_one(&mut registry, verifier, &creditor);
    registry.settle(admin, id).unwrap();
    assert_eq!(registry.get_recv(id).unwrap().status, ReceivableStatus::Settled);
    assert_eq!(registry.total_active(), 0);
}

#[test]
fn test_pause_blocks_mint() {
    let (mut registry, admin, verifier, creditor) = setup();
    registry.pause(admin).unwrap();
    let currency = Address::new(50);
    let result = registry.mint(
        verifier,
        creditor,
        [1u8; 32],
        1_000_000,
        currency,
        2_000_000,
        [2u8; 32],
        500,
        "ipfs://test".to_string(),
        NOW,
    );
    assert!(result.is_err());
    registry.unpause(admin).unwrap();
    let id = mint_one(&mut registry, verifier, &creditor);
    assert_eq!(id, 1);
}

#[test]
#[should_panic(expected = "InvalidFaceValue")]
fn test_zero_face_value_fails() {
    let (mut registry, _, verifier, creditor) = setup();
    let currency = Address::new(50);
    registry
        .mint(
            verifier,
            creditor,
            [1u8; 32],
            0,
            currency,
            2_000_000,
            [2u8; 32],
            500,
            "ipfs://test".to_string(),
            NOW,
        )
        .unwrap();
}

#[test]
fn registry_error_variants() {
    let (mut registry, admin, verifier, creditor) = setup();
    let currency = Address::new(50);
    let other = Address::new(60);
    let mint = |r: &mut ReceivableTokenContract, caller: Address, face: i128, maturity: u64| {
        r.mint(caller, creditor, [0u8; 32], face, currency, maturity, [0u8; 32], 0, String::new(), NOW)
    };
    assert_eq!(mint(&mut registry, other, 10, NOW + 1), Err(Error::NotVerifier));
    assert_eq!(mint(&mut registry, verifier, -5, NOW + 1), Err(Error::InvalidFaceValue));
    assert_eq!(mint(&mut registry, verifier, 10, NOW), Err(Error::InvalidMaturityDate));
    let id = mint(&mut registry, verifier, 10, NOW + 1).unwrap();
    assert_eq!(registry.lock(other, id), Err(Error::NotBorrowContract));
    registry.set_borrow(admin, other).unwrap();
    assert_eq!(registry.lock(other, 99), Err(Error::ReceivableNotFound));
    assert_eq!(registry.unlock(other, id), Err(Error::InvalidStatus));
    assert_eq!(registry.transfer(other, id, other, creditor), Err(Error::NotOwner));
    assert_eq!(registry.transfer(other, id, creditor, other), Err(Error::NotAuthorized));
    assert_eq!(registry.settle(other, id), Err(Error::NotAuthorized));
    assert_eq!(registry.get_recv(0).err(), Some(Error::ReceivableNotFound));
    registry.mark_default(admin, id).unwrap();
    assert_eq!(registry.get_recv(id).unwrap().status, ReceivableStatus::Defaulted);
    assert_eq!(registry.settle(admin, id), Err(Error::InvalidStatus));
    assert_eq!(registry.total_active(), 0);
    registry.pause(admin).unwrap();
    assert_eq!(registry.unlock(other, id), Err(Error::ContractPaused));
    assert_eq!(registry.set_borrow(other, other), Err(Error::NotAuthorized));
}

#[test]
fn owner_index_keeps_acquisition_order() {
    let (mut registry, _, verifier, creditor) = setup();
    let buyer = Address::new(41);
    let a = mint_one(&mut registry, verifier, &creditor);
    let b = mint_one(&mut registry, verifier, &creditor);
    let c = mint_one(&mut registry, verifier, &buyer);
    registry.transfer(creditor, a, creditor, buyer).unwrap();
    assert_eq!(registry.get_owner(buyer), vec![c, a]);
    assert_eq!(registry.get_owner(creditor), vec![b]);
    registry.transfer(creditor, b, creditor, creditor).unwrap();
    assert_eq!(registry.get_owner(creditor), vec![b]);
    assert_eq!(registry.get_recv(a).unwrap().original_creditor, creditor);
}

#[test]
fn batch_lock_is_all_or_nothing() {
    let (mut registry, admin, verifier, creditor) = setup();
    let engine = Address::new(40);
    registry.set_borrow(admin, engine).unwrap();
    let a = mint_one(&mut registry, verifier, &creditor);
    let b = mint_one(&mut registry, verifier, &creditor);
    assert_eq!(registry.lock_all(engine, &vec![a, b, a]), Err(Error::InvalidStatus));
    assert_eq!(registry.get_recv(a).unwrap().status, ReceivableStatus::Active);
    assert_eq!(registry.lock_all(engine, &vec![a, 7]), Err(Error::ReceivableNotFound));
    assert_eq!(registry.get_recv(a).unwrap().status, ReceivableStatus::Active);
    registry.lock_all(engine, &vec![a, b]).unwrap();
    assert_eq!(registry.get_recv(b).unwrap().status, ReceivableStatus::Collateralized);
    let buyer = Address::new(41);
    assert_eq!(registry.release_all(engine, &vec![a, b], buyer, creditor), Err(Error::NotOwner));
    registry.release_all(engine, &vec![a, b], creditor, buyer).unwrap();
    assert_eq!(registry.get_owner(buyer), vec![a, b]);
    assert_eq!(registry.get_recv(b).unwrap().status, ReceivableStatus::Active);
    assert_eq!(registry.unlock_all(engine, &vec![a]), Err(Error::InvalidStatus));
    assert_eq!(registry.check_batch(engine, &vec![], ReceivableStatus::Active, false, engine), Ok(()));
}
