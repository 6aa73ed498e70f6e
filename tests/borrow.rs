use receivable_lending::borrow::{BorrowConfig, BorrowContract, Error, LoanStatus};
use receivable_lending::registry::{Error as RegistryError, ReceivableStatus, ReceivableTokenContract};
use receivable_lending::vault::{Error as VaultError, LendingVaultContract};
use receivable_lending::Address;

const NOW: u64 = 1_000_000;
const YEAR: u64 = 31_557_600;

struct World {
    engine: BorrowContract,
    registry: ReceivableTokenContract,
    vault: LendingVaultContract,
    admin: Address,
    verifier: Address,
    borrower: Address,
    liquidator: Address,
}

fn config() -> BorrowConfig {
    BorrowConfig {
        max_ltv: 7000,
        liquidation_threshold: 8500,
        liquidation_penalty: 500,
        base_interest_rate: 1000,
        max_loan_duration: YEAR,
        risk_discount_factor: 0,
    }
}

fn world(config: BorrowConfig, liquidity: i128) -> World {
    let admin = Address::new(1);
    let verifier = Address::new(2);
    let engine_addr = Address::new(10);
    let lp = Address::new(20);
    let mut registry = ReceivableTokenContract::initialize(admin, verifier);
    registry.set_borrow(admin, engine_addr).unwrap();
    let mut vault = LendingVaultContract::initialize(admin, Address::new(5), 1000, 9000, 1000);
    vault.set_borrow(admin, engine_addr).unwrap();
    vault.deposit(lp, liquidity, NOW).unwrap();
    let engine = BorrowContract::initialize(engine_addr, admin, config);
    World {
        engine,
        registry,
        vault,
        admin,
        verifier,
        borrower: Address::new(30),
        liquidator: Address::new(31),
    }
}

fn mint(w: &mut World, owner: Address, face_value: i128, risk_score: u32) -> u64 {
    w.registry
        .mint(
            w.verifier,
            owner,
            [7u8; 32],
            face_value,
            Address::new(5),
            NOW + 2 * YEAR,
            [8u8; 32],
            risk_score,
            "ipfs://receivable".to_string(),
            NOW,
        )
        .unwrap()
}

fn borrow(w: &mut World, ids: Vec<u64>, amount: i128, duration: u64, now: u64) -> Result<u64, Error> {
    let borrower = w.borrower;
    w.engine.borrow(&mut w.registry, &mut w.vault, borrower, ids, amount, duration, now)
}

#[test]
fn borrow_up_to_max_ltv() {
    let mut w = world(config(), 10_000_000);
    let b = w.borrower;
    let r = mint(&mut w, b, 1_000_000, 0);
    let id = borrow(&mut w, vec![r], 700_000, YEAR, NOW).unwrap();
    assert_eq!(id, 1);
    let loan = w.engine.get_loan(id).unwrap();
    assert_eq!(loan.collateral_value, 1_000_000);
    assert_eq!(loan.principal, 700_000);
    assert_eq!(loan.interest_rate, 1000);
    assert_eq!(loan.due_date, NOW + YEAR);
    assert_eq!(loan.status, LoanStatus::Active);
    assert_eq!(w.registry.get_recv(r).unwrap().status, ReceivableStatus::Collateralized);
    assert_eq!(w.vault.get_state().total_borrowed, 700_000);
    assert_eq!(w.engine.total_loans(), 1);
    assert_eq!(w.engine.get_ltv(id, NOW), Ok(7000));
}

#[test]
fn borrow_above_max_ltv_fails() {
    let mut w = world(config(), 10_000_000);
    let b = w.borrower;
    let r = mint(&mut w, b, 1_000_000, 0);
    assert_eq!(borrow(&mut w, vec![r], 700_001, YEAR, NOW), Err(Error::LTVExceeded));
    assert_eq!(w.registry.get_recv(r).unwrap().status, ReceivableStatus::Active);
    assert_eq!(w.vault.get_state().total_borrowed, 0);
    assert_eq!(w.engine.total_loans(), 0);
}

#[test]
fn risk_score_discounts_collateral() {
    let mut cfg = config();
    cfg.risk_discount_factor = 10;
    let mut w = world(cfg, 10_000_000);
    let b = w.borrower;
    // a risk score of 5000 discounts 5000 * 10 / 10000 = 5 bps
    let r1 = mint(&mut w, b, 1_000_000, 5000);
    let r2 = mint(&mut w, b, 2_000_000, 0);
    let id = borrow(&mut w, vec![r1, r2], 100, YEAR, NOW).unwrap();
    assert_eq!(w.engine.get_loan(id).unwrap().collateral_value, 999_500 + 2_000_000);
    let mut heavy = config();
    heavy.risk_discount_factor = 20_000;
    let mut w2 = world(heavy, 10_000_000);
    let b2 = w2.borrower;
    // a discount of the whole (5000 * 20000 / 10000 bps) leaves the
    // receivable worth nothing
    let r3 = mint(&mut w2, b2, 1_000_000, 5000);
    assert_eq!(borrow(&mut w2, vec![r3], 1, YEAR, NOW), Err(Error::LTVExceeded));
}

#[test]
fn interest_accrues_simply() {
    let mut w = world(config(), 10_000_000);
    let b = w.borrower;
    let r = mint(&mut w, b, 2_000_000, 0);
    let id = borrow(&mut w, vec![r], 1_000_000, YEAR, NOW).unwrap();
    assert_eq!(w.engine.accrue_interest(id, NOW + YEAR), Ok(100_000));
    let loan = w.engine.get_loan(id).unwrap();
    assert_eq!(loan.accrued_interest, 100_000);
    assert_eq!(loan.last_interest_update, NOW + YEAR);
    // a clock that goes back accrues nothing
    assert_eq!(w.engine.accrue_interest(id, NOW), Ok(100_000));
    assert_eq!(w.engine.get_loan(id).unwrap().last_interest_update, NOW + YEAR);
}

#[test]
fn overpayment_is_clamped_and_releases_collateral() {
    let mut w = world(config(), 10_000_000);
    let b = w.borrower;
    let r = mint(&mut w, b, 1_000_000, 0);
    let id = borrow(&mut w, vec![r], 700_000, YEAR, NOW).unwrap();
    let half = NOW + YEAR / 2;
    let remaining = w.engine.repay_loan(&mut w.registry, &mut w.vault, b, id, 10_000_000, half).unwrap();
    assert_eq!(remaining, 0);
    let loan = w.engine.get_loan(id).unwrap();
    assert_eq!(loan.status, LoanStatus::Repaid);
    assert_eq!(loan.principal, 0);
    assert_eq!(loan.accrued_interest, 0);
    assert_eq!(w.registry.get_recv(r).unwrap().status, ReceivableStatus::Active);
    let st = w.vault.get_state();
    assert_eq!(st.total_borrowed, 0);
    assert_eq!(st.total_interest_earned, 35_000);
    assert_eq!(st.protocol_reserves, 3_500);
}

#[test]
fn partial_repayment_pays_interest_first() {
    let mut w = world(config(), 10_000_000);
    let b = w.borrower;
    let r = mint(&mut w, b, 1_000_000, 0);
    let id = borrow(&mut w, vec![r], 700_000, YEAR, NOW).unwrap();
    let half = NOW + YEAR / 2;
    assert_eq!(w.engine.repay_loan(&mut w.registry, &mut w.vault, b, id, 40_000, half), Ok(695_000));
    let loan = w.engine.get_loan(id).unwrap();
    assert_eq!(loan.accrued_interest, 0);
    assert_eq!(loan.principal, 695_000);
    assert_eq!(loan.status, LoanStatus::Active);
    assert_eq!(w.registry.get_recv(r).unwrap().status, ReceivableStatus::Collateralized);
    assert_eq!(w.vault.get_state().total_borrowed, 695_000);
    assert_eq!(BorrowContract::allocate_payment(40_000, 700_000, 35_000), Ok((40_000, 35_000, 5_000)));
    assert_eq!(BorrowContract::allocate_payment(10, 700_000, 35_000), Ok((10, 10, 0)));
}

#[test]
fn liquidation_economics() {
    assert_eq!(BorrowContract::liquidation_proceeds(900_000, 1_000_000, 500), Ok((945_000, 0)));
    assert_eq!(BorrowContract::liquidation_proceeds(1_200_000, 1_000_000, 500), Ok((1_000_000, 200_000)));
    let mut cfg = config();
    cfg.max_ltv = 9000;
    cfg.base_interest_rate = 0;
    let mut w = world(cfg, 10_000_000);
    let b = w.borrower;
    let r = mint(&mut w, b, 1_000_000, 0);
    let id = borrow(&mut w, vec![r], 900_000, 1000, NOW).unwrap();
    assert_eq!(w.engine.is_liquidatable(id, NOW), Ok(true));
    let liq = w.liquidator;
    w.engine.liquidate(&mut w.registry, &mut w.vault, liq, id, NOW + 1001).unwrap();
    assert_eq!(w.engine.get_loan(id).unwrap().status, LoanStatus::Liquidated);
    let recv = w.registry.get_recv(r).unwrap();
    assert_eq!(recv.owner, liq);
    assert_eq!(recv.status, ReceivableStatus::Active);
    assert_eq!(w.registry.get_owner(liq), vec![r]);
    let st = w.vault.get_state();
    assert_eq!(st.total_borrowed, 0);
    assert_eq!(st.total_deposits, 10_000_000 + 945_000);
}

#[test]
fn second_liquidation_fails() {
    let mut w = world(config(), 10_000_000);
    let b = w.borrower;
    let r = mint(&mut w, b, 1_000_000, 0);
    let id = borrow(&mut w, vec![r], 700_000, 1000, NOW).unwrap();
    let liq = w.liquidator;
    assert_eq!(w.engine.liquidate(&mut w.registry, &mut w.vault, liq, id, NOW + 10), Err(Error::NotLiquidatable));
    w.engine.liquidate(&mut w.registry, &mut w.vault, liq, id, NOW + 1001).unwrap();
    assert_eq!(
        w.engine.liquidate(&mut w.registry, &mut w.vault, liq, id, NOW + 2000),
        Err(Error::InvalidStatus)
    );
    assert_eq!(w.engine.is_liquidatable(id, NOW + 2000), Ok(false));
}

#[test]
fn failed_borrow_leaves_everything_unchanged() {
    let mut w = world(config(), 1_000_000);
    let b = w.borrower;
    let r = mint(&mut w, b, 10_000_000, 0);
    // 950_000 of 1_000_000 is above the vault's 90% utilization cap
    assert_eq!(
        borrow(&mut w, vec![r], 950_000, YEAR, NOW),
        Err(Error::Vault(VaultError::MaxUtilizationExceeded))
    );
    assert_eq!(w.registry.get_recv(r).unwrap().status, ReceivableStatus::Active);
    assert_eq!(w.vault.get_state().total_borrowed, 0);
    assert_eq!(
        borrow(&mut w, vec![r, r], 100, YEAR, NOW),
        Err(Error::Registry(RegistryError::InvalidStatus))
    );
    assert_eq!(w.registry.get_recv(r).unwrap().status, ReceivableStatus::Active);
    assert_eq!(w.engine.total_loans(), 0);
}

#[test]
fn engine_error_variants() {
    let mut w = world(config(), 10_000_000);
    let b = w.borrower;
    let other = Address::new(99);
    let r = mint(&mut w, b, 1_000_000, 0);
    let theirs = mint(&mut w, other, 1_000_000, 0);
    assert_eq!(borrow(&mut w, vec![r], 0, YEAR, NOW), Err(Error::ZeroAmount));
    assert_eq!(borrow(&mut w, vec![r], 10, 0, NOW), Err(Error::InvalidDuration));
    assert_eq!(borrow(&mut w, vec![r], 10, YEAR + 1, NOW), Err(Error::InvalidDuration));
    assert_eq!(borrow(&mut w, vec![theirs], 10, YEAR, NOW), Err(Error::RecvNotOwned));
    assert_eq!(
        borrow(&mut w, vec![r, 42], 10, YEAR, NOW),
        Err(Error::Registry(RegistryError::ReceivableNotFound))
    );
    assert_eq!(borrow(&mut w, vec![], 10, YEAR, NOW), Err(Error::LTVExceeded));
    let id = borrow(&mut w, vec![r], 10, YEAR, NOW).unwrap();
    assert_eq!(borrow(&mut w, vec![r], 10, YEAR, NOW), Err(Error::RecvNotActive));
    assert_eq!(w.engine.repay_loan(&mut w.registry, &mut w.vault, b, id, 0, NOW), Err(Error::ZeroAmount));
    assert_eq!(w.engine.repay_loan(&mut w.registry, &mut w.vault, b, 9, 5, NOW), Err(Error::LoanNotFound));
    assert_eq!(w.engine.repay_loan(&mut w.registry, &mut w.vault, other, id, 5, NOW), Err(Error::NotBorrower));
    assert_eq!(w.engine.get_ltv(9, NOW), Err(Error::LoanNotFound));
    assert_eq!(w.engine.set_config(other, config()), Err(Error::NotAuthorized));
    let admin = w.admin;
    w.engine.pause(admin).unwrap();
    assert_eq!(borrow(&mut w, vec![r], 10, YEAR, NOW), Err(Error::ContractPaused));
    assert_eq!(w.engine.accrue_interest(id, NOW), Err(Error::ContractPaused));
    w.engine.unpause(admin).unwrap();
    w.vault.pause(admin).unwrap();
    assert_eq!(
        w.engine.repay_loan(&mut w.registry, &mut w.vault, b, id, 5, NOW),
        Err(Error::Vault(VaultError::ContractPaused))
    );
    assert_eq!(BorrowContract::mul_div(5, 5, 0), Err(Error::Overflow));
    assert_eq!(BorrowContract::mul_div(1_000_000, 7000, 10_000), Ok(700_000));
}

#[test]
fn config_changes_do_not_touch_existing_rates() {
    let mut w = world(config(), 10_000_000);
    let b = w.borrower;
    let r1 = mint(&mut w, b, 1_000_000, 0);
    let r2 = mint(&mut w, b, 1_000_000, 0);
    let first = borrow(&mut w, vec![r1], 100_000, YEAR, NOW).unwrap();
    let mut cfg = config();
    cfg.base_interest_rate = 2500;
    let admin = w.admin;
    w.engine.set_config(admin, cfg).unwrap();
    assert_eq!(w.engine.get_config().base_interest_rate, 2500);
    let second = borrow(&mut w, vec![r2], 100_000, YEAR, NOW).unwrap();
    assert_eq!(w.engine.get_loan(first).unwrap().interest_rate, 1000);
    assert_eq!(w.engine.get_loan(second).unwrap().interest_rate, 2500);
    assert_eq!(w.engine.get_borrower_loans(b), vec![first, second]);
    assert_eq!(w.engine.get_borrower_loans(w.liquidator), Vec::<u64>::new());
}

#[test]
fn underwater_loan_becomes_liquidatable() {
    let mut cfg = config();
    cfg.base_interest_rate = 5000;
    let mut w = world(cfg, 10_000_000);
    let b = w.borrower;
    let r = mint(&mut w, b, 1_000_000, 0);
    let id = borrow(&mut w, vec![r], 700_000, YEAR, NOW).unwrap();
    assert_eq!(w.engine.is_liquidatable(id, NOW), Ok(false));
    // half a year at 50%: 175_000 interest, debt 875_000 against 1_000_000
    assert_eq!(w.engine.get_ltv(id, NOW + YEAR / 2), Ok(8750));
    assert_eq!(w.engine.is_liquidatable(id, NOW + YEAR / 2), Ok(true));
    assert_eq!(w.engine.get_loan(id).unwrap().accrued_interest, 0);
}
