//! The borrow engine: loans against locked receivables.
//!
//! `borrow` values the receivables offered (face value less a risk discount),
//! enforces the loan-to-value limit, locks the receivables in the registry
//! and draws the loan from the vault. Interest accrues simply, by elapsed
//! seconds. `repay_loan` pays interest before principal and releases the
//! collateral once nothing is owed; `liquidate` closes an unhealthy or
//! overdue loan, hands the collateral to the liquidator and books the
//! proceeds in the vault. Every operation either succeeds as a whole or
//! fails leaving the engine, the registry and the vault as they were.
use vstd::prelude::*;

use crate::math::{checked_mul_div, mul_div_spec, BPS, SECONDS_PER_YEAR};
use crate::registry::{
    batch_error, lookup, released_all, with_status_all, ReceivableTokenContract, RegistryModel,
};
use crate::registry::Error as RegistryError;
pub use crate::registry::{Receivable, ReceivableStatus};
use crate::vault::{
    after_liq_recv, after_repay, disburse_error, fits_i128, liq_recv_error, repay_error,
    LendingVaultContract, VaultModel, VaultState,
};
use crate::vault::Error as VaultError;
use crate::Address;

verus! {

#[derive(Clone, Copy, Debug, PartialEq, Eq, Structural)]
pub enum LoanStatus {
    Active,
    Repaid,
    Liquidated,
}

#[derive(Clone, Debug)]
pub struct Loan {
    pub id: u64,
    pub borrower: Address,
    pub receivable_ids: Vec<u64>,
    /// Discounted value of the collateral, fixed when the loan was made.
    pub collateral_value: i128,
    pub principal: i128,
    /// Annual rate in basis points, fixed when the loan was made.
    pub interest_rate: i128,
    pub accrued_interest: i128,
    pub borrowed_at: u64,
    pub last_interest_update: u64,
    pub due_date: u64,
    pub status: LoanStatus,
}

#[derive(Clone, Copy, Debug, PartialEq, Eq, Structural)]
pub struct BorrowConfig {
    /// Highest loan-to-value at origination, in basis points.
    pub max_ltv: i128,
    /// Loan-to-value above which a loan may be liquidated, in basis points.
    pub liquidation_threshold: i128,
    /// Surcharge on the debt at liquidation, in basis points.
    pub liquidation_penalty: i128,
    /// Annual rate given to new loans, in basis points.
    pub base_interest_rate: i128,
    /// Longest loan, in seconds.
    pub max_loan_duration: u64,
    /// Basis points of value discounted per point of risk score.
    pub risk_discount_factor: i128,
}

#[derive(Clone, Copy, Debug, PartialEq, Eq, Structural)]
pub enum Error {
    NotAuthorized,
    AlreadyInitialized,
    LoanNotFound,
    InvalidStatus,
    LTVExceeded,
    InsufficientCollateral,
    NotLiquidatable,
    ZeroAmount,
    ContractPaused,
    InvalidDuration,
    RecvNotOwned,
    RecvNotActive,
    Overflow,
    NotBorrower,
    /// The registry refused a step of the operation.
    Registry(RegistryError),
    /// The vault refused a step of the operation.
    Vault(VaultError),
}

/// What an engine holds, as a mathematical value.
pub struct EngineModel {
    /// The identity the engine acts under towards the registry and the vault.
    pub address: Address,
    pub admin: Address,
    pub config: BorrowConfig,
    /// The loan with id `k` stands at index `k - 1`.
    pub loans: Seq<Loan>,
    pub paused: bool,
}

pub struct BorrowContract {
    pub address: Address,
    pub admin: Address,
    pub config: BorrowConfig,
    pub loans: Vec<Loan>,
    pub paused: bool,
}

impl View for BorrowContract {
    type V = EngineModel;

    closed spec fn view(&self) -> EngineModel {
        EngineModel {
            address: self.address,
            admin: self.admin,
            config: self.config,
            loans: self.loans@,
            paused: self.paused,
        }
    }
}

/// The loan with id `id`, if one was made.
pub open spec fn loan_at(e: EngineModel, id: u64) -> Option<Loan> {
    if 1 <= id <= e.loans.len() {
        Some(e.loans[id - 1])
    } else {
        None
    }
}

/// Seconds from `last` to `now`; none where the clock went back.
pub open spec fn elapsed_since(last: u64, now: u64) -> int {
    if now > last {
        now - last
    } else {
        0
    }
}

/// Simple interest `floor(principal * rate * elapsed / (SECONDS_PER_YEAR * BPS))`,
/// computed in `u128`; `None` where an operand is negative or a product
/// leaves `u128`.
pub open spec fn interest_for(principal: i128, rate: i128, elapsed: int) -> Option<i128> {
    if principal < 0 || rate < 0 {
        None
    } else if principal * rate > u128::MAX || principal * rate * elapsed > u128::MAX {
        None
    } else if (principal * rate * elapsed) / (SECONDS_PER_YEAR * BPS) > i128::MAX {
        None
    } else {
        Some(((principal * rate * elapsed) / (SECONDS_PER_YEAR * BPS)) as i128)
    }
}

/// `loan` with the interest up to `now` added.
pub open spec fn accrue_spec(loan: Loan, now: u64) -> Result<Loan, Error> {
    let elapsed = elapsed_since(loan.last_interest_update, now);
    if elapsed == 0 {
        Ok(loan)
    } else {
        match interest_for(loan.principal, loan.interest_rate, elapsed) {
            None => Err(Error::Overflow),
            Some(ni) => if fits_i128(loan.accrued_interest + ni) {
                Ok(
                    Loan {
                        accrued_interest: (loan.accrued_interest + ni) as i128,
                        last_interest_update: now,
                        ..loan
                    },
                )
            } else {
                Err(Error::Overflow)
            },
        }
    }
}

/// Value of a receivable as collateral: its face value less
/// `risk_score * factor / BPS` basis points, the discount capped at the whole.
pub open spec fn discounted_value(face_value: i128, risk_score: u32, factor: i128) -> Option<i128> {
    match mul_div_spec(risk_score as i128, factor, BPS) {
        None => None,
        Some(disc) => mul_div_spec(
            face_value,
            if disc >= BPS {
                0
            } else {
                (BPS - disc) as i128
            },
            BPS,
        ),
    }
}

/// The collateral value of the receivables `ids` offered by `borrower`, or
/// the first failure met checking them in order: one missing, owned by
/// someone else or not Active, or a value that cannot be computed.
pub open spec fn collateral_of(reg: RegistryModel, borrower: Address, ids: Seq<u64>, factor: i128) -> Result<i128, Error>
    decreases ids.len(),
{
    if ids.len() == 0 {
        Ok(0)
    } else {
        match collateral_of(reg, borrower, ids.drop_last(), factor) {
            Err(e) => Err(e),
            Ok(total) => match lookup(reg, ids.last()) {
                None => Err(Error::Registry(RegistryError::ReceivableNotFound)),
                Some(rv) => if rv.owner != borrower {
                    Err(Error::RecvNotOwned)
                } else if rv.status != ReceivableStatus::Active {
                    Err(Error::RecvNotActive)
                } else {
                    match discounted_value(rv.face_value, rv.risk_score, factor) {
                        None => Err(Error::Overflow),
                        Some(d) => if fits_i128(total + d) {
                            Ok((total + d) as i128)
                        } else {
                            Err(Error::Overflow)
                        },
                    }
                },
            },
        }
    }
}

/// The first failure of the checks decides the outcome of the whole list.
pub proof fn lemma_collateral_error_sticks(reg: RegistryModel, borrower: Address, ids: Seq<u64>, factor: i128, j: int)
    requires
        0 <= j <= ids.len(),
        collateral_of(reg, borrower, ids.take(j), factor) is Err,
    ensures
        collateral_of(reg, borrower, ids, factor) == collateral_of(reg, borrower, ids.take(j), factor),
    decreases ids.len(),
{
    if j == ids.len() {
        assert(ids.take(j) =~= ids);
    } else {
        assert(ids.drop_last().take(j) =~= ids.take(j));
        lemma_collateral_error_sticks(reg, borrower, ids.drop_last(), factor, j);
    }
}

pub open spec fn borrow_error(
    e: EngineModel,
    reg: RegistryModel,
    vault: VaultModel,
    borrower: Address,
    ids: Seq<u64>,
    amount: i128,
    duration: u64,
    now: u64,
) -> Option<Error> {
    if e.paused {
        Some(Error::ContractPaused)
    } else if amount <= 0 {
        Some(Error::ZeroAmount)
    } else if duration == 0 || duration > e.config.max_loan_duration {
        Some(Error::InvalidDuration)
    } else {
        match collateral_of(reg, borrower, ids, e.config.risk_discount_factor) {
            Err(err) => Some(err),
            Ok(total) => match mul_div_spec(total, e.config.max_ltv, BPS) {
                None => Some(Error::Overflow),
                Some(max_borrow) => if amount > max_borrow {
                    Some(Error::LTVExceeded)
                } else if now + duration > u64::MAX {
                    Some(Error::Overflow)
                } else if batch_error(reg, e.address, ids, ReceivableStatus::Active, false, e.address) is Some {
                    Some(Error::Registry(batch_error(reg, e.address, ids, ReceivableStatus::Active, false, e.address).unwrap()))
                } else if disburse_error(vault, e.address, amount) is Some {
                    Some(Error::Vault(disburse_error(vault, e.address, amount).unwrap()))
                } else {
                    None
                },
            },
        }
    }
}

/// The loan that a successful `borrow` records.
pub open spec fn new_loan(
    e: EngineModel,
    borrower: Address,
    receivable_ids: Vec<u64>,
    collateral_value: i128,
    amount: i128,
    duration: u64,
    now: u64,
) -> Loan {
    Loan {
        id: (e.loans.len() + 1) as u64,
        borrower,
        receivable_ids,
        collateral_value,
        principal: amount,
        interest_rate: e.config.base_interest_rate,
        accrued_interest: 0,
        borrowed_at: now,
        last_interest_update: now,
        due_date: (now + duration) as u64,
        status: LoanStatus::Active,
    }
}


/// How a payment of `amount` is applied to a debt of `principal` and
/// `accrued` interest: `(payment, interest_pay, principal_pay)`, where the
/// payment is capped at what is owed and goes to interest first.
pub open spec fn payment_split(amount: i128, principal: i128, accrued: i128) -> Option<(i128, i128, i128)> {
    if !fits_i128(principal + accrued) {
        None
    } else {
        let owed = principal + accrued;
        let payment = if amount < owed {
            amount as int
        } else {
            owed
        };
        let interest_pay = if payment < accrued {
            payment
        } else {
            accrued as int
        };
        if !fits_i128(payment - interest_pay) {
            None
        } else {
            Some((payment as i128, interest_pay as i128, (payment - interest_pay) as i128))
        }
    }
}

/// What liquidating a debt of `total_debt` against collateral worth
/// `collateral_value` recovers and leaves unpaid: `(recovered, shortfall)`,
/// with `recovered = min(collateral_value, total_debt + penalty)` and
/// `shortfall = max(0, total_debt - recovered)`.
pub open spec fn liquidation_split(total_debt: i128, collateral_value: i128, penalty_bps: i128) -> Option<(i128, i128)> {
    match mul_div_spec(total_debt, penalty_bps, BPS) {
        None => None,
        Some(penalty) => if !fits_i128(total_debt + penalty) {
            None
        } else {
            let recovered = if collateral_value < total_debt + penalty {
                collateral_value as int
            } else {
                total_debt + penalty
            };
            let shortfall = if total_debt > recovered {
                total_debt - recovered
            } else {
                0
            };
            if fits_i128(shortfall) {
                Some((recovered as i128, shortfall as i128))
            } else {
                None
            }
        },
    }
}

/// The loan with id `loan_id` (which exists) brought up to `now`.
pub open spec fn accrued_loan(e: EngineModel, loan_id: u64, now: u64) -> Loan {
    accrue_spec(loan_at(e, loan_id).unwrap(), now).unwrap()
}

/// Debt still owed on `l` after paying `principal_pay` and `interest_pay`.
pub open spec fn remaining_after(l: Loan, principal_pay: i128, interest_pay: i128) -> int {
    (l.principal - principal_pay) + (l.accrued_interest - interest_pay)
}

pub open spec fn repay_loan_error(
    e: EngineModel,
    reg: RegistryModel,
    vault: VaultModel,
    borrower: Address,
    loan_id: u64,
    amount: i128,
    now: u64,
) -> Option<Error> {
    if e.paused {
        Some(Error::ContractPaused)
    } else if amount <= 0 {
        Some(Error::ZeroAmount)
    } else {
        match loan_at(e, loan_id) {
            None => Some(Error::LoanNotFound),
            Some(loan) => if loan.status != LoanStatus::Active {
                Some(Error::InvalidStatus)
            } else if loan.borrower != borrower {
                Some(Error::NotBorrower)
            } else {
                match accrue_spec(loan, now) {
                    Err(err) => Some(err),
                    Ok(l) => match payment_split(amount, l.principal, l.accrued_interest) {
                        None => Some(Error::Overflow),
                        Some((_, ip, pp)) => if repay_error(vault, e.address, pp, ip) is Some {
                            Some(Error::Vault(repay_error(vault, e.address, pp, ip).unwrap()))
                        } else if !fits_i128(l.principal - pp) || !fits_i128(l.accrued_interest - ip)
                            || !fits_i128(remaining_after(l, pp, ip)) {
                            Some(Error::Overflow)
                        } else if remaining_after(l, pp, ip) == 0 && batch_error(
                            reg,
                            e.address,
                            l.receivable_ids@,
                            ReceivableStatus::Collateralized,
                            false,
                            e.address,
                        ) is Some {
                            Some(Error::Registry(batch_error(
                                reg,
                                e.address,
                                l.receivable_ids@,
                                ReceivableStatus::Collateralized,
                                false,
                                e.address,
                            ).unwrap()))
                        } else {
                            None
                        },
                    },
                }
            },
        }
    }
}

/// `l` after a payment of `principal_pay` and `interest_pay`; Repaid once
/// nothing is owed.
pub open spec fn repaid(l: Loan, principal_pay: i128, interest_pay: i128) -> Loan {
    Loan {
        principal: (l.principal - principal_pay) as i128,
        accrued_interest: (l.accrued_interest - interest_pay) as i128,
        status: if remaining_after(l, principal_pay, interest_pay) == 0 {
            LoanStatus::Repaid
        } else {
            LoanStatus::Active
        },
        ..l
    }
}

/// Loan-to-value of `l` in basis points: its whole debt against the
/// collateral value fixed at origination.
pub open spec fn ltv_of(l: Loan) -> Option<i128> {
    if !fits_i128(l.principal + l.accrued_interest) {
        None
    } else {
        mul_div_spec((l.principal + l.accrued_interest) as i128, BPS, l.collateral_value)
    }
}

pub open spec fn liquidate_error(
    e: EngineModel,
    reg: RegistryModel,
    vault: VaultModel,
    loan_id: u64,
    now: u64,
) -> Option<Error> {
    if e.paused {
        Some(Error::ContractPaused)
    } else {
        match loan_at(e, loan_id) {
            None => Some(Error::LoanNotFound),
            Some(loan) => if loan.status != LoanStatus::Active {
                Some(Error::InvalidStatus)
            } else {
                match accrue_spec(loan, now) {
                    Err(err) => Some(err),
                    Ok(l) => match ltv_of(l) {
                        None => Some(Error::Overflow),
                        Some(ltv) => if !(ltv > e.config.liquidation_threshold) && !(now > l.due_date) {
                            Some(Error::NotLiquidatable)
                        } else {
                            match liquidation_split(
                                (l.principal + l.accrued_interest) as i128,
                                l.collateral_value,
                                e.config.liquidation_penalty,
                            ) {
                                None => Some(Error::Overflow),
                                Some((rec, sf)) => if batch_error(
                                    reg,
                                    e.address,
                                    l.receivable_ids@,
                                    ReceivableStatus::Collateralized,
                                    true,
                                    l.borrower,
                                ) is Some {
                                    Some(Error::Registry(batch_error(
                                        reg,
                                        e.address,
                                        l.receivable_ids@,
                                        ReceivableStatus::Collateralized,
                                        true,
                                        l.borrower,
                                    ).unwrap()))
                                } else if liq_recv_error(vault, e.address, rec, sf) is Some {
                                    Some(Error::Vault(liq_recv_error(vault, e.address, rec, sf).unwrap()))
                                } else {
                                    None
                                },
                            }
                        },
                    },
                }
            },
        }
    }
}

/// The ids of the loans of `borrower`, oldest first.
pub open spec fn loans_of(loans: Seq<Loan>, borrower: Address) -> Seq<u64>
    decreases loans.len(),
{
    if loans.len() == 0 {
        Seq::empty()
    } else if loans.last().borrower == borrower {
        loans_of(loans.drop_last(), borrower).push(loans.last().id)
    } else {
        loans_of(loans.drop_last(), borrower)
    }
}

/// The engine after loan `loan_id` was liquidated at `now`.
pub open spec fn after_liquidation(e: EngineModel, loan_id: u64, now: u64) -> EngineModel {
    EngineModel {
        loans: e.loans.update(loan_id - 1, Loan { status: LoanStatus::Liquidated, ..accrued_loan(e, loan_id, now) }),
        ..e
    }
}

/// A loan is liquidated at most once: once a liquidation of it succeeded,
/// any further attempt fails with `InvalidStatus`, whatever the registry,
/// the vault and the time.
pub proof fn lemma_liquidate_once(
    e: EngineModel,
    reg: RegistryModel,
    vault: VaultModel,
    loan_id: u64,
    now: u64,
    reg_later: RegistryModel,
    vault_later: VaultModel,
    later: u64,
)
    requires
        liquidate_error(e, reg, vault, loan_id, now) is None,
    ensures
        liquidate_error(after_liquidation(e, loan_id, now), reg_later, vault_later, loan_id, later)
            == Some(Error::InvalidStatus),
{
}

impl BorrowContract {
    /// A fresh engine acting as `address`, administered by `admin`.
    pub fn initialize(address: Address, admin: Address, config: BorrowConfig) -> (r: Self)
        ensures
            r@ == (EngineModel { address, admin, config, loans: Seq::empty(), paused: false }),
    {
        BorrowContract { address, admin, config, loans: Vec::new(), paused: false }
    }

    /// Replaces the configuration; loans made before keep their rate.
    pub fn set_config(&mut self, caller: Address, config: BorrowConfig) -> (r: Result<(), Error>)
        ensures
            r is Ok <==> caller == old(self)@.admin,
            r is Err ==> r == Err::<(), Error>(Error::NotAuthorized) && final(self)@ == old(self)@,
            r is Ok ==> final(self)@ == (EngineModel { config, ..old(self)@ }),
    {
        if caller != self.admin {
            return Err(Error::NotAuthorized);
        }
        self.config = config;
        Ok(())
    }

    /// Takes a loan of `borrow_amount` for `duration` seconds against the
    /// receivables `receivable_ids` of `borrower`, and returns its id.
    pub fn borrow(
        &mut self,
        registry: &mut ReceivableTokenContract,
        vault: &mut LendingVaultContract,
        borrower: Address,
        receivable_ids: Vec<u64>,
        borrow_amount: i128,
        duration: u64,
        now: u64,
    ) -> (r: Result<u64, Error>)
        requires
            old(self)@.loans.len() + 2 < u64::MAX,
        ensures
            match r {
                Ok(id) => {
                    let e = old(self)@;
                    let total = collateral_of(old(registry)@, borrower, receivable_ids@, e.config.risk_discount_factor);
                    &&& borrow_error(e, old(registry)@, old(vault)@, borrower, receivable_ids@, borrow_amount, duration, now) is None
                    &&& id == e.loans.len() + 1
                    &&& final(self)@ == (EngineModel {
                        loans: e.loans.push(new_loan(e, borrower, receivable_ids, total.unwrap(), borrow_amount, duration, now)),
                        ..e
                    })
                    &&& final(registry)@ == with_status_all(old(registry)@, receivable_ids@, ReceivableStatus::Collateralized)
                    &&& final(vault)@ == (VaultModel {
                        state: VaultState {
                            total_borrowed: (old(vault)@.state.total_borrowed + borrow_amount) as i128,
                            ..old(vault)@.state
                        },
                        ..old(vault)@
                    })
                },
                Err(err) => {
                    &&& borrow_error(old(self)@, old(registry)@, old(vault)@, borrower, receivable_ids@, borrow_amount, duration, now) == Some(err)
                    &&& final(self)@ == old(self)@
                    &&& final(registry)@ == old(registry)@
                    &&& final(vault)@ == old(vault)@
                },
            },
    {
        if self.paused {
            return Err(Error::ContractPaused);
        }
        if borrow_amount <= 0 {
            return Err(Error::ZeroAmount);
        }
        if duration == 0 || duration > self.config.max_loan_duration {
            return Err(Error::InvalidDuration);
        }
        let total_collateral = self.collateral_value(registry, borrower, &receivable_ids)?;
        let max_borrow = Self::mul_div(total_collateral, self.config.max_ltv, BPS)?;
        if borrow_amount > max_borrow {
            return Err(Error::LTVExceeded);
        }
        let due_date = match now.checked_add(duration) {
            Some(d) => d,
            None => return Err(Error::Overflow),
        };
        let me = self.address;
        if let Err(e) = registry.check_batch(me, &receivable_ids, ReceivableStatus::Active, false, me) {
            return Err(Error::Registry(e));
        }
        if let Err(e) = vault.check_disburse(me, borrow_amount) {
            return Err(Error::Vault(e));
        }
        let locked = registry.lock_all(me, &receivable_ids);
        assert(locked is Ok);
        let disbursed = vault.disburse(me, borrower, borrow_amount);
        assert(disbursed is Ok);
        let loan_id = self.loans.len() as u64 + 1;
        self.loans.push(
            Loan {
                id: loan_id,
                borrower,
                receivable_ids,
                collateral_value: total_collateral,
                principal: borrow_amount,
                interest_rate: self.config.base_interest_rate,
                accrued_interest: 0,
                borrowed_at: now,
                last_interest_update: now,
                due_date,
                status: LoanStatus::Active,
            },
        );
        Ok(loan_id)
    }

    /// Values the receivables offered as collateral (see `collateral_of`).
    fn collateral_value(
        &self,
        registry: &ReceivableTokenContract,
        borrower: Address,
        ids: &Vec<u64>,
    ) -> (r: Result<i128, Error>)
        ensures
            r == collateral_of(registry@, borrower, ids@, self@.config.risk_discount_factor),
    {
        let factor = self.config.risk_discount_factor;
        let mut total: i128 = 0;
        let mut j: usize = 0;
        while j < ids.len()
            invariant
                j <= ids.len(),
                factor == self@.config.risk_discount_factor,
                collateral_of(registry@, borrower, ids@.take(j as int), factor) == Ok::<i128, Error>(total),
            decreases ids.len() - j,
        {
            let ghost reg = registry@;
            proof {
                assert(ids@.take(j + 1).drop_last() =~= ids@.take(j as int));
                assert(ids@.take(j + 1).last() == ids@[j as int]);
            }
            let step = match registry.get_recv(ids[j]) {
                Err(e) => Err(Error::Registry(e)),
                Ok(rv) => if rv.owner != borrower {
                    Err(Error::RecvNotOwned)
                } else if rv.status != ReceivableStatus::Active {
                    Err(Error::RecvNotActive)
                } else {
                    match checked_mul_div(rv.risk_score as i128, factor, BPS) {
                        None => Err(Error::Overflow),
                        Some(disc) => {
                            let eff: i128 = if disc >= BPS {
                                0
                            } else {
                                BPS - disc
                            };
                            match checked_mul_div(rv.face_value, eff, BPS) {
                                None => Err(Error::Overflow),
                                Some(d) => match total.checked_add(d) {
                                    None => Err(Error::Overflow),
                                    Some(t) => Ok(t),
                                },
                            }
                        },
                    }
                },
            };
            match step {
                Ok(t) => {
                    total = t;
                },
                Err(e) => {
                    proof {
                        lemma_collateral_error_sticks(reg, borrower, ids@, factor, j + 1);
                    }
                    return Err(e);
                },
            }
            j = j + 1;
        }
        assert(ids@.take(j as int) =~= ids@);
        Ok(total)
    }

    /// `floor(a * b / c)` in widened arithmetic; `Overflow` where it cannot be
    /// computed, a zero denominator included.
    pub fn mul_div(a: i128, b: i128, c: i128) -> (r: Result<i128, Error>)
        ensures
            match mul_div_spec(a, b, c) {
                Some(v) => r == Ok::<i128, Error>(v),
                None => r == Err::<i128, Error>(Error::Overflow),
            },
            c == 0 ==> r == Err::<i128, Error>(Error::Overflow),
    {
        match checked_mul_div(a, b, c) {
            Some(v) => Ok(v),
            None => Err(Error::Overflow),
        }
    }

    /// Index of the loan with id `loan_id`.
    fn find_loan(&self, loan_id: u64) -> (r: Result<usize, Error>)
        ensures
            match r {
                Ok(i) => loan_at(self@, loan_id) is Some && i == loan_id - 1 && i < self@.loans.len(),
                Err(e) => loan_at(self@, loan_id) is None && e == Error::LoanNotFound,
            },
    {
        if loan_id == 0 || loan_id > self.loans.len() as u64 {
            return Err(Error::LoanNotFound);
        }
        Ok((loan_id - 1) as usize)
    }

    /// Interest accrued on `principal` at `rate` basis points a year over
    /// `elapsed` seconds (see `interest_for`).
    fn simple_interest(principal: i128, rate: i128, elapsed: u64) -> (r: Result<i128, Error>)
        ensures
            match interest_for(principal, rate, elapsed as int) {
                Some(v) => r == Ok::<i128, Error>(v),
                None => r == Err::<i128, Error>(Error::Overflow),
            },
    {
        if principal < 0 || rate < 0 {
            return Err(Error::Overflow);
        }
        let pr = match (principal as u128).checked_mul(rate as u128) {
            Some(v) => v,
            None => return Err(Error::Overflow),
        };
        let num = match pr.checked_mul(elapsed as u128) {
            Some(v) => v,
            None => return Err(Error::Overflow),
        };
        let den: u128 = SECONDS_PER_YEAR as u128 * 10000u128;
        let q = num / den;
        if q > i128::MAX as u128 {
            return Err(Error::Overflow);
        }
        Ok(q as i128)
    }

    /// The interest accrued on `loan` up to `now` and the time of that
    /// update: `(accrued_interest, last_interest_update)` after accrual. A
    /// clock that went back accrues nothing.
    fn accrue(loan: &Loan, now: u64) -> (r: Result<(i128, u64), Error>)
        ensures
            match accrue_spec(*loan, now) {
                Ok(l) => r == Ok::<(i128, u64), Error>((l.accrued_interest, l.last_interest_update)),
                Err(e) => r == Err::<(i128, u64), Error>(e),
            },
    {
        let elapsed = now.saturating_sub(loan.last_interest_update);
        if elapsed == 0 {
            return Ok((loan.accrued_interest, loan.last_interest_update));
        }
        let new_interest = Self::simple_interest(loan.principal, loan.interest_rate, elapsed)?;
        match loan.accrued_interest.checked_add(new_interest) {
            Some(v) => Ok((v, now)),
            None => Err(Error::Overflow),
        }
    }

    /// Applies a payment of `amount` to a debt of `principal` and `accrued`
    /// interest: `(payment, interest_pay, principal_pay)`.
    pub fn allocate_payment(amount: i128, principal: i128, accrued: i128) -> (r: Result<(i128, i128, i128), Error>)
        ensures
            match payment_split(amount, principal, accrued) {
                Some(t) => r == Ok::<(i128, i128, i128), Error>(t),
                None => r == Err::<(i128, i128, i128), Error>(Error::Overflow),
            },
    {
        let total_owed = match principal.checked_add(accrued) {
            Some(v) => v,
            None => return Err(Error::Overflow),
        };
        let payment = if amount < total_owed { amount } else { total_owed };
        let interest_pay = if payment < accrued { payment } else { accrued };
        let principal_pay = match payment.checked_sub(interest_pay) {
            Some(v) => v,
            None => return Err(Error::Overflow),
        };
        Ok((payment, interest_pay, principal_pay))
    }

    /// `(recovered, shortfall)` of liquidating a debt of `total_debt`
    /// against collateral worth `collateral_value` with a penalty of
    /// `liquidation_penalty` basis points.
    pub fn liquidation_proceeds(total_debt: i128, collateral_value: i128, liquidation_penalty: i128) -> (r: Result<(i128, i128), Error>)
        ensures
            match liquidation_split(total_debt, collateral_value, liquidation_penalty) {
                Some(t) => r == Ok::<(i128, i128), Error>(t),
                None => r == Err::<(i128, i128), Error>(Error::Overflow),
            },
    {
        let penalty = Self::mul_div(total_debt, liquidation_penalty, BPS)?;
        let liq_value = match total_debt.checked_add(penalty) {
            Some(v) => v,
            None => return Err(Error::Overflow),
        };
        let recovered = if collateral_value < liq_value { collateral_value } else { liq_value };
        if total_debt > recovered {
            match total_debt.checked_sub(recovered) {
                Some(v) => Ok((recovered, v)),
                None => Err(Error::Overflow),
            }
        } else {
            Ok((recovered, 0))
        }
    }

    /// Pays up to `amount` of `borrower`'s loan `loan_id`, interest first,
    /// and returns what is still owed; once nothing is, the loan is Repaid
    /// and its receivables are unlocked.
    pub fn repay_loan(
        &mut self,
        registry: &mut ReceivableTokenContract,
        vault: &mut LendingVaultContract,
        borrower: Address,
        loan_id: u64,
        amount: i128,
        now: u64,
    ) -> (r: Result<i128, Error>)
        ensures
            match r {
                Ok(remaining) => {
                    let e = old(self)@;
                    let l = accrued_loan(e, loan_id, now);
                    let (_, ip, pp) = payment_split(amount, l.principal, l.accrued_interest).unwrap();
                    &&& repay_loan_error(e, old(registry)@, old(vault)@, borrower, loan_id, amount, now) is None
                    &&& remaining == remaining_after(l, pp, ip)
                    &&& remaining == 0 || remaining < l.principal + l.accrued_interest
                    &&& final(self)@ == (EngineModel { loans: e.loans.update(loan_id - 1, repaid(l, pp, ip)), ..e })
                    &&& final(vault)@ == (VaultModel { state: after_repay(old(vault)@.state, pp, ip), ..old(vault)@ })
                    &&& final(registry)@ == (if remaining == 0 {
                        with_status_all(old(registry)@, l.receivable_ids@, ReceivableStatus::Active)
                    } else {
                        old(registry)@
                    })
                },
                Err(err) => {
                    &&& repay_loan_error(old(self)@, old(registry)@, old(vault)@, borrower, loan_id, amount, now) == Some(err)
                    &&& final(self)@ == old(self)@
                    &&& final(registry)@ == old(registry)@
                    &&& final(vault)@ == old(vault)@
                },
            },
    {
        if self.paused {
            return Err(Error::ContractPaused);
        }
        if amount <= 0 {
            return Err(Error::ZeroAmount);
        }
        let i = self.find_loan(loan_id)?;
        let loan = &self.loans[i];
        if loan.status != LoanStatus::Active {
            return Err(Error::InvalidStatus);
        }
        if loan.borrower != borrower {
            return Err(Error::NotBorrower);
        }
        let (interest, updated_at) = Self::accrue(loan, now)?;
        let (_payment, interest_pay, principal_pay) = Self::allocate_payment(
            amount,
            loan.principal,
            interest,
        )?;
        let me = self.address;
        if let Err(e) = vault.check_repay(me, principal_pay, interest_pay) {
            return Err(Error::Vault(e));
        }
        let principal = match loan.principal.checked_sub(principal_pay) {
            Some(v) => v,
            None => return Err(Error::Overflow),
        };
        let accrued = match interest.checked_sub(interest_pay) {
            Some(v) => v,
            None => return Err(Error::Overflow),
        };
        let remaining = match principal.checked_add(accrued) {
            Some(v) => v,
            None => return Err(Error::Overflow),
        };
        if remaining == 0 {
            if let Err(e) = registry.check_batch(me, &loan.receivable_ids, ReceivableStatus::Collateralized, false, me) {
                return Err(Error::Registry(e));
            }
        }
        let repaid_ok = vault.repay(me, borrower, principal_pay, interest_pay);
        assert(repaid_ok is Ok);
        if remaining == 0 {
            let unlocked = registry.unlock_all(me, &self.loans[i].receivable_ids);
            assert(unlocked is Ok);
        }
        let ghost e0 = self@;
        self.loans[i].principal = principal;
        self.loans[i].accrued_interest = accrued;
        self.loans[i].last_interest_update = updated_at;
        if remaining == 0 {
            self.loans[i].status = LoanStatus::Repaid;
        }
        assert(self@.loans =~= e0.loans.update(
            loan_id - 1,
            repaid(accrued_loan(e0, loan_id, now), principal_pay, interest_pay),
        ));
        Ok(remaining)
    }

    /// Liquidates loan `loan_id` once its loan-to-value (against the
    /// collateral value fixed at origination) exceeds the liquidation
    /// threshold or it is overdue. Anyone may call; the receivables pass
    /// from the borrower to `liquidator`, and the vault books what was
    /// recovered and what was lost.
    pub fn liquidate(
        &mut self,
        registry: &mut ReceivableTokenContract,
        vault: &mut LendingVaultContract,
        liquidator: Address,
        loan_id: u64,
        now: u64,
    ) -> (r: Result<(), Error>)
        ensures
            match r {
                Ok(_) => {
                    let e = old(self)@;
                    let l = accrued_loan(e, loan_id, now);
                    let (rec, sf) = liquidation_split(
                        (l.principal + l.accrued_interest) as i128,
                        l.collateral_value,
                        e.config.liquidation_penalty,
                    ).unwrap();
                    &&& liquidate_error(e, old(registry)@, old(vault)@, loan_id, now) is None
                    &&& final(self)@ == after_liquidation(e, loan_id, now)
                    &&& final(registry)@ == released_all(old(registry)@, l.receivable_ids@, l.borrower, liquidator)
                    &&& final(vault)@ == (VaultModel { state: after_liq_recv(old(vault)@.state, rec, sf), ..old(vault)@ })
                },
                Err(err) => {
                    &&& liquidate_error(old(self)@, old(registry)@, old(vault)@, loan_id, now) == Some(err)
                    &&& final(self)@ == old(self)@
                    &&& final(registry)@ == old(registry)@
                    &&& final(vault)@ == old(vault)@
                },
            },
    {
        if self.paused {
            return Err(Error::ContractPaused);
        }
        let i = self.find_loan(loan_id)?;
        let loan = &self.loans[i];
        if loan.status != LoanStatus::Active {
            return Err(Error::InvalidStatus);
        }
        let (interest, updated_at) = Self::accrue(loan, now)?;
        let total_debt = match loan.principal.checked_add(interest) {
            Some(v) => v,
            None => return Err(Error::Overflow),
        };
        let current_ltv = Self::mul_div(total_debt, BPS, loan.collateral_value)?;
        let is_underwater = current_ltv > self.config.liquidation_threshold;
        let is_overdue = now > loan.due_date;
        if !is_underwater && !is_overdue {
            return Err(Error::NotLiquidatable);
        }
        let (recovered, shortfall) = Self::liquidation_proceeds(
            total_debt,
            loan.collateral_value,
            self.config.liquidation_penalty,
        )?;
        let me = self.address;
        let owner = loan.borrower;
        if let Err(e) = registry.check_batch(me, &loan.receivable_ids, ReceivableStatus::Collateralized, true, owner) {
            return Err(Error::Registry(e));
        }
        if let Err(e) = vault.check_liq_recv(me, recovered, shortfall) {
            return Err(Error::Vault(e));
        }
        let released = registry.release_all(me, &self.loans[i].receivable_ids, owner, liquidator);
        assert(released is Ok);
        let booked = vault.liq_recv(me, recovered, shortfall);
        assert(booked is Ok);
        let ghost e0 = self@;
        self.loans[i].accrued_interest = interest;
        self.loans[i].last_interest_update = updated_at;
        self.loans[i].status = LoanStatus::Liquidated;
        assert(self@.loans =~= e0.loans.update(
            loan_id - 1,
            Loan { status: LoanStatus::Liquidated, ..accrued_loan(e0, loan_id, now) },
        ));
        Ok(())
    }

    /// Brings the interest of Active loan `loan_id` up to `now` and returns
    /// the interest accrued.
    pub fn accrue_interest(&mut self, loan_id: u64, now: u64) -> (r: Result<i128, Error>)
        ensures
            match r {
                Ok(v) => {
                    &&& !old(self)@.paused
                    &&& loan_at(old(self)@, loan_id) is Some
                    &&& loan_at(old(self)@, loan_id).unwrap().status == LoanStatus::Active
                    &&& accrue_spec(loan_at(old(self)@, loan_id).unwrap(), now) is Ok
                    &&& v == accrued_loan(old(self)@, loan_id, now).accrued_interest
                    &&& final(self)@ == (EngineModel {
                        loans: old(self)@.loans.update(loan_id - 1, accrued_loan(old(self)@, loan_id, now)),
                        ..old(self)@
                    })
                },
                Err(e) => {
                    &&& final(self)@ == old(self)@
                    &&& e == (if old(self)@.paused {
                        Error::ContractPaused
                    } else if loan_at(old(self)@, loan_id) is None {
                        Error::LoanNotFound
                    } else if loan_at(old(self)@, loan_id).unwrap().status != LoanStatus::Active {
                        Error::InvalidStatus
                    } else {
                        Error::Overflow
                    })
                    &&& !old(self)@.paused && loan_at(old(self)@, loan_id) is Some
                        && loan_at(old(self)@, loan_id).unwrap().status == LoanStatus::Active
                        ==> accrue_spec(loan_at(old(self)@, loan_id).unwrap(), now) is Err
                },
            },
    {
        if self.paused {
            return Err(Error::ContractPaused);
        }
        let i = self.find_loan(loan_id)?;
        if self.loans[i].status != LoanStatus::Active {
            return Err(Error::InvalidStatus);
        }
        let (interest, updated_at) = Self::accrue(&self.loans[i], now)?;
        let ghost e0 = self@;
        self.loans[i].accrued_interest = interest;
        self.loans[i].last_interest_update = updated_at;
        assert(self@.loans =~= e0.loans.update(loan_id - 1, accrued_loan(e0, loan_id, now)));
        Ok(interest)
    }

    /// Loan-to-value of loan `loan_id` at `now`, in basis points, with the
    /// interest up to `now` projected and nothing changed.
    pub fn get_ltv(&self, loan_id: u64, now: u64) -> (r: Result<i128, Error>)
        ensures
            match loan_at(self@, loan_id) {
                None => r == Err::<i128, Error>(Error::LoanNotFound),
                Some(loan) => match accrue_spec(loan, now) {
                    Err(e) => r == Err::<i128, Error>(e),
                    Ok(l) => match ltv_of(l) {
                        Some(v) => r == Ok::<i128, Error>(v),
                        None => r == Err::<i128, Error>(Error::Overflow),
                    },
                },
            },
    {
        let i = self.find_loan(loan_id)?;
        let loan = &self.loans[i];
        let (interest, _) = Self::accrue(loan, now)?;
        let total = match loan.principal.checked_add(interest) {
            Some(v) => v,
            None => return Err(Error::Overflow),
        };
        Self::mul_div(total, BPS, loan.collateral_value)
    }

    /// Whether loan `loan_id` could be liquidated at `now`: it is Active and
    /// overdue, or its loan-to-value exceeds the liquidation threshold.
    pub fn is_liquidatable(&self, loan_id: u64, now: u64) -> (r: Result<bool, Error>)
        ensures
            match loan_at(self@, loan_id) {
                None => r == Err::<bool, Error>(Error::LoanNotFound),
                Some(loan) => if loan.status != LoanStatus::Active {
                    r == Ok::<bool, Error>(false)
                } else if now > loan.due_date {
                    r == Ok::<bool, Error>(true)
                } else {
                    match accrue_spec(loan, now) {
                        Err(e) => r == Err::<bool, Error>(e),
                        Ok(l) => match ltv_of(l) {
                            Some(v) => r == Ok::<bool, Error>(v > self@.config.liquidation_threshold),
                            None => r == Err::<bool, Error>(Error::Overflow),
                        },
                    }
                },
            },
    {
        let i = self.find_loan(loan_id)?;
        if self.loans[i].status != LoanStatus::Active {
            return Ok(false);
        }
        if now > self.loans[i].due_date {
            return Ok(true);
        }
        let ltv = self.get_ltv(loan_id, now)?;
        Ok(ltv > self.config.liquidation_threshold)
    }

    pub fn get_loan(&self, loan_id: u64) -> (r: Result<&Loan, Error>)
        ensures
            match r {
                Ok(l) => loan_at(self@, loan_id) == Some(*l),
                Err(e) => loan_at(self@, loan_id) is None && e == Error::LoanNotFound,
            },
    {
        let i = self.find_loan(loan_id)?;
        Ok(&self.loans[i])
    }

    /// The ids of `borrower`'s loans, oldest first.
    pub fn get_borrower_loans(&self, borrower: Address) -> (r: Vec<u64>)
        ensures
            r@ == loans_of(self@.loans, borrower),
    {
        let mut r: Vec<u64> = Vec::new();
        let mut j: usize = 0;
        while j < self.loans.len()
            invariant
                j <= self.loans.len(),
                r@ == loans_of(self.loans@.take(j as int), borrower),
            decreases self.loans.len() - j,
        {
            proof {
                assert(self.loans@.take(j + 1).drop_last() =~= self.loans@.take(j as int));
            }
            if self.loans[j].borrower == borrower {
                r.push(self.loans[j].id);
            }
            j = j + 1;
        }
        assert(self.loans@.take(j as int) =~= self.loans@);
        r
    }

    pub fn get_config(&self) -> (r: BorrowConfig)
        ensures
            r == self@.config,
    {
        self.config
    }

    pub fn total_loans(&self) -> (r: u64)
        requires
            self@.loans.len() <= u64::MAX,
        ensures
            r == self@.loans.len(),
    {
        self.loans.len() as u64
    }

    /// Stops borrowing, repayment, liquidation and accrual.
    pub fn pause(&mut self, caller: Address) -> (r: Result<(), Error>)
        ensures
            r is Ok <==> caller == old(self)@.admin,
            r is Err ==> r == Err::<(), Error>(Error::NotAuthorized) && final(self)@ == old(self)@,
            r is Ok ==> final(self)@ == (EngineModel { paused: true, ..old(self)@ }),
    {
        if caller != self.admin {
            return Err(Error::NotAuthorized);
        }
        self.paused = true;
        Ok(())
    }

    pub fn unpause(&mut self, caller: Address) -> (r: Result<(), Error>)
        ensures
            r is Ok <==> caller == old(self)@.admin,
            r is Err ==> r == Err::<(), Error>(Error::NotAuthorized) && final(self)@ == old(self)@,
            r is Ok ==> final(self)@ == (EngineModel { paused: false, ..old(self)@ }),
    {
        if caller != self.admin {
            return Err(Error::NotAuthorized);
        }
        self.paused = false;
        Ok(())
    }
}

} // verus!
