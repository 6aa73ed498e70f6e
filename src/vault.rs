//! Pooled liquidity with share accounting.
//!
//! Liquidity providers deposit the base asset and receive shares, a
//! proportional claim on the vault's assets. The borrow engine, and only it,
//! draws loans out of the pool and returns repayments and liquidation
//! proceeds. The movement of the asset itself belongs to the host: each
//! operation says how much has to move, and the host aborts the whole
//! operation where that transfer fails.
use std::collections::HashMap;
use vstd::prelude::*;

use crate::math::{
    checked_mul_div, mul_div_spec, sat_add, sat_add_spec, sat_sub, sat_sub_spec, BPS,
};
use crate::Address;

verus! {

broadcast use vstd::std_specs::hash::group_hash_axioms;

#[derive(Clone, Copy, Debug, PartialEq, Eq, Structural)]
pub struct VaultState {
    pub total_deposits: i128,
    pub total_shares: i128,
    pub total_borrowed: i128,
    pub total_interest_earned: i128,
    /// Part of each interest payment kept by the protocol, in basis points.
    pub reserve_factor: i128,
    pub protocol_reserves: i128,
}

#[derive(Clone, Copy, Debug, PartialEq, Eq, Structural)]
pub struct LPPosition {
    pub shares: i128,
    pub deposit_timestamp: u64,
}

#[derive(Clone, Copy, Debug, PartialEq, Eq, Structural)]
pub enum Error {
    NotAuthorized,
    AlreadyInitialized,
    InsufficientDeposit,
    InsufficientShares,
    InsufficientLiquidity,
    MaxUtilizationExceeded,
    ContractPaused,
    ZeroAmount,
    NotBorrowContract,
    Overflow,
}

/// What a vault holds, as a mathematical value.
pub struct VaultModel {
    pub admin: Address,
    pub base_asset: Address,
    pub borrow_contract: Option<Address>,
    pub state: VaultState,
    /// Positions keyed by the depositor's id.
    pub positions: Map<u64, LPPosition>,
    pub min_deposit: i128,
    /// Highest utilization a disbursement may reach, in basis points.
    pub max_utilization: i128,
    pub paused: bool,
}

pub struct LendingVaultContract {
    pub admin: Address,
    pub base_asset: Address,
    pub borrow_contract: Option<Address>,
    pub state: VaultState,
    pub positions: HashMap<u64, LPPosition>,
    pub min_deposit: i128,
    pub max_utilization: i128,
    pub paused: bool,
}

impl View for LendingVaultContract {
    type V = VaultModel;

    closed spec fn view(&self) -> VaultModel {
        VaultModel {
            admin: self.admin,
            base_asset: self.base_asset,
            borrow_contract: self.borrow_contract,
            state: self.state,
            positions: self.positions@,
            min_deposit: self.min_deposit,
            max_utilization: self.max_utilization,
            paused: self.paused,
        }
    }
}

pub open spec fn fits_i128(x: int) -> bool {
    i128::MIN <= x <= i128::MAX
}

/// `total_deposits + total_interest_earned - protocol_reserves`, each step
/// clamped to the range of `i128`.
pub open spec fn total_assets_spec(s: VaultState) -> i128 {
    sat_sub_spec(sat_add_spec(s.total_deposits, s.total_interest_earned), s.protocol_reserves)
}

/// Liquidity that can leave the vault: `total_deposits - total_borrowed`,
/// clamped to the range of `i128`.
pub open spec fn available_spec(s: VaultState) -> i128 {
    sat_sub_spec(s.total_deposits, s.total_borrowed)
}

/// Shares minted for a deposit: one for one into an empty vault (or one whose
/// assets are worth nothing), else `floor(amount * total_shares / total_assets)`.
pub open spec fn deposit_shares(s: VaultState, amount: i128) -> Option<i128> {
    if s.total_shares == 0 || total_assets_spec(s) == 0 {
        Some(amount)
    } else {
        mul_div_spec(amount, s.total_shares, total_assets_spec(s))
    }
}

/// Assets paid out for burning shares: `floor(shares * total_assets / total_shares)`.
pub open spec fn withdraw_amount(s: VaultState, shares: i128) -> Option<i128> {
    mul_div_spec(shares, total_assets_spec(s), s.total_shares)
}

/// Shares a depositor holds; none without a position.
pub open spec fn position_shares(m: VaultModel, depositor: Address) -> int {
    if m.positions.contains_key(depositor.id) {
        m.positions[depositor.id].shares as int
    } else {
        0
    }
}

pub open spec fn deposit_error(m: VaultModel, depositor: Address, amount: i128) -> Option<Error> {
    if m.paused {
        Some(Error::ContractPaused)
    } else if amount <= 0 {
        Some(Error::ZeroAmount)
    } else if amount < m.min_deposit {
        Some(Error::InsufficientDeposit)
    } else {
        match deposit_shares(m.state, amount) {
            None => Some(Error::Overflow),
            Some(sh) => if sh <= 0 {
                Some(Error::ZeroAmount)
            } else if !fits_i128(m.state.total_deposits + amount) || !fits_i128(
                m.state.total_shares + sh,
            ) || !fits_i128(position_shares(m, depositor) + sh) {
                Some(Error::Overflow)
            } else {
                None
            },
        }
    }
}

/// The vault after a deposit that minted `sh` shares.
pub open spec fn after_deposit(
    m: VaultModel,
    depositor: Address,
    amount: i128,
    sh: i128,
    now: u64,
) -> VaultModel {
    VaultModel {
        state: VaultState {
            total_deposits: (m.state.total_deposits + amount) as i128,
            total_shares: (m.state.total_shares + sh) as i128,
            ..m.state
        },
        positions: m.positions.insert(
            depositor.id,
            LPPosition {
                shares: (position_shares(m, depositor) + sh) as i128,
                deposit_timestamp: if m.positions.contains_key(depositor.id) {
                    m.positions[depositor.id].deposit_timestamp
                } else {
                    now
                },
            },
        ),
        ..m
    }
}

pub open spec fn withdraw_error(m: VaultModel, depositor: Address, shares: i128) -> Option<Error> {
    if m.paused {
        Some(Error::ContractPaused)
    } else if shares <= 0 {
        Some(Error::ZeroAmount)
    } else if !m.positions.contains_key(depositor.id) || position_shares(m, depositor) < shares {
        Some(Error::InsufficientShares)
    } else {
        match withdraw_amount(m.state, shares) {
            None => Some(Error::Overflow),
            Some(amt) => if amt > available_spec(m.state) {
                Some(Error::InsufficientLiquidity)
            } else if !fits_i128(m.state.total_deposits - amt) || !fits_i128(
                m.state.total_shares - shares,
            ) {
                Some(Error::Overflow)
            } else {
                None
            },
        }
    }
}

/// The vault after `depositor` burnt `shares` for `amt`.
pub open spec fn after_withdraw(m: VaultModel, depositor: Address, shares: i128, amt: i128) -> VaultModel {
    VaultModel {
        state: VaultState {
            total_deposits: (m.state.total_deposits - amt) as i128,
            total_shares: (m.state.total_shares - shares) as i128,
            ..m.state
        },
        positions: m.positions.insert(
            depositor.id,
            LPPosition {
                shares: (position_shares(m, depositor) - shares) as i128,
                ..m.positions[depositor.id]
            },
        ),
        ..m
    }
}

/// The check that a call comes from the configured borrow engine.
pub open spec fn borrow_caller_error(m: VaultModel, caller: Address) -> Option<Error> {
    if m.borrow_contract != Some(caller) {
        Some(Error::NotBorrowContract)
    } else {
        None
    }
}

pub open spec fn disburse_error(m: VaultModel, caller: Address, amount: i128) -> Option<Error> {
    if m.paused {
        Some(Error::ContractPaused)
    } else if borrow_caller_error(m, caller) is Some {
        borrow_caller_error(m, caller)
    } else if amount <= 0 {
        Some(Error::ZeroAmount)
    } else if amount > available_spec(m.state) {
        Some(Error::InsufficientLiquidity)
    } else if !fits_i128(m.state.total_borrowed + amount) {
        Some(Error::Overflow)
    } else if m.state.total_deposits > 0 {
        match mul_div_spec((m.state.total_borrowed + amount) as i128, BPS, m.state.total_deposits) {
            None => Some(Error::Overflow),
            Some(util) => if util > m.max_utilization {
                Some(Error::MaxUtilizationExceeded)
            } else {
                None
            },
        }
    } else {
        None
    }
}

/// The split of an interest payment: `(protocol_share, lp_share)`.
pub open spec fn interest_split(reserve_factor: i128, interest: i128) -> Option<(i128, i128)> {
    match mul_div_spec(interest, reserve_factor, BPS) {
        None => None,
        Some(p) => if fits_i128(interest - p) {
            Some((p, (interest - p) as i128))
        } else {
            None
        },
    }
}

pub open spec fn repay_error(m: VaultModel, caller: Address, principal: i128, interest: i128) -> Option<Error> {
    if m.paused {
        Some(Error::ContractPaused)
    } else if borrow_caller_error(m, caller) is Some {
        borrow_caller_error(m, caller)
    } else if !fits_i128(principal + interest) {
        Some(Error::Overflow)
    } else {
        match interest_split(m.state.reserve_factor, interest) {
            None => Some(Error::Overflow),
            Some((p, lp)) => if !fits_i128(m.state.total_borrowed - principal) || !fits_i128(
                m.state.total_deposits + lp,
            ) || !fits_i128(m.state.total_interest_earned + interest) || !fits_i128(
                m.state.protocol_reserves + p,
            ) {
                Some(Error::Overflow)
            } else {
                None
            },
        }
    }
}

pub open spec fn after_repay(s: VaultState, principal: i128, interest: i128) -> VaultState {
    let (p, lp) = interest_split(s.reserve_factor, interest).unwrap();
    VaultState {
        total_borrowed: (s.total_borrowed - principal) as i128,
        total_deposits: (s.total_deposits + lp) as i128,
        total_interest_earned: (s.total_interest_earned + interest) as i128,
        protocol_reserves: (s.protocol_reserves + p) as i128,
        ..s
    }
}

pub open spec fn liq_recv_error(m: VaultModel, caller: Address, recovered: i128, shortfall: i128) -> Option<Error> {
    if m.paused {
        Some(Error::ContractPaused)
    } else if borrow_caller_error(m, caller) is Some {
        borrow_caller_error(m, caller)
    } else if !fits_i128(recovered + shortfall) {
        Some(Error::Overflow)
    } else if recovered > 0 && !fits_i128(m.state.total_deposits + recovered) {
        Some(Error::Overflow)
    } else {
        None
    }
}

/// Liquidation bookkeeping: `recovered + shortfall` leaves `total_borrowed`,
/// which stops at zero, and a positive `recovered` is added back to deposits
/// with no asset flowing in.
pub open spec fn after_liq_recv(s: VaultState, recovered: i128, shortfall: i128) -> VaultState {
    VaultState {
        total_borrowed: if sat_sub_spec(s.total_borrowed, (recovered + shortfall) as i128) < 0 {
            0
        } else {
            sat_sub_spec(s.total_borrowed, (recovered + shortfall) as i128)
        },
        total_deposits: if recovered > 0 {
            (s.total_deposits + recovered) as i128
        } else {
            s.total_deposits
        },
        ..s
    }
}

/// The first deposit into a vault without shares mints one share per unit
/// deposited; a later deposit, into a vault whose shares and assets are
/// positive, mints `floor(amount * total_shares / total_assets)`, the assets
/// counted before the deposit.
pub proof fn lemma_deposit_share_price(s: VaultState, amount: i128)
    requires
        amount > 0,
    ensures
        s.total_shares == 0 ==> deposit_shares(s, amount) == Some(amount),
        s.total_shares > 0 && total_assets_spec(s) > 0 && deposit_shares(s, amount) is Some
            ==> deposit_shares(s, amount).unwrap() as int == (amount as int) * (s.total_shares as int)
            / (total_assets_spec(s) as int),
{
}

/// Depositing `amount` and at once withdrawing every share it minted gives
/// back exactly `amount`, where `amount` buys a whole number of shares at the
/// vault's share price (or the vault holds neither shares nor assets), the
/// vault's liquidity is not negative and no sum leaves the range of the
/// integers involved.
pub proof fn lemma_deposit_withdraw_round_trip(m: VaultModel, depositor: Address, amount: i128, now: u64)
    requires
        deposit_error(m, depositor, amount) is None,
        position_shares(m, depositor) >= 0,
        m.state.total_shares >= 0,
        m.state.total_deposits >= m.state.total_borrowed,
        m.state.total_shares == 0 ==> total_assets_spec(m.state) == 0,
        m.state.total_shares > 0 ==> total_assets_spec(m.state) > 0
            && ((amount as int) * (m.state.total_shares as int)) % (total_assets_spec(m.state) as int) == 0,
        fits_i128(m.state.total_deposits + amount + m.state.total_interest_earned),
        fits_i128(m.state.total_deposits + amount + m.state.total_interest_earned - m.state.protocol_reserves),
        fits_i128(m.state.total_deposits + m.state.total_interest_earned),
        fits_i128(m.state.total_deposits + m.state.total_interest_earned - m.state.protocol_reserves),
        (amount as int) * (m.state.total_shares + deposit_shares(m.state, amount).unwrap()) <= u128::MAX,
    ensures
        ({
            let sh = deposit_shares(m.state, amount).unwrap();
            let m2 = after_deposit(m, depositor, amount, sh, now);
            &&& withdraw_error(m2, depositor, sh) is None
            &&& withdraw_amount(m2.state, sh) == Some(amount)
        }),
{
    let s = m.state;
    let sh = deposit_shares(s, amount).unwrap();
    let m2 = after_deposit(m, depositor, amount, sh, now);
    let ts = s.total_shares as int;
    let ta = total_assets_spec(s) as int;
    let a = amount as int;
    let shi = sh as int;
    assert(total_assets_spec(m2.state) as int == ta + a);
    assert(m2.state.total_shares as int == ts + shi);
    if ts == 0 || ta == 0 {
        assert(ta == 0 && shi == a);
        assert(shi * (ta + a) == a * (ts + shi)) by (nonlinear_arith)
            requires ta == 0, shi == a, ts == 0;
    } else {
        assert(shi == (a * ts) / ta);
        assert(shi * ta == a * ts) by (nonlinear_arith)
            requires shi == (a * ts) / ta, (a * ts) % ta == 0, ta > 0;
        assert(shi * (ta + a) == a * (ts + shi)) by (nonlinear_arith)
            requires shi * ta == a * ts;
    }
    assert((a * (ts + shi)) / (ts + shi) == a) by (nonlinear_arith)
        requires ts + shi > 0;
}

/// Interest alone never lowers the share price: booking a repayment whose
/// interest is not negative, at a reserve factor between nothing and the
/// whole, leaves the shares as they were and the vault's assets no lower,
/// where no sum leaves the range of `i128`.
pub proof fn lemma_interest_raises_share_price(s: VaultState, principal: i128, interest: i128)
    requires
        interest >= 0,
        0 <= s.reserve_factor <= BPS,
        interest_split(s.reserve_factor, interest) is Some,
        fits_i128(s.total_deposits + interest),
        fits_i128(s.total_interest_earned + interest),
        fits_i128(s.protocol_reserves + interest),
        fits_i128(s.total_borrowed - principal),
        fits_i128(s.total_deposits + s.total_interest_earned),
        fits_i128(s.total_deposits + s.total_interest_earned - s.protocol_reserves),
        fits_i128(s.total_deposits + s.total_interest_earned + 2 * interest),
        fits_i128(s.total_deposits + s.total_interest_earned - s.protocol_reserves + 2 * interest),
    ensures
        after_repay(s, principal, interest).total_shares == s.total_shares,
        total_assets_spec(after_repay(s, principal, interest)) >= total_assets_spec(s),
{
    let (p, lp) = interest_split(s.reserve_factor, interest).unwrap();
    let i = interest as int;
    let rf = s.reserve_factor as int;
    assert(p as int == (i * rf) / 10000);
    assert((i * rf) / 10000 <= i) by (nonlinear_arith)
        requires 0 <= i, 0 <= rf <= 10000;
    assert(0 <= (i * rf) / 10000) by (nonlinear_arith)
        requires 0 <= i, 0 <= rf;
    assert(lp as int == i - p);
    assert(0 <= p <= i && 0 <= lp <= i);
    let a = after_repay(s, principal, interest);
    assert(a.total_deposits as int == s.total_deposits + lp);
    assert(a.total_interest_earned as int == s.total_interest_earned + i);
    assert(a.protocol_reserves as int == s.protocol_reserves + p);
    assert(sat_add_spec(a.total_deposits, a.total_interest_earned) as int
        == s.total_deposits + s.total_interest_earned + lp + i);
    assert(total_assets_spec(a) as int
        == s.total_deposits + s.total_interest_earned - s.protocol_reserves + 2 * (i - p));
    assert(total_assets_spec(s) as int == s.total_deposits + s.total_interest_earned - s.protocol_reserves);
}

impl LendingVaultContract {
    /// A fresh vault over `base_asset`, administered by `admin`.
    pub fn initialize(
        admin: Address,
        base_asset: Address,
        reserve_factor: i128,
        max_utilization: i128,
        min_deposit: i128,
    ) -> (r: Self)
        ensures
            r@ == (VaultModel {
                admin,
                base_asset,
                borrow_contract: None,
                state: VaultState {
                    total_deposits: 0,
                    total_shares: 0,
                    total_borrowed: 0,
                    total_interest_earned: 0,
                    reserve_factor,
                    protocol_reserves: 0,
                },
                positions: Map::empty(),
                min_deposit,
                max_utilization,
                paused: false,
            }),
    {
        LendingVaultContract {
            admin,
            base_asset,
            borrow_contract: None,
            state: VaultState {
                total_deposits: 0,
                total_shares: 0,
                total_borrowed: 0,
                total_interest_earned: 0,
                reserve_factor,
                protocol_reserves: 0,
            },
            positions: HashMap::new(),
            min_deposit,
            max_utilization,
            paused: false,
        }
    }

    /// Names the borrow engine allowed to disburse, repay and liquidate.
    pub fn set_borrow(&mut self, caller: Address, borrow_contract: Address) -> (r: Result<(), Error>)
        ensures
            r is Err <==> caller != old(self)@.admin,
            r is Err ==> r == Err::<(), Error>(Error::NotAuthorized) && final(self)@ == old(self)@,
            r is Ok ==> final(self)@ == (VaultModel { borrow_contract: Some(borrow_contract), ..old(self)@ }),
    {
        if caller != self.admin {
            return Err(Error::NotAuthorized);
        }
        self.borrow_contract = Some(borrow_contract);
        Ok(())
    }

    /// Deposits `amount` of the base asset (the host pulls it from
    /// `depositor`) and returns the shares minted for it.
    pub fn deposit(&mut self, depositor: Address, amount: i128, now: u64) -> (r: Result<i128, Error>)
        ensures
            match r {
                Ok(sh) => {
                    &&& deposit_error(old(self)@, depositor, amount) is None
                    &&& deposit_shares(old(self)@.state, amount) == Some(sh)
                    &&& final(self)@ == after_deposit(old(self)@, depositor, amount, sh, now)
                },
                Err(e) => {
                    &&& deposit_error(old(self)@, depositor, amount) == Some(e)
                    &&& final(self)@ == old(self)@
                },
            },
    {
        if self.paused {
            return Err(Error::ContractPaused);
        }
        if amount <= 0 {
            return Err(Error::ZeroAmount);
        }
        if amount < self.min_deposit {
            return Err(Error::InsufficientDeposit);
        }
        let shares = if self.state.total_shares == 0 {
            amount
        } else {
            let total_assets = Self::calc_total_assets(&self.state);
            if total_assets == 0 {
                amount
            } else {
                Self::mul_div(amount, self.state.total_shares, total_assets)?
            }
        };
        if shares <= 0 {
            return Err(Error::ZeroAmount);
        }
        let total_deposits = match self.state.total_deposits.checked_add(amount) {
            Some(v) => v,
            None => return Err(Error::Overflow),
        };
        let total_shares = match self.state.total_shares.checked_add(shares) {
            Some(v) => v,
            None => return Err(Error::Overflow),
        };
        let pos = match self.positions.get(&depositor.id) {
            Some(p) => *p,
            None => LPPosition { shares: 0, deposit_timestamp: now },
        };
        let pos_shares = match pos.shares.checked_add(shares) {
            Some(v) => v,
            None => return Err(Error::Overflow),
        };
        self.state.total_deposits = total_deposits;
        self.state.total_shares = total_shares;
        self.positions.insert(depositor.id, LPPosition { shares: pos_shares, ..pos });
        Ok(shares)
    }

    /// Burns `shares_to_burn` of `depositor`'s shares and returns the assets
    /// that the host pays out for them.
    pub fn withdraw(&mut self, depositor: Address, shares_to_burn: i128) -> (r: Result<i128, Error>)
        ensures
            match r {
                Ok(amt) => {
                    &&& withdraw_error(old(self)@, depositor, shares_to_burn) is None
                    &&& withdraw_amount(old(self)@.state, shares_to_burn) == Some(amt)
                    &&& final(self)@ == after_withdraw(old(self)@, depositor, shares_to_burn, amt)
                },
                Err(e) => {
                    &&& withdraw_error(old(self)@, depositor, shares_to_burn) == Some(e)
                    &&& final(self)@ == old(self)@
                },
            },
            r is Ok ==> final(self)@.state.total_deposits >= final(self)@.state.total_borrowed,
            old(self)@.state.total_deposits >= old(self)@.state.total_borrowed
                ==> final(self)@.state.total_deposits >= final(self)@.state.total_borrowed,
    {
        if self.paused {
            return Err(Error::ContractPaused);
        }
        if shares_to_burn <= 0 {
            return Err(Error::ZeroAmount);
        }
        let pos = match self.positions.get(&depositor.id) {
            Some(p) => *p,
            None => return Err(Error::InsufficientShares),
        };
        if pos.shares < shares_to_burn {
            return Err(Error::InsufficientShares);
        }
        let total_assets = Self::calc_total_assets(&self.state);
        let withdraw_amt = Self::mul_div(shares_to_burn, total_assets, self.state.total_shares)?;
        let available = sat_sub(self.state.total_deposits, self.state.total_borrowed);
        if withdraw_amt > available {
            return Err(Error::InsufficientLiquidity);
        }
        let total_deposits = match self.state.total_deposits.checked_sub(withdraw_amt) {
            Some(v) => v,
            None => return Err(Error::Overflow),
        };
        let total_shares = match self.state.total_shares.checked_sub(shares_to_burn) {
            Some(v) => v,
            None => return Err(Error::Overflow),
        };
        self.state.total_deposits = total_deposits;
        self.state.total_shares = total_shares;
        self.positions.insert(
            depositor.id,
            LPPosition { shares: pos.shares - shares_to_burn, ..pos },
        );
        Ok(withdraw_amt)
    }

    fn require_borrow_contract(&self, caller: Address) -> (r: Result<(), Error>)
        ensures
            match borrow_caller_error(self@, caller) {
                Some(e) => r == Err::<(), Error>(e),
                None => r is Ok,
            },
    {
        match self.borrow_contract {
            Some(bc) => if bc == caller {
                Ok(())
            } else {
                Err(Error::NotBorrowContract)
            },
            None => Err(Error::NotBorrowContract),
        }
    }

    /// Pays out a loan of `amount` to `borrower` on behalf of the borrow
    /// engine `caller`; the host moves the asset.
    pub fn disburse(&mut self, caller: Address, borrower: Address, amount: i128) -> (r: Result<(), Error>)
        ensures
            match r {
                Ok(_) => {
                    &&& disburse_error(old(self)@, caller, amount) is None
                    &&& final(self)@ == (VaultModel {
                        state: VaultState {
                            total_borrowed: (old(self)@.state.total_borrowed + amount) as i128,
                            ..old(self)@.state
                        },
                        ..old(self)@
                    })
                },
                Err(e) => {
                    &&& disburse_error(old(self)@, caller, amount) == Some(e)
                    &&& final(self)@ == old(self)@
                },
            },
            r is Ok ==> final(self)@.state.total_deposits >= final(self)@.state.total_borrowed,
            old(self)@.state.total_deposits >= old(self)@.state.total_borrowed
                ==> final(self)@.state.total_deposits >= final(self)@.state.total_borrowed,
    {
        self.check_disburse(caller, amount)?;
        self.state.total_borrowed = self.state.total_borrowed + amount;
        Ok(())
    }

    /// Reports the error that `disburse` would meet, changing nothing.
    pub fn check_disburse(&self, caller: Address, amount: i128) -> (r: Result<(), Error>)
        ensures
            match disburse_error(self@, caller, amount) {
                Some(e) => r == Err::<(), Error>(e),
                None => r is Ok,
            },
    {
        if self.paused {
            return Err(Error::ContractPaused);
        }
        self.require_borrow_contract(caller)?;
        if amount <= 0 {
            return Err(Error::ZeroAmount);
        }
        let available = sat_sub(self.state.total_deposits, self.state.total_borrowed);
        if amount > available {
            return Err(Error::InsufficientLiquidity);
        }
        let new_borrowed = match self.state.total_borrowed.checked_add(amount) {
            Some(v) => v,
            None => return Err(Error::Overflow),
        };
        if self.state.total_deposits > 0 {
            let util = Self::mul_div(new_borrowed, BPS, self.state.total_deposits)?;
            if util > self.max_utilization {
                return Err(Error::MaxUtilizationExceeded);
            }
        }
        Ok(())
    }

    /// Books a repayment that the host pulls from `borrower`: `principal`
    /// returns to the pool and `interest` is split between the protocol's
    /// reserves and the liquidity providers.
    pub fn repay(&mut self, caller: Address, borrower: Address, principal: i128, interest: i128) -> (r: Result<(), Error>)
        ensures
            match r {
                Ok(_) => {
                    &&& repay_error(old(self)@, caller, principal, interest) is None
                    &&& final(self)@ == (VaultModel {
                        state: after_repay(old(self)@.state, principal, interest),
                        ..old(self)@
                    })
                },
                Err(e) => {
                    &&& repay_error(old(self)@, caller, principal, interest) == Some(e)
                    &&& final(self)@ == old(self)@
                },
            },
    {
        self.check_repay(caller, principal, interest)?;
        let protocol_share = Self::mul_div(interest, self.state.reserve_factor, BPS)?;
        let lp_share = interest - protocol_share;
        self.state.total_borrowed = self.state.total_borrowed - principal;
        self.state.total_deposits = self.state.total_deposits + lp_share;
        self.state.total_interest_earned = self.state.total_interest_earned + interest;
        self.state.protocol_reserves = self.state.protocol_reserves + protocol_share;
        Ok(())
    }

    /// Reports the error that `repay` would meet, changing nothing.
    pub fn check_repay(&self, caller: Address, principal: i128, interest: i128) -> (r: Result<(), Error>)
        ensures
            match repay_error(self@, caller, principal, interest) {
                Some(e) => r == Err::<(), Error>(e),
                None => r is Ok,
            },
    {
        if self.paused {
            return Err(Error::ContractPaused);
        }
        self.require_borrow_contract(caller)?;
        if principal.checked_add(interest).is_none() {
            return Err(Error::Overflow);
        }
        let protocol_share = Self::mul_div(interest, self.state.reserve_factor, BPS)?;
        let lp_share = match interest.checked_sub(protocol_share) {
            Some(v) => v,
            None => return Err(Error::Overflow),
        };
        if self.state.total_borrowed.checked_sub(principal).is_none()
            || self.state.total_deposits.checked_add(lp_share).is_none()
            || self.state.total_interest_earned.checked_add(interest).is_none()
            || self.state.protocol_reserves.checked_add(protocol_share).is_none() {
            return Err(Error::Overflow);
        }
        Ok(())
    }

    /// Books the end of a liquidated loan: `recovered` and `shortfall`
    /// together leave the borrowed total, and `recovered` is restored to
    /// deposits although no asset flows in.
    pub fn liq_recv(&mut self, caller: Address, recovered: i128, shortfall: i128) -> (r: Result<(), Error>)
        ensures
            match r {
                Ok(_) => {
                    &&& liq_recv_error(old(self)@, caller, recovered, shortfall) is None
                    &&& final(self)@ == (VaultModel {
                        state: after_liq_recv(old(self)@.state, recovered, shortfall),
                        ..old(self)@
                    })
                },
                Err(e) => {
                    &&& liq_recv_error(old(self)@, caller, recovered, shortfall) == Some(e)
                    &&& final(self)@ == old(self)@
                },
            },
    {
        self.check_liq_recv(caller, recovered, shortfall)?;
        if recovered > 0 {
            self.state.total_deposits = self.state.total_deposits + recovered;
        }
        let left = sat_sub(self.state.total_borrowed, recovered + shortfall);
        self.state.total_borrowed = if left < 0 { 0 } else { left };
        Ok(())
    }

    /// Reports the error that `liq_recv` would meet, changing nothing.
    pub fn check_liq_recv(&self, caller: Address, recovered: i128, shortfall: i128) -> (r: Result<(), Error>)
        ensures
            match liq_recv_error(self@, caller, recovered, shortfall) {
                Some(e) => r == Err::<(), Error>(e),
                None => r is Ok,
            },
    {
        if self.paused {
            return Err(Error::ContractPaused);
        }
        self.require_borrow_contract(caller)?;
        if recovered.checked_add(shortfall).is_none() {
            return Err(Error::Overflow);
        }
        if recovered > 0 && self.state.total_deposits.checked_add(recovered).is_none() {
            return Err(Error::Overflow);
        }
        Ok(())
    }

    /// Pays `amount` of the protocol's reserves out to `recipient`.
    pub fn withdraw_reserves(&mut self, caller: Address, recipient: Address, amount: i128) -> (r: Result<(), Error>)
        ensures
            r is Ok <==> !old(self)@.paused && caller == old(self)@.admin
                && amount <= old(self)@.state.protocol_reserves
                && fits_i128(old(self)@.state.protocol_reserves - amount),
            old(self)@.paused ==> r == Err::<(), Error>(Error::ContractPaused),
            !old(self)@.paused && caller != old(self)@.admin ==> r == Err::<(), Error>(Error::NotAuthorized),
            !old(self)@.paused && caller == old(self)@.admin && amount > old(self)@.state.protocol_reserves
                ==> r == Err::<(), Error>(Error::InsufficientLiquidity),
            r is Ok ==> final(self)@ == (VaultModel {
                state: VaultState {
                    protocol_reserves: (old(self)@.state.protocol_reserves - amount) as i128,
                    ..old(self)@.state
                },
                ..old(self)@
            }),
            r is Err ==> final(self)@ == old(self)@,
    {
        if self.paused {
            return Err(Error::ContractPaused);
        }
        if caller != self.admin {
            return Err(Error::NotAuthorized);
        }
        if amount > self.state.protocol_reserves {
            return Err(Error::InsufficientLiquidity);
        }
        match self.state.protocol_reserves.checked_sub(amount) {
            Some(v) => {
                self.state.protocol_reserves = v;
                Ok(())
            },
            None => Err(Error::Overflow),
        }
    }

    /// Stops deposits, withdrawals and disbursements.
    pub fn pause(&mut self, caller: Address) -> (r: Result<(), Error>)
        ensures
            r is Ok <==> caller == old(self)@.admin,
            r is Err ==> r == Err::<(), Error>(Error::NotAuthorized) && final(self)@ == old(self)@,
            r is Ok ==> final(self)@ == (VaultModel { paused: true, ..old(self)@ }),
    {
        if caller != self.admin {
            return Err(Error::NotAuthorized);
        }
        self.paused = true;
        Ok(())
    }

    pub fn unpause(&mut self, caller: Address) -> (r: Result<(), Error>)
        ensures
            r is Ok <==> caller == old(self)@.admin,
            r is Err ==> r == Err::<(), Error>(Error::NotAuthorized) && final(self)@ == old(self)@,
            r is Ok ==> final(self)@ == (VaultModel { paused: false, ..old(self)@ }),
    {
        if caller != self.admin {
            return Err(Error::NotAuthorized);
        }
        self.paused = false;
        Ok(())
    }

    pub fn total_assets(&self) -> (r: i128)
        ensures
            r == total_assets_spec(self@.state),
    {
        Self::calc_total_assets(&self.state)
    }

    pub fn available(&self) -> (r: i128)
        ensures
            r == available_spec(self@.state),
    {
        sat_sub(self.state.total_deposits, self.state.total_borrowed)
    }

    /// Borrowed share of the deposits in basis points; zero without deposits
    /// or where the ratio cannot be computed.
    pub fn utilization(&self) -> (r: i128)
        ensures
            r == (if self@.state.total_deposits == 0 {
                0
            } else {
                match mul_div_spec(self@.state.total_borrowed, BPS, self@.state.total_deposits) {
                    Some(u) => u,
                    None => 0,
                }
            }),
    {
        if self.state.total_deposits == 0 {
            return 0;
        }
        match checked_mul_div(self.state.total_borrowed, BPS, self.state.total_deposits) {
            Some(u) => u,
            None => 0,
        }
    }

    pub fn get_state(&self) -> (r: VaultState)
        ensures
            r == self@.state,
    {
        self.state
    }

    pub fn get_lp(&self, depositor: Address) -> (r: Option<LPPosition>)
        ensures
            r == (if self@.positions.contains_key(depositor.id) {
                Some(self@.positions[depositor.id])
            } else {
                None
            }),
    {
        match self.positions.get(&depositor.id) {
            Some(p) => Some(*p),
            None => None,
        }
    }

    /// Assets that `shares` stand for now; one for one in a vault without
    /// shares, zero where the ratio cannot be computed.
    pub fn shares_value(&self, shares: i128) -> (r: i128)
        ensures
            r == (if self@.state.total_shares == 0 {
                shares
            } else {
                match withdraw_amount(self@.state, shares) {
                    Some(v) => v,
                    None => 0,
                }
            }),
    {
        if self.state.total_shares == 0 {
            return shares;
        }
        match checked_mul_div(shares, Self::calc_total_assets(&self.state), self.state.total_shares) {
            Some(v) => v,
            None => 0,
        }
    }

    /// `total_deposits + total_interest_earned - protocol_reserves`.
    pub fn calc_total_assets(state: &VaultState) -> (r: i128)
        ensures
            r == total_assets_spec(*state),
    {
        sat_sub(sat_add(state.total_deposits, state.total_interest_earned), state.protocol_reserves)
    }

    /// `floor(a * b / c)` in widened arithmetic; `Overflow` where it cannot be
    /// computed, a zero denominator included.
    pub fn mul_div(a: i128, b: i128, c: i128) -> (r: Result<i128, Error>)
        ensures
            match mul_div_spec(a, b, c) {
                Some(v) => r == Ok::<i128, Error>(v),
                None => r == Err::<i128, Error>(Error::Overflow),
            },
            c == 0 ==> r == Err::<i128, Error>(Error::Overflow),
    {
        match checked_mul_div(a, b, c) {
            Some(v) => Ok(v),
            None => Err(Error::Overflow),
        }
    }
}

} // verus!
