//! The registry of tokenized receivables and their lifecycle.
//!
//! A receivable is minted Active for its creditor. The borrow engine locks it
//! as collateral (Collateralized) and unlocks it again; only an Active one
//! changes hands; the administrator settles Active or Matured ones and may
//! mark any one Defaulted. Settled and Defaulted are terminal.
use std::collections::HashMap;
use vstd::prelude::*;

use crate::Address;

verus! {

broadcast use vstd::std_specs::hash::group_hash_axioms;

#[derive(Clone, Copy, Debug, PartialEq, Eq, Structural)]
pub enum ReceivableStatus {
    Active,
    Collateralized,
    Matured,
    Settled,
    Defaulted,
}

#[derive(Clone, Debug)]
pub struct Receivable {
    pub id: u64,
    pub owner: Address,
    pub original_creditor: Address,
    /// Opaque hash that identifies the debtor.
    pub debtor_hash: [u8; 32],
    pub face_value: i128,
    pub currency: Address,
    pub issuance_date: u64,
    pub maturity_date: u64,
    pub zk_proof_hash: [u8; 32],
    pub status: ReceivableStatus,
    pub risk_score: u32,
    pub metadata_uri: String,
}

#[derive(Clone, Copy, Debug, PartialEq, Eq, Structural)]
pub enum Error {
    NotAuthorized,
    NotVerifier,
    ReceivableNotFound,
    InvalidStatus,
    InvalidMaturityDate,
    InvalidFaceValue,
    AlreadyInitialized,
    ContractPaused,
    NotOwner,
    NotBorrowContract,
    TransferNotAllowed,
}

/// What a registry holds, as a mathematical value.
pub struct RegistryModel {
    pub admin: Address,
    pub verifier: Address,
    pub borrow_contract: Option<Address>,
    /// The receivable with id `k` stands at index `k - 1`.
    pub receivables: Seq<Receivable>,
    /// The ids each owner holds, keyed by the owner's id, in the order acquired.
    pub owner_index: Map<u64, Seq<u64>>,
    pub total_active: u64,
    pub paused: bool,
}

pub struct ReceivableTokenContract {
    pub admin: Address,
    pub verifier: Address,
    pub borrow_contract: Option<Address>,
    pub receivables: Vec<Receivable>,
    pub owner_index: HashMap<u64, Vec<u64>>,
    pub total_active: u64,
    pub paused: bool,
}

impl View for ReceivableTokenContract {
    type V = RegistryModel;

    closed spec fn view(&self) -> RegistryModel {
        RegistryModel {
            admin: self.admin,
            verifier: self.verifier,
            borrow_contract: self.borrow_contract,
            receivables: self.receivables@,
            owner_index: self.owner_index@.map_values(|v: Vec<u64>| v@),
            total_active: self.total_active,
            paused: self.paused,
        }
    }
}

/// The receivable with id `id`, if one was minted.
pub open spec fn lookup(m: RegistryModel, id: u64) -> Option<Receivable> {
    if 1 <= id <= m.receivables.len() {
        Some(m.receivables[id - 1])
    } else {
        None
    }
}

/// The ids listed for owner key `k`; none if the owner never held one.
pub open spec fn ids_of(index: Map<u64, Seq<u64>>, k: u64) -> Seq<u64> {
    if index.contains_key(k) {
        index[k]
    } else {
        Seq::empty()
    }
}

/// `m` with the status of receivable `id` (which exists) replaced.
pub open spec fn with_status(m: RegistryModel, id: u64, status: ReceivableStatus) -> RegistryModel {
    RegistryModel {
        receivables: m.receivables.update(
            id - 1,
            Receivable { status, ..m.receivables[id - 1] },
        ),
        ..m
    }
}

pub open spec fn borrow_caller_error(m: RegistryModel, caller: Address) -> Option<Error> {
    if m.borrow_contract != Some(caller) {
        Some(Error::NotBorrowContract)
    } else {
        None
    }
}

pub open spec fn mint_error(
    m: RegistryModel,
    caller: Address,
    face_value: i128,
    maturity_date: u64,
    now: u64,
) -> Option<Error> {
    if m.paused {
        Some(Error::ContractPaused)
    } else if caller != m.verifier {
        Some(Error::NotVerifier)
    } else if face_value <= 0 {
        Some(Error::InvalidFaceValue)
    } else if maturity_date <= now {
        Some(Error::InvalidMaturityDate)
    } else {
        None
    }
}

/// The check shared by `lock` and `unlock`: the caller, the receivable, and
/// the status it must be in.
pub open spec fn lock_error(
    m: RegistryModel,
    caller: Address,
    id: u64,
    from: ReceivableStatus,
) -> Option<Error> {
    if m.paused {
        Some(Error::ContractPaused)
    } else if borrow_caller_error(m, caller) is Some {
        borrow_caller_error(m, caller)
    } else if lookup(m, id) is None {
        Some(Error::ReceivableNotFound)
    } else if lookup(m, id).unwrap().status != from {
        Some(Error::InvalidStatus)
    } else {
        None
    }
}

pub open spec fn transfer_error(m: RegistryModel, caller: Address, id: u64, from: Address) -> Option<Error> {
    if m.paused {
        Some(Error::ContractPaused)
    } else if caller != from {
        Some(Error::NotAuthorized)
    } else if lookup(m, id) is None {
        Some(Error::ReceivableNotFound)
    } else if lookup(m, id).unwrap().owner != from {
        Some(Error::NotOwner)
    } else if lookup(m, id).unwrap().status != ReceivableStatus::Active {
        Some(Error::TransferNotAllowed)
    } else {
        None
    }
}

/// Holds of every id but `id`.
pub open spec fn other_than(id: u64) -> spec_fn(u64) -> bool {
    |x: u64| x != id
}

/// The owner index after `id` moved from `from` to `to`: it leaves `from`'s
/// list, then joins the end of `to`'s.
pub open spec fn index_after_transfer(
    index: Map<u64, Seq<u64>>,
    id: u64,
    from: Address,
    to: Address,
) -> Map<u64, Seq<u64>> {
    let index1 = index.insert(from.id, ids_of(index, from.id).filter(other_than(id)));
    index1.insert(to.id, ids_of(index1, to.id).push(id))
}

pub open spec fn admin_error(m: RegistryModel, caller: Address, id: u64) -> Option<Error> {
    if m.paused {
        Some(Error::ContractPaused)
    } else if caller != m.admin {
        Some(Error::NotAuthorized)
    } else if lookup(m, id) is None {
        Some(Error::ReceivableNotFound)
    } else {
        None
    }
}

/// The check on entry to a batch from the borrow engine `caller`.
pub open spec fn batch_entry_error(m: RegistryModel, caller: Address) -> Option<Error> {
    if m.paused {
        Some(Error::ContractPaused)
    } else {
        borrow_caller_error(m, caller)
    }
}

/// The first failure met by a run over `ids` that moves each receivable out
/// of status `from`: a missing receivable, one in another status, or an id
/// that an earlier step already moved; with `releasing`, also a receivable
/// that `owner` does not own.
pub open spec fn batch_item_error(
    m: RegistryModel,
    ids: Seq<u64>,
    from: ReceivableStatus,
    releasing: bool,
    owner: Address,
) -> Option<Error>
    decreases ids.len(),
{
    if ids.len() == 0 {
        None
    } else {
        match batch_item_error(m, ids.drop_last(), from, releasing, owner) {
            Some(e) => Some(e),
            None => {
                let id = ids.last();
                if lookup(m, id) is None {
                    Some(Error::ReceivableNotFound)
                } else if lookup(m, id).unwrap().status != from || ids.drop_last().contains(id) {
                    Some(Error::InvalidStatus)
                } else if releasing && lookup(m, id).unwrap().owner != owner {
                    Some(Error::NotOwner)
                } else {
                    None
                }
            },
        }
    }
}

/// The error that locking (`from` Active), unlocking (`from`
/// Collateralized) or releasing the receivables `ids` one after another
/// would meet; none for an empty run, which makes no call.
pub open spec fn batch_error(
    m: RegistryModel,
    caller: Address,
    ids: Seq<u64>,
    from: ReceivableStatus,
    releasing: bool,
    owner: Address,
) -> Option<Error> {
    if ids.len() == 0 {
        None
    } else if batch_entry_error(m, caller) is Some {
        batch_entry_error(m, caller)
    } else {
        batch_item_error(m, ids, from, releasing, owner)
    }
}

/// `m` after each receivable of `ids` in turn was put in status `to`.
pub open spec fn with_status_all(m: RegistryModel, ids: Seq<u64>, to: ReceivableStatus) -> RegistryModel
    decreases ids.len(),
{
    if ids.len() == 0 {
        m
    } else {
        with_status(with_status_all(m, ids.drop_last(), to), ids.last(), to)
    }
}

/// `m` after receivable `id` passed from `from` to `to`.
pub open spec fn moved(m: RegistryModel, id: u64, from: Address, to: Address) -> RegistryModel {
    RegistryModel {
        receivables: m.receivables.update(id - 1, Receivable { owner: to, ..m.receivables[id - 1] }),
        owner_index: index_after_transfer(m.owner_index, id, from, to),
        ..m
    }
}

/// `m` after each receivable of `ids` in turn was unlocked and passed from
/// `from` to `to`.
pub open spec fn released_all(m: RegistryModel, ids: Seq<u64>, from: Address, to: Address) -> RegistryModel
    decreases ids.len(),
{
    if ids.len() == 0 {
        m
    } else {
        let id = ids.last();
        moved(with_status(released_all(m, ids.drop_last(), from, to), id, ReceivableStatus::Active), id, from, to)
    }
}

/// A run over `ids` without a failure finds each of them, and so does one
/// over any prefix.
pub proof fn lemma_batch_items_found(
    m: RegistryModel,
    ids: Seq<u64>,
    from: ReceivableStatus,
    releasing: bool,
    owner: Address,
    j: int,
)
    requires
        batch_item_error(m, ids, from, releasing, owner) is None,
        0 <= j <= ids.len(),
    ensures
        batch_item_error(m, ids.take(j), from, releasing, owner) is None,
        j < ids.len() ==> lookup(m, ids[j]) is Some,
    decreases ids.len(),
{
    if j < ids.len() {
        if j == ids.len() - 1 {
            assert(ids.take(j) =~= ids.drop_last());
        } else {
            lemma_batch_items_found(m, ids.drop_last(), from, releasing, owner, j);
            assert(ids.drop_last().take(j) =~= ids.take(j));
            assert(ids.drop_last()[j] == ids[j]);
        }
    } else {
        assert(ids.take(j) =~= ids);
    }
}

/// The first failure of a run decides the failure of any run that extends it.
pub proof fn lemma_batch_error_sticks(
    m: RegistryModel,
    ids: Seq<u64>,
    from: ReceivableStatus,
    releasing: bool,
    owner: Address,
    j: int,
)
    requires
        0 <= j <= ids.len(),
        batch_item_error(m, ids.take(j), from, releasing, owner) is Some,
    ensures
        batch_item_error(m, ids, from, releasing, owner) == batch_item_error(m, ids.take(j), from, releasing, owner),
    decreases ids.len(),
{
    if j == ids.len() {
        assert(ids.take(j) =~= ids);
    } else {
        assert(ids.drop_last().take(j) =~= ids.take(j));
        lemma_batch_error_sticks(m, ids.drop_last(), from, releasing, owner, j);
    }
}

pub open spec fn dec_sat(x: u64) -> u64 {
    if x == 0 {
        0
    } else {
        (x - 1) as u64
    }
}

impl ReceivableTokenContract {
    /// A fresh, empty registry whose receivables `verifier` vouches for.
    pub fn initialize(admin: Address, verifier: Address) -> (r: Self)
        ensures
            r@ == (RegistryModel {
                admin,
                verifier,
                borrow_contract: None,
                receivables: Seq::empty(),
                owner_index: Map::empty(),
                total_active: 0,
                paused: false,
            }),
    {
        let r = ReceivableTokenContract {
            admin,
            verifier,
            borrow_contract: None,
            receivables: Vec::new(),
            owner_index: HashMap::new(),
            total_active: 0,
            paused: false,
        };
        assert(r@.owner_index =~= Map::empty());
        r
    }

    /// Names the borrow engine allowed to lock and unlock receivables.
    pub fn set_borrow(&mut self, caller: Address, borrow_contract: Address) -> (r: Result<(), Error>)
        ensures
            r is Err <==> caller != old(self)@.admin,
            r is Err ==> r == Err::<(), Error>(Error::NotAuthorized) && final(self)@ == old(self)@,
            r is Ok ==> final(self)@ == (RegistryModel {
                borrow_contract: Some(borrow_contract),
                ..old(self)@
            }),
    {
        if caller != self.admin {
            return Err(Error::NotAuthorized);
        }
        self.borrow_contract = Some(borrow_contract);
        Ok(())
    }

    /// Mints a receivable owned by `creditor`, on the word of the verifier
    /// `caller`, and returns its id.
    pub fn mint(
        &mut self,
        caller: Address,
        creditor: Address,
        debtor_hash: [u8; 32],
        face_value: i128,
        currency: Address,
        maturity_date: u64,
        zk_proof_hash: [u8; 32],
        risk_score: u32,
        metadata_uri: String,
        now: u64,
    ) -> (r: Result<u64, Error>)
        requires
            old(self)@.receivables.len() + 2 < u64::MAX,
            old(self)@.total_active + 1 < u64::MAX,
        ensures
            match r {
                Ok(id) => {
                    let m = old(self)@;
                    &&& mint_error(m, caller, face_value, maturity_date, now) is None
                    &&& id == m.receivables.len() + 1
                    &&& final(self)@ == (RegistryModel {
                        receivables: m.receivables.push(
                            Receivable {
                                id,
                                owner: creditor,
                                original_creditor: creditor,
                                debtor_hash,
                                face_value,
                                currency,
                                issuance_date: now,
                                maturity_date,
                                zk_proof_hash,
                                status: ReceivableStatus::Active,
                                risk_score,
                                metadata_uri,
                            },
                        ),
                        owner_index: m.owner_index.insert(
                            creditor.id,
                            ids_of(m.owner_index, creditor.id).push(id),
                        ),
                        total_active: (m.total_active + 1) as u64,
                        ..m
                    })
                },
                Err(e) => {
                    &&& mint_error(old(self)@, caller, face_value, maturity_date, now) == Some(e)
                    &&& final(self)@ == old(self)@
                },
            },
    {
        if self.paused {
            return Err(Error::ContractPaused);
        }
        if caller != self.verifier {
            return Err(Error::NotVerifier);
        }
        if face_value <= 0 {
            return Err(Error::InvalidFaceValue);
        }
        if maturity_date <= now {
            return Err(Error::InvalidMaturityDate);
        }
        let id: u64 = self.receivables.len() as u64 + 1;
        let ghost old_index = self.owner_index@;
        self.receivables.push(
            Receivable {
                id,
                owner: creditor,
                original_creditor: creditor,
                debtor_hash,
                face_value,
                currency,
                issuance_date: now,
                maturity_date,
                zk_proof_hash,
                status: ReceivableStatus::Active,
                risk_score,
                metadata_uri,
            },
        );
        let mut list = match self.owner_index.remove(&creditor.id) {
            Some(l) => l,
            None => Vec::new(),
        };
        list.push(id);
        self.owner_index.insert(creditor.id, list);
        self.total_active = self.total_active + 1;
        proof {
            assert(self.owner_index@.map_values(|v: Vec<u64>| v@) =~= old_index.map_values(
                |v: Vec<u64>| v@,
            ).insert(creditor.id, ids_of(old_index.map_values(|v: Vec<u64>| v@), creditor.id).push(id)));
        }
        Ok(id)
    }

    /// Replaces the status of receivable `id`, which exists.
    fn set_status(&mut self, id: u64, status: ReceivableStatus)
        requires
            lookup(old(self)@, id) is Some,
        ensures
            final(self)@ == with_status(old(self)@, id, status),
    {
        let n = self.receivables.len();
        let i: usize = (id - 1) as usize;
        self.receivables[i].status = status;
        proof {
            assert(self.receivables@.len() == old(self).receivables@.len());
            assert(self.receivables@[i as int] == Receivable { status, ..old(self).receivables@[i as int] });
            assert(self@.receivables =~= with_status(old(self)@, id, status).receivables);
        }
    }

    fn require_borrow_contract(&self, caller: Address) -> (r: Result<(), Error>)
        ensures
            match borrow_caller_error(self@, caller) {
                Some(e) => r == Err::<(), Error>(e),
                None => r is Ok,
            },
    {
        match self.borrow_contract {
            Some(bc) => if bc == caller {
                Ok(())
            } else {
                Err(Error::NotBorrowContract)
            },
            None => Err(Error::NotBorrowContract),
        }
    }

    /// Locks an Active receivable as collateral for the borrow engine `caller`.
    pub fn lock(&mut self, caller: Address, receivable_id: u64) -> (r: Result<(), Error>)
        ensures
            match r {
                Ok(_) => {
                    &&& lock_error(old(self)@, caller, receivable_id, ReceivableStatus::Active) is None
                    &&& final(self)@ == with_status(old(self)@, receivable_id, ReceivableStatus::Collateralized)
                },
                Err(e) => {
                    &&& lock_error(old(self)@, caller, receivable_id, ReceivableStatus::Active) == Some(e)
                    &&& final(self)@ == old(self)@
                },
            },
    {
        self.check_status(caller, receivable_id, ReceivableStatus::Active)?;
        self.set_status(receivable_id, ReceivableStatus::Collateralized);
        Ok(())
    }

    /// Releases a Collateralized receivable back to Active for the borrow
    /// engine `caller`.
    pub fn unlock(&mut self, caller: Address, receivable_id: u64) -> (r: Result<(), Error>)
        ensures
            match r {
                Ok(_) => {
                    &&& lock_error(old(self)@, caller, receivable_id, ReceivableStatus::Collateralized) is None
                    &&& final(self)@ == with_status(old(self)@, receivable_id, ReceivableStatus::Active)
                },
                Err(e) => {
                    &&& lock_error(old(self)@, caller, receivable_id, ReceivableStatus::Collateralized) == Some(e)
                    &&& final(self)@ == old(self)@
                },
            },
    {
        self.check_status(caller, receivable_id, ReceivableStatus::Collateralized)?;
        self.set_status(receivable_id, ReceivableStatus::Active);
        Ok(())
    }

    fn check_status(&self, caller: Address, receivable_id: u64, from: ReceivableStatus) -> (r: Result<(), Error>)
        ensures
            match lock_error(self@, caller, receivable_id, from) {
                Some(e) => r == Err::<(), Error>(e),
                None => r is Ok,
            },
    {
        if self.paused {
            return Err(Error::ContractPaused);
        }
        self.require_borrow_contract(caller)?;
        let rv = self.get_recv(receivable_id)?;
        if rv.status != from {
            return Err(Error::InvalidStatus);
        }
        Ok(())
    }

    /// Moves an Active receivable from `from`, its owner and the caller, to `to`.
    pub fn transfer(&mut self, caller: Address, receivable_id: u64, from: Address, to: Address) -> (r: Result<(), Error>)
        ensures
            match r {
                Ok(_) => {
                    let m = old(self)@;
                    &&& transfer_error(m, caller, receivable_id, from) is None
                    &&& final(self)@ == moved(m, receivable_id, from, to)
                },
                Err(e) => {
                    &&& transfer_error(old(self)@, caller, receivable_id, from) == Some(e)
                    &&& final(self)@ == old(self)@
                },
            },
    {
        if self.paused {
            return Err(Error::ContractPaused);
        }
        if caller != from {
            return Err(Error::NotAuthorized);
        }
        let rv = self.get_recv(receivable_id)?;
        if rv.owner != from {
            return Err(Error::NotOwner);
        }
        if rv.status != ReceivableStatus::Active {
            return Err(Error::TransferNotAllowed);
        }
        self.move_receivable(receivable_id, from, to);
        Ok(())
    }

    /// Hands receivable `receivable_id`, which exists, from `from` to `to`.
    fn move_receivable(&mut self, receivable_id: u64, from: Address, to: Address)
        requires
            lookup(old(self)@, receivable_id) is Some,
        ensures
            final(self)@ == moved(old(self)@, receivable_id, from, to),
    {
        let ghost m = self@;
        let from_list = match self.owner_index.remove(&from.id) {
            Some(l) => l,
            None => Vec::new(),
        };
        assert(from_list@ == ids_of(m.owner_index, from.id));
        let mut new_from: Vec<u64> = Vec::new();
        let mut i: usize = 0;
        while i < from_list.len()
            invariant
                i <= from_list.len(),
                new_from@ == from_list@.take(i as int).filter(other_than(receivable_id)),
            decreases from_list.len() - i,
        {
            let rid = from_list[i];
            proof {
                assert(from_list@.take(i + 1).drop_last() =~= from_list@.take(i as int));
                reveal(Seq::filter);
            }
            if rid != receivable_id {
                new_from.push(rid);
            }
            i = i + 1;
        }
        assert(from_list@.take(i as int) =~= from_list@);
        self.owner_index.insert(from.id, new_from);
        let ghost idx1 = self.owner_index@;
        assert(idx1.map_values(|v: Vec<u64>| v@) =~= m.owner_index.insert(
            from.id,
            ids_of(m.owner_index, from.id).filter(other_than(receivable_id)),
        ));
        let mut to_list = match self.owner_index.remove(&to.id) {
            Some(l) => l,
            None => Vec::new(),
        };
        to_list.push(receivable_id);
        self.owner_index.insert(to.id, to_list);
        assert(self.owner_index@.map_values(|v: Vec<u64>| v@) =~= index_after_transfer(
            m.owner_index,
            receivable_id,
            from,
            to,
        ));
        let n = self.receivables.len();
        let i: usize = (receivable_id - 1) as usize;
        self.receivables[i].owner = to;
        assert(self@.receivables =~= moved(m, receivable_id, from, to).receivables);
    }

    /// Marks an Active or Matured receivable Settled (administrator only).
    pub fn settle(&mut self, caller: Address, receivable_id: u64) -> (r: Result<(), Error>)
        ensures
            match r {
                Ok(_) => {
                    &&& admin_error(old(self)@, caller, receivable_id) is None
                    &&& lookup(old(self)@, receivable_id).unwrap().status == ReceivableStatus::Active
                        || lookup(old(self)@, receivable_id).unwrap().status == ReceivableStatus::Matured
                    &&& final(self)@ == (RegistryModel {
                        total_active: dec_sat(old(self)@.total_active),
                        ..with_status(old(self)@, receivable_id, ReceivableStatus::Settled)
                    })
                },
                Err(e) => {
                    &&& final(self)@ == old(self)@
                    &&& match admin_error(old(self)@, caller, receivable_id) {
                        Some(e0) => e == e0,
                        None => e == Error::InvalidStatus && lookup(old(self)@, receivable_id).unwrap().status
                            != ReceivableStatus::Active && lookup(old(self)@, receivable_id).unwrap().status
                            != ReceivableStatus::Matured,
                    }
                },
            },
    {
        self.check_admin(caller, receivable_id)?;
        let status = self.get_recv(receivable_id)?.status;
        if status != ReceivableStatus::Active && status != ReceivableStatus::Matured {
            return Err(Error::InvalidStatus);
        }
        self.set_status(receivable_id, ReceivableStatus::Settled);
        self.total_active = self.total_active.saturating_sub(1);
        Ok(())
    }

    /// Marks any receivable Defaulted (administrator only).
    pub fn mark_default(&mut self, caller: Address, receivable_id: u64) -> (r: Result<(), Error>)
        ensures
            match r {
                Ok(_) => {
                    &&& admin_error(old(self)@, caller, receivable_id) is None
                    &&& final(self)@ == (RegistryModel {
                        total_active: dec_sat(old(self)@.total_active),
                        ..with_status(old(self)@, receivable_id, ReceivableStatus::Defaulted)
                    })
                },
                Err(e) => {
                    &&& admin_error(old(self)@, caller, receivable_id) == Some(e)
                    &&& final(self)@ == old(self)@
                },
            },
    {
        self.check_admin(caller, receivable_id)?;
        self.set_status(receivable_id, ReceivableStatus::Defaulted);
        self.total_active = self.total_active.saturating_sub(1);
        Ok(())
    }

    fn check_admin(&self, caller: Address, receivable_id: u64) -> (r: Result<(), Error>)
        ensures
            match admin_error(self@, caller, receivable_id) {
                Some(e) => r == Err::<(), Error>(e),
                None => r is Ok,
            },
    {
        if self.paused {
            return Err(Error::ContractPaused);
        }
        if caller != self.admin {
            return Err(Error::NotAuthorized);
        }
        self.get_recv(receivable_id)?;
        Ok(())
    }

    pub fn get_recv(&self, receivable_id: u64) -> (r: Result<&Receivable, Error>)
        ensures
            match r {
                Ok(rv) => lookup(self@, receivable_id) == Some(*rv),
                Err(e) => lookup(self@, receivable_id) is None && e == Error::ReceivableNotFound,
            },
    {
        if receivable_id == 0 || receivable_id > self.receivables.len() as u64 {
            return Err(Error::ReceivableNotFound);
        }
        Ok(&self.receivables[(receivable_id - 1) as usize])
    }

    /// The ids `owner` holds, in the order acquired.
    pub fn get_owner(&self, owner: Address) -> (r: Vec<u64>)
        ensures
            r@ == ids_of(self@.owner_index, owner.id),
    {
        let mut r: Vec<u64> = Vec::new();
        match self.owner_index.get(&owner.id) {
            Some(list) => {
                let mut i: usize = 0;
                while i < list.len()
                    invariant
                        i <= list.len(),
                        r@ == list@.take(i as int),
                    decreases list.len() - i,
                {
                    r.push(list[i]);
                    i = i + 1;
                    assert(r@ =~= list@.take(i as int));
                }
                assert(list@.take(i as int) =~= list@);
            },
            None => {},
        }
        r
    }

    pub fn total_minted(&self) -> (r: u64)
        requires
            self@.receivables.len() <= u64::MAX,
        ensures
            r == self@.receivables.len(),
    {
        self.receivables.len() as u64
    }

    pub fn total_active(&self) -> (r: u64)
        ensures
            r == self@.total_active,
    {
        self.total_active
    }

    /// Stops minting, locking, unlocking, transfers, settlement and defaults.
    pub fn pause(&mut self, caller: Address) -> (r: Result<(), Error>)
        ensures
            r is Ok <==> caller == old(self)@.admin,
            r is Err ==> r == Err::<(), Error>(Error::NotAuthorized) && final(self)@ == old(self)@,
            r is Ok ==> final(self)@ == (RegistryModel { paused: true, ..old(self)@ }),
    {
        if caller != self.admin {
            return Err(Error::NotAuthorized);
        }
        self.paused = true;
        Ok(())
    }

    pub fn unpause(&mut self, caller: Address) -> (r: Result<(), Error>)
        ensures
            r is Ok <==> caller == old(self)@.admin,
            r is Err ==> r == Err::<(), Error>(Error::NotAuthorized) && final(self)@ == old(self)@,
            r is Ok ==> final(self)@ == (RegistryModel { paused: false, ..old(self)@ }),
    {
        if caller != self.admin {
            return Err(Error::NotAuthorized);
        }
        self.paused = false;
        Ok(())
    }

    /// Reports the error that a run over `ids` (see `batch_error`) would
    /// meet, changing nothing.
    pub fn check_batch(
        &self,
        caller: Address,
        ids: &Vec<u64>,
        from: ReceivableStatus,
        releasing: bool,
        owner: Address,
    ) -> (r: Result<(), Error>)
        ensures
            match batch_error(self@, caller, ids@, from, releasing, owner) {
                Some(e) => r == Err::<(), Error>(e),
                None => r is Ok,
            },
    {
        if ids.len() == 0 {
            return Ok(());
        }
        if self.paused {
            return Err(Error::ContractPaused);
        }
        self.require_borrow_contract(caller)?;
        let mut j: usize = 0;
        while j < ids.len()
            invariant
                j <= ids.len(),
                ids.len() > 0,
                batch_entry_error(self@, caller) is None,
                batch_item_error(self@, ids@.take(j as int), from, releasing, owner) is None,
            decreases ids.len() - j,
        {
            let id = ids[j];
            let ghost pre = ids@.take(j as int);
            assert(ids@.take(j + 1).drop_last() =~= pre);
            let mut k: usize = 0;
            let mut dup = false;
            while k < j
                invariant
                    k <= j < ids.len(),
                    id == ids@[j as int],
                    dup == (exists|i: int| 0 <= i < k && ids@[i] == id),
                decreases j - k,
            {
                if ids[k] == id {
                    dup = true;
                }
                k = k + 1;
            }
            assert(dup == pre.contains(id)) by {
                if dup {
                    let i = choose|i: int| 0 <= i < k && ids@[i] == id;
                    assert(pre[i] == id);
                }
                if pre.contains(id) {
                    let i = choose|i: int| 0 <= i < pre.len() && pre[i] == id;
                    assert(ids@[i] == id);
                }
            };
            let failure = match self.get_recv(id) {
                Err(e) => Some(e),
                Ok(rv) => if rv.status != from || dup {
                    Some(Error::InvalidStatus)
                } else if releasing && rv.owner != owner {
                    Some(Error::NotOwner)
                } else {
                    None
                },
            };
            if let Some(e) = failure {
                proof {
                    assert(ids@.take(j + 1).last() == id);
                    assert(batch_item_error(self@, ids@.take(j + 1), from, releasing, owner) == Some(e));
                    lemma_batch_error_sticks(self@, ids@, from, releasing, owner, j + 1);
                }
                return Err(e);
            }
            j = j + 1;
        }
        assert(ids@.take(j as int) =~= ids@);
        Ok(())
    }

    /// Locks every receivable of `ids` for the borrow engine `caller`, all or
    /// none.
    pub fn lock_all(&mut self, caller: Address, ids: &Vec<u64>) -> (r: Result<(), Error>)
        ensures
            match batch_error(old(self)@, caller, ids@, ReceivableStatus::Active, false, caller) {
                Some(e) => r == Err::<(), Error>(e) && final(self)@ == old(self)@,
                None => r is Ok && final(self)@ == with_status_all(old(self)@, ids@, ReceivableStatus::Collateralized),
            },
    {
        self.check_batch(caller, ids, ReceivableStatus::Active, false, caller)?;
        self.set_status_all(ids, ReceivableStatus::Active, ReceivableStatus::Collateralized, Ghost(caller));
        Ok(())
    }

    /// Unlocks every receivable of `ids` for the borrow engine `caller`, all
    /// or none.
    pub fn unlock_all(&mut self, caller: Address, ids: &Vec<u64>) -> (r: Result<(), Error>)
        ensures
            match batch_error(old(self)@, caller, ids@, ReceivableStatus::Collateralized, false, caller) {
                Some(e) => r == Err::<(), Error>(e) && final(self)@ == old(self)@,
                None => r is Ok && final(self)@ == with_status_all(old(self)@, ids@, ReceivableStatus::Active),
            },
    {
        self.check_batch(caller, ids, ReceivableStatus::Collateralized, false, caller)?;
        self.set_status_all(ids, ReceivableStatus::Collateralized, ReceivableStatus::Active, Ghost(caller));
        Ok(())
    }

    fn set_status_all(
        &mut self,
        ids: &Vec<u64>,
        from: ReceivableStatus,
        to: ReceivableStatus,
        caller: Ghost<Address>,
    )
        requires
            batch_item_error(old(self)@, ids@, from, false, caller@) is None,
        ensures
            final(self)@ == with_status_all(old(self)@, ids@, to),
    {
        let ghost m0 = self@;
        let mut j: usize = 0;
        while j < ids.len()
            invariant
                j <= ids.len(),
                batch_item_error(m0, ids@, from, false, caller@) is None,
                self@ == with_status_all(m0, ids@.take(j as int), to),
                self@.receivables.len() == m0.receivables.len(),
            decreases ids.len() - j,
        {
            proof {
                lemma_batch_items_found(m0, ids@, from, false, caller@, j as int);
                assert(ids@.take(j + 1).drop_last() =~= ids@.take(j as int));
            }
            self.set_status(ids[j], to);
            j = j + 1;
        }
        assert(ids@.take(j as int) =~= ids@);
    }

    /// Unlocks every receivable of `ids` and hands it from `from` to `to`,
    /// for the borrow engine `caller`, all or none.
    pub fn release_all(&mut self, caller: Address, ids: &Vec<u64>, from: Address, to: Address) -> (r: Result<(), Error>)
        ensures
            match batch_error(old(self)@, caller, ids@, ReceivableStatus::Collateralized, true, from) {
                Some(e) => r == Err::<(), Error>(e) && final(self)@ == old(self)@,
                None => r is Ok && final(self)@ == released_all(old(self)@, ids@, from, to),
            },
    {
        self.check_batch(caller, ids, ReceivableStatus::Collateralized, true, from)?;
        let ghost m0 = self@;
        let mut j: usize = 0;
        while j < ids.len()
            invariant
                j <= ids.len(),
                batch_item_error(m0, ids@, ReceivableStatus::Collateralized, true, from) is None,
                self@ == released_all(m0, ids@.take(j as int), from, to),
                self@.receivables.len() == m0.receivables.len(),
            decreases ids.len() - j,
        {
            proof {
                lemma_batch_items_found(m0, ids@, ReceivableStatus::Collateralized, true, from, j as int);
                assert(ids@.take(j + 1).drop_last() =~= ids@.take(j as int));
            }
            self.set_status(ids[j], ReceivableStatus::Active);
            self.move_receivable(ids[j], from, to);
            j = j + 1;
        }
        assert(ids@.take(j as int) =~= ids@);
        Ok(())
    }
}

} // verus!
