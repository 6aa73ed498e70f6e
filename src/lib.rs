//! Collateralized lending over tokenized receivables: a registry of
//! receivables, a pooled lending vault with share accounting, and a borrow
//! engine that locks receivables as collateral, accrues simple interest and
//! liquidates unhealthy or overdue loans.
use vstd::prelude::*;

pub mod borrow;
pub mod math;
pub mod registry;
pub mod vault;

verus! {

/// Identity of an account or of a component, as handed over by the host
/// that has already checked its authorization.
#[derive(Clone, Copy, Debug, PartialEq, Eq, Structural, Hash)]
pub struct Address {
    pub id: u64,
}

impl Address {
    pub fn new(id: u64) -> (r: Address)
        ensures
            r.id == id,
    {
        Address { id }
    }
}

} // verus!
