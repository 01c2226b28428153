//! The balance record of one client.

use crate::amount::{spec_difference, spec_zero, Amount};
use vstd::prelude::*;

verus! {

/// Funds of one client. `total` includes the `held` funds; what the client
/// may withdraw is `total - held`.
#[derive(Clone, Copy, Debug, PartialEq, Eq)]
pub struct Account {
    pub total: Amount,
    pub held: Amount,
    /// Set by a chargeback; a locked account takes no further records.
    pub is_locked: bool,
    /// Set once a record for this client has been taken up; only such
    /// accounts are reported.
    pub has_activity: bool,
}

impl Account {
    /// A client with no funds and no records yet.
    pub open spec fn spec_inactive() -> Account {
        Account { total: spec_zero(), held: spec_zero(), is_locked: false, has_activity: false }
    }

    /// The funds available for withdrawal, `None` where the exact
    /// difference cannot be held.
    pub open spec fn spec_available(self) -> Option<Amount> {
        spec_difference(self.total, self.held)
    }

    /// `total - held`, where it can be held exactly.
    pub fn get_available(&self) -> (r: Option<Amount>)
        ensures
            r == self.spec_available(),
    {
        self.total.checked_sub(self.held)
    }
}

impl Default for Account {
    fn default() -> (r: Account)
        ensures
            r == Account::spec_inactive(),
    {
        Account {
            total: Amount::zero(),
            held: Amount::zero(),
            is_locked: false,
            has_activity: false,
        }
    }
}

} // verus!
