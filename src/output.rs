//! What is reported of each active account.

use crate::amount::Amount;
use vstd::prelude::*;

verus! {

/// The final snapshot of one client's account.
#[derive(Clone, Copy, Debug, PartialEq, Eq)]
pub struct OutputRow {
    pub client: u16,
    pub available: Amount,
    pub held: Amount,
    pub total: Amount,
    pub locked: bool,
}

} // verus!
