//! Balances held by the parties that sign requests.

use vstd::prelude::*;
use crate::identity::Identity;

verus! {

/// A party's balance, in base currency units, under its identity.
#[derive(Clone, Copy, Debug, PartialEq, Eq)]
pub struct Account {
    pub key: Identity,
    pub lamports: u64,
}

impl Account {
    /// An account of `key` that holds `lamports`.
    pub fn new(key: Identity, lamports: u64) -> (account: Account)
        ensures
            account.key == key,
            account.lamports == lamports,
    {
        Account { key, lamports }
    }
}

} // verus!
