//! Per-user records an issuing component keeps for its registered accounts.

use crate::amount::Amount;
use vstd::prelude::*;

verus! {

/// A registered user's numeric identity.
#[derive(Clone, Copy, Debug, PartialEq, Eq, Structural)]
pub struct UserId(pub u64);

/// The address of a user's account component on the ledger.
#[derive(Clone, Copy, Debug, PartialEq, Eq, Structural)]
pub struct AccountAddress {
    pub raw: u64,
}

/// What is recorded about a user at registration and never changed.
#[derive(Clone, Copy, Debug)]
pub struct UserData {
    pub user_id: UserId,
    pub user_account: AccountAddress,
    pub created_at: u64,
}

/// The part of a user's record that administrators may update.
#[derive(Clone, Copy, Debug)]
pub struct UserMutableData {
    pub is_blacklisted: bool,
    pub wrapped_exchange_limit: Amount,
}

impl UserMutableData {
    /// Replaces the user's wrapped-exchange limit.
    pub fn set_wrapped_exchange_limit(&mut self, limit: Amount)
        ensures
            final(self).wrapped_exchange_limit == limit,
            final(self).is_blacklisted == old(self).is_blacklisted,
    {
        self.wrapped_exchange_limit = limit;
    }
}

impl Default for UserMutableData {
    /// A fresh record: not blacklisted, with the starting exchange limit.
    fn default() -> (r: UserMutableData)
        ensures
            !r.is_blacklisted,
            r.wrapped_exchange_limit@ == 1000,
    {
        UserMutableData { is_blacklisted: false, wrapped_exchange_limit: Amount::new(1000) }
    }
}

} // verus!
