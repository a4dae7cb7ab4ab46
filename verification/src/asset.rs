//! The records of the ledger: what is kept for an asset and for an account,
//! and what the ledger reports to the outside.

use crate::amount::{amount_of, lemma_amount_of, Amount};
use crate::consequence::Error;
use vstd::prelude::*;

verus! {

/// Identifies an asset.
pub type AssetId = u64;

/// Identifies an account.
pub type AccountId = u64;

/// What the ledger keeps for an asset.
#[derive(Clone, Copy, PartialEq, Eq, Structural, Debug)]
pub struct AssetDetails {
    /// The total supply across all accounts.
    pub supply: Amount,
    /// The number of accounts that hold some of the asset.
    pub accounts: u32,
}

/// What the ledger keeps for an account that holds some of an asset.
#[derive(Clone, Copy, PartialEq, Eq, Structural, Debug)]
pub struct AssetBalance {
    pub balance: Amount,
}

/// The mathematical content of an [`AssetDetails`].
pub struct AssetRecord {
    pub total_issuance: nat,
    pub account_count: nat,
}

impl View for AssetDetails {
    type V = AssetRecord;

    open spec fn view(&self) -> AssetRecord {
        AssetRecord { total_issuance: self.supply@, account_count: self.accounts as nat }
    }
}

impl View for AssetBalance {
    type V = nat;

    open spec fn view(&self) -> nat {
        self.balance@
    }
}

/// The details that stand for `record`, for a record whose numbers fit.
pub open spec fn details_of(record: AssetRecord) -> AssetDetails {
    AssetDetails {
        supply: amount_of(record.total_issuance),
        accounts: record.account_count as u32,
    }
}

/// [`details_of`] gives back the details whose content it is handed.
pub proof fn lemma_details_of(details: AssetDetails)
    ensures
        details_of(details@) == details,
{
    lemma_amount_of(details.supply);
}

/// The content of the details, where there are any.
pub open spec fn record_of(details: Option<AssetDetails>) -> Option<AssetRecord> {
    match details {
        Some(d) => Some(d@),
        None => None,
    }
}

impl Default for AssetDetails {
    /// No supply and no accounts.
    fn default() -> (r: AssetDetails)
        ensures
            r@ == (AssetRecord { total_issuance: 0, account_count: 0 }),
    {
        AssetDetails { supply: Amount::zero(), accounts: 0 }
    }
}

impl Default for AssetBalance {
    /// A balance of zero.
    fn default() -> (r: AssetBalance)
        ensures
            r@ == 0,
    {
        AssetBalance { balance: Amount::zero() }
    }
}

impl AssetDetails {
    /// The details with `amount` added to the supply, which stays at the
    /// largest amount where the sum would pass it.
    pub open spec fn issued(self, amount: nat) -> AssetRecord {
        AssetRecord {
            total_issuance: crate::amount::saturating_sum(self@.total_issuance, amount),
            account_count: self@.account_count,
        }
    }

    /// The details with `amount` taken from the supply, which stays at zero
    /// where the amount is the larger.
    pub open spec fn burned(self, amount: nat) -> AssetRecord {
        AssetRecord {
            total_issuance: crate::amount::saturating_difference(self@.total_issuance, amount),
            account_count: self@.account_count,
        }
    }

    /// Adds `amount` to the supply.
    pub fn issue(self, amount: Amount) -> (r: Result<AssetDetails, Error>)
        ensures
            r is Ok,
            r.unwrap()@ == self.issued(amount@),
    {
        Ok(AssetDetails { supply: self.supply.saturating_add(amount), accounts: self.accounts })
    }

    /// Takes `amount` from the supply.
    pub fn burn(self, amount: Amount) -> (r: Result<AssetDetails, Error>)
        ensures
            r is Ok,
            r.unwrap()@ == self.burned(amount@),
    {
        Ok(AssetDetails { supply: self.supply.saturating_sub(amount), accounts: self.accounts })
    }

    /// Leaves the supply as it is.
    pub fn keep(self) -> (r: Result<AssetDetails, Error>)
        ensures
            r == Ok::<AssetDetails, Error>(self),
    {
        Ok(self)
    }

    /// Counts one more account.
    pub fn new_account(&mut self) -> (r: Result<(), Error>)
        ensures
            match r {
                Ok(()) => old(self).accounts < u32::MAX && *final(self) == (AssetDetails {
                    supply: old(self).supply,
                    accounts: (old(self).accounts + 1) as u32,
                }),
                Err(e) => e == Error::Overflow && old(self).accounts == u32::MAX && *final(self)
                    == *old(self),
            },
    {
        match self.accounts.checked_add(1) {
            Some(accounts) => {
                self.accounts = accounts;
                Ok(())
            },
            None => Err(Error::Overflow),
        }
    }

    /// Counts one account less; a count of zero stays.
    pub fn dead_account(&mut self)
        ensures
            final(self).supply == old(self).supply,
            final(self).accounts == if old(self).accounts == 0 {
                0
            } else {
                old(self).accounts - 1
            },
    {
        self.accounts = self.accounts.saturating_sub(1);
    }
}

/// What happened to the ledger, for whoever listens.
#[derive(Clone, Copy, PartialEq, Eq, Structural, Debug)]
pub enum Event {
    /// An asset got its record.
    Created(AssetId),
    /// An amount of an asset was issued to an account.
    Issued(AssetId, AccountId, Amount),
    /// An amount of an asset was burned from an account.
    Burned(AssetId, AccountId, Amount),
    /// An amount of an asset went from the first account to the second.
    Transferred(AssetId, AccountId, AccountId, Amount),
}

/// A change in whether an account holds an asset, for whoever counts the
/// references to accounts.
#[derive(Clone, Copy, PartialEq, Eq, Structural, Debug)]
pub enum Lifecycle {
    /// The account's balance of some asset went from zero to positive.
    Created(AccountId),
    /// The account's balance of some asset went from positive to zero.
    Removed(AccountId),
}

} // verus!
