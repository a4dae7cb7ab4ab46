//! The balance store: the record of each asset and the balance of each
//! account, kept in memory.

use crate::amount::{lemma_amount_bounded, max_amount};
use crate::asset::{details_of, lemma_details_of, AccountId, AssetBalance, AssetDetails, AssetId};
use crate::ledger::Holdings;
use std::collections::HashMap;
use vstd::prelude::*;

verus! {

/// The key under which the entry of an account for an asset is kept: the
/// asset in the upper half, the account in the lower.
spec fn entry_key(id: AssetId, who: AccountId) -> u128 {
    (id as u128 * 0x1_0000_0000_0000_0000u128 + who as u128) as u128
}

/// The records of the assets and the entries of the accounts.
#[derive(Debug)]
pub struct BalanceStore {
    assets: HashMap<AssetId, AssetDetails>,
    accounts: HashMap<u128, AssetBalance>,
}

impl View for BalanceStore {
    type V = Holdings;

    closed spec fn view(&self) -> Holdings {
        Holdings {
            assets: Map::new(
                |id: AssetId| self.assets@.contains_key(id),
                |id: AssetId| self.assets@[id]@,
            ),
            balances: Map::new(
                |k: (AssetId, AccountId)| self.accounts@.contains_key(entry_key(k.0, k.1)),
                |k: (AssetId, AccountId)| self.accounts@[entry_key(k.0, k.1)]@,
            ),
        }
    }
}

proof fn lemma_entry_key_injective(id: AssetId, who: AccountId, id2: AssetId, who2: AccountId)
    requires
        entry_key(id, who) == entry_key(id2, who2),
    ensures
        id == id2,
        who == who2,
{
}

fn key_of(id: AssetId, who: AccountId) -> (k: u128)
    ensures
        k == entry_key(id, who),
{
    id as u128 * 0x1_0000_0000_0000_0000u128 + who as u128
}

impl BalanceStore {
    /// The record of an asset is the content of some details.
    pub proof fn lemma_record_held(&self, id: AssetId)
        requires
            self@.assets.contains_key(id),
        ensures
            details_of(self@.assets[id])@ == self@.assets[id],
    {
        lemma_details_of(self.assets@[id]);
    }

    /// No balance is larger than the largest amount.
    pub proof fn lemma_balance_bounded(&self, id: AssetId, who: AccountId)
        ensures
            self@.balance(id, who) <= max_amount(),
    {
        if self@.balances.contains_key((id, who)) {
            lemma_amount_bounded(self.accounts@[entry_key(id, who)].balance);
        }
    }

    /// A store that holds nothing.
    pub fn new() -> (store: BalanceStore)
        ensures
            store@ == Holdings::empty(),
    {
        BalanceStore { assets: HashMap::new(), accounts: HashMap::new() }
    }

    /// The record of the asset, where it has one.
    pub fn get_asset(&self, id: AssetId) -> (r: Option<AssetDetails>)
        ensures
            r is Some == self@.assets.contains_key(id),
            r is Some ==> r.unwrap()@ == self@.assets[id],
    {
        match self.assets.get(&id) {
            Some(details) => Some(*details),
            None => None,
        }
    }

    /// Whether the asset has a record.
    pub fn contains_asset(&self, id: AssetId) -> (r: bool)
        ensures
            r == self@.assets.contains_key(id),
    {
        self.assets.contains_key(&id)
    }

    /// Makes `details` the record of the asset.
    pub fn put_asset(&mut self, id: AssetId, details: AssetDetails)
        ensures
            final(self)@ == old(self)@.put_asset(id, details@),
    {
        self.assets.insert(id, details);
    }

    /// What the account holds of the asset: zero where it has no entry.
    pub fn get_balance(&self, id: AssetId, who: AccountId) -> (r: AssetBalance)
        ensures
            r@ == self@.balance(id, who),
    {
        let key = key_of(id, who);
        match self.accounts.get(&key) {
            Some(balance) => *balance,
            None => AssetBalance::default(),
        }
    }

    /// Makes `balance` the entry of the account for the asset.
    pub fn put_balance(&mut self, id: AssetId, who: AccountId, balance: AssetBalance)
        ensures
            final(self)@ == old(self)@.put_balance(id, who, balance@),
    {
        let key = key_of(id, who);
        self.accounts.insert(key, balance);
        proof {
            assert forall|k: (AssetId, AccountId)| k != (id, who) implies entry_key(k.0, k.1)
                != key by {
                if entry_key(k.0, k.1) == key {
                    lemma_entry_key_injective(k.0, k.1, id, who);
                }
            }
            assert(final(self)@.balances =~= old(self)@.balances.insert((id, who), balance@));
        }
    }

    /// Removes the entry of the account for the asset, where there is one.
    pub fn remove_balance(&mut self, id: AssetId, who: AccountId)
        ensures
            final(self)@ == old(self)@.remove_balance(id, who),
    {
        let key = key_of(id, who);
        self.accounts.remove(&key);
        proof {
            assert forall|k: (AssetId, AccountId)| k != (id, who) implies entry_key(k.0, k.1)
                != key by {
                if entry_key(k.0, k.1) == key {
                    lemma_entry_key_injective(k.0, k.1, id, who);
                }
            }
            assert(final(self)@.balances =~= old(self)@.balances.remove((id, who)));
        }
    }
}

} // verus!
