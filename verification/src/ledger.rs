//! The mathematical model of the ledger: which assets have a record, what
//! each account holds, and the sums that the ledger's invariants speak of.

use crate::amount::Amount;
use crate::asset::{AccountId, AssetId, AssetRecord, Event, Lifecycle};
use crate::consequence::{DepositConsequence, Error, WithdrawConsequence};
use crate::engine::{deposit_consequence, withdraw_consequence};
use vstd::prelude::*;

verus! {

/// The number of account identifiers: 2^64.
pub open spec fn account_ids() -> nat {
    0x1_0000_0000_0000_0000nat
}

/// The content of the balance store: the record of each asset that has one,
/// and the balance of each account that has an entry.
#[verifier::ext_equal]
pub struct Holdings {
    pub assets: Map<AssetId, AssetRecord>,
    pub balances: Map<(AssetId, AccountId), nat>,
}

impl Holdings {
    /// The store that holds nothing.
    pub open spec fn empty() -> Holdings {
        Holdings { assets: Map::empty(), balances: Map::empty() }
    }

    /// What `who` holds of the asset: zero where the account has no entry.
    pub open spec fn balance(self, id: AssetId, who: AccountId) -> nat {
        if self.balances.contains_key((id, who)) {
            self.balances[(id, who)]
        } else {
            0
        }
    }

    /// The total issuance of the asset: zero where the asset has no record.
    pub open spec fn total_issuance(self, id: AssetId) -> nat {
        if self.assets.contains_key(id) {
            self.assets[id].total_issuance
        } else {
            0
        }
    }

    /// The sum of what the accounts with an identifier below `n` hold of the
    /// asset.
    pub open spec fn held_below(self, id: AssetId, n: nat) -> nat
        decreases n,
    {
        if n == 0 {
            0
        } else {
            self.balance(id, (n - 1) as AccountId) + self.held_below(id, (n - 1) as nat)
        }
    }

    /// The sum over all accounts of what they hold of the asset.
    pub open spec fn total_held(self, id: AssetId) -> nat {
        self.held_below(id, account_ids())
    }

    /// The number of accounts with an identifier below `n` that hold some of
    /// the asset.
    pub open spec fn holders_below(self, id: AssetId, n: nat) -> nat
        decreases n,
    {
        if n == 0 {
            0
        } else {
            (if self.balance(id, (n - 1) as AccountId) > 0 {
                1nat
            } else {
                0nat
            }) + self.holders_below(id, (n - 1) as nat)
        }
    }

    /// The number of accounts that hold some of the asset.
    pub open spec fn holder_count(self, id: AssetId) -> nat {
        self.holders_below(id, account_ids())
    }

    /// The total issuance of every asset with a record is the sum of what
    /// the accounts hold of it.
    pub open spec fn issuance_matches(self) -> bool {
        forall|id: AssetId| #[trigger]
            self.assets.contains_key(id) ==> self.assets[id].total_issuance == self.total_held(
                id,
            )
    }

    /// The account count of every asset with a record is the number of
    /// accounts that hold some of it.
    pub open spec fn counts_match(self) -> bool {
        forall|id: AssetId| #[trigger]
            self.assets.contains_key(id) ==> self.assets[id].account_count == self.holder_count(
                id,
            )
    }

    /// No entry holds a balance of zero, and none is of an asset without a
    /// record.
    pub open spec fn entries_hold(self) -> bool {
        forall|id: AssetId, who: AccountId| #[trigger]
            self.balances.contains_key((id, who)) ==> self.balances[(id, who)] > 0
                && self.assets.contains_key(id)
    }

    /// The store is consistent: no entry holds a balance of zero or is of an
    /// asset without a record, and the account count of every asset is the
    /// number of accounts that hold some of it.
    pub open spec fn consistent(self) -> bool {
        self.entries_hold() && self.counts_match()
    }

    /// The store with `record` as the record of the asset.
    pub open spec fn put_asset(self, id: AssetId, record: AssetRecord) -> Holdings {
        Holdings { assets: self.assets.insert(id, record), balances: self.balances }
    }

    /// The store with an entry of `amount` for the account.
    pub open spec fn put_balance(self, id: AssetId, who: AccountId, amount: nat) -> Holdings {
        Holdings { assets: self.assets, balances: self.balances.insert((id, who), amount) }
    }

    /// The store without an entry for the account.
    pub open spec fn remove_balance(self, id: AssetId, who: AccountId) -> Holdings {
        Holdings { assets: self.assets, balances: self.balances.remove((id, who)) }
    }

    /// The store in which the account holds `amount`: with an entry of that
    /// amount, or with none where the amount is zero.
    pub open spec fn with_balance(self, id: AssetId, who: AccountId, amount: nat) -> Holdings {
        if amount == 0 {
            self.remove_balance(id, who)
        } else {
            self.put_balance(id, who, amount)
        }
    }

    /// The record of the asset, where it has one.
    pub open spec fn asset(self, id: AssetId) -> Option<AssetRecord> {
        if self.assets.contains_key(id) {
            Some(self.assets[id])
        } else {
            None
        }
    }

    /// Whether `amount` of the asset can be added to what `who` holds.
    pub open spec fn can_deposit(self, id: AssetId, who: AccountId, amount: nat) -> DepositConsequence {
        deposit_consequence(self.asset(id), self.balance(id, who), amount)
    }

    /// Whether `amount` of the asset can be taken from what `who` holds.
    pub open spec fn can_withdraw(self, id: AssetId, who: AccountId, amount: nat) -> WithdrawConsequence {
        withdraw_consequence(self.asset(id), self.balance(id, who), amount)
    }

    /// Whether a credit of the asset to `who` makes `who` a holder.
    pub open spec fn creates(self, id: AssetId, who: AccountId) -> bool {
        self.balance(id, who) == 0
    }

    /// Whether a debit of `amount` of the asset leaves `who` with nothing.
    pub open spec fn removes(self, id: AssetId, who: AccountId, amount: nat) -> bool {
        self.balance(id, who) <= amount
    }

    /// The store after `amount` of the asset was added to what `who` holds,
    /// with `adjusted` as the record of the asset before `who` is counted.
    pub open spec fn credited(
        self,
        id: AssetId,
        who: AccountId,
        amount: nat,
        adjusted: AssetRecord,
    ) -> Holdings {
        self.put_asset(
            id,
            AssetRecord {
                total_issuance: adjusted.total_issuance,
                account_count: if self.creates(id, who) {
                    adjusted.account_count + 1
                } else {
                    adjusted.account_count
                },
            },
        ).put_balance(id, who, self.balance(id, who) + amount)
    }

    /// The store after `amount` of the asset was taken from what `who`
    /// holds, with `adjusted` as the record of the asset before `who` is no
    /// longer counted.
    pub open spec fn debited(
        self,
        id: AssetId,
        who: AccountId,
        amount: nat,
        adjusted: AssetRecord,
    ) -> Holdings {
        self.put_asset(
            id,
            AssetRecord {
                total_issuance: adjusted.total_issuance,
                account_count: if self.removes(id, who, amount) && adjusted.account_count > 0 {
                    (adjusted.account_count - 1) as nat
                } else {
                    adjusted.account_count
                },
            },
        ).with_balance(id, who, (self.balance(id, who) - amount) as nat)
    }

    /// The store after `amount` of the asset went from `source` to `dest`,
    /// two accounts.
    pub open spec fn moved(
        self,
        id: AssetId,
        source: AccountId,
        dest: AccountId,
        amount: nat,
    ) -> Holdings {
        let counted = if self.creates(id, dest) {
            self.assets[id].account_count + 1
        } else {
            self.assets[id].account_count
        };
        self.put_balance(id, dest, self.balance(id, dest) + amount).with_balance(
            id,
            source,
            (self.balance(id, source) - amount) as nat,
        ).put_asset(
            id,
            AssetRecord {
                total_issuance: self.assets[id].total_issuance,
                account_count: if self.removes(id, source, amount) && counted > 0 {
                    (counted - 1) as nat
                } else {
                    counted
                },
            },
        )
    }

    /// This store holds what `before` holds: every balance and every total
    /// issuance is the same.
    pub open spec fn holds_as(self, before: Holdings) -> bool {
        &&& forall|id: AssetId, w: AccountId| #[trigger]
            self.balance(id, w) == before.balance(id, w)
        &&& forall|id: AssetId| #[trigger] self.total_issuance(id) == before.total_issuance(id)
    }

    /// This store holds what `before` holds, but for `who`, who holds
    /// `amount` more of the asset.
    pub open spec fn holds_after_credit(
        self,
        before: Holdings,
        asset: AssetId,
        who: AccountId,
        amount: nat,
    ) -> bool {
        &&& self.balance(asset, who) == before.balance(asset, who) + amount
        &&& forall|id: AssetId, w: AccountId|
            (id != asset || w != who) ==> #[trigger] self.balance(id, w) == before.balance(id, w)
        &&& forall|id: AssetId| #[trigger] self.total_issuance(id) == before.total_issuance(id)
    }

    /// This store holds what `before` holds, but for `who`, who holds
    /// `amount` less of the asset.
    pub open spec fn holds_after_debit(
        self,
        before: Holdings,
        asset: AssetId,
        who: AccountId,
        amount: nat,
    ) -> bool {
        &&& self.balance(asset, who) + amount == before.balance(asset, who)
        &&& forall|id: AssetId, w: AccountId|
            (id != asset || w != who) ==> #[trigger] self.balance(id, w) == before.balance(id, w)
        &&& forall|id: AssetId| #[trigger] self.total_issuance(id) == before.total_issuance(id)
    }

    /// Every account holds the same of the asset in both stores.
    pub open spec fn same_holdings(self, other: Holdings, id: AssetId) -> bool {
        forall|w: AccountId| #[trigger] self.balance(id, w) == other.balance(id, w)
    }

    /// Every account but `who` holds the same of the asset in both stores.
    pub open spec fn same_holdings_but(self, other: Holdings, id: AssetId, who: AccountId) -> bool {
        forall|w: AccountId| w != who ==> #[trigger] self.balance(id, w) == other.balance(id, w)
    }
}

/// Between two stores that differ for one account at most, the sums below
/// `n` differ by what that account's balance differs, and the counts by
/// whether it holds anything.
pub proof fn lemma_below_change(s: Holdings, t: Holdings, id: AssetId, who: AccountId, n: nat)
    requires
        n <= account_ids(),
        s.same_holdings_but(t, id, who),
    ensures
        who < n ==> t.held_below(id, n) + s.balance(id, who) == s.held_below(id, n) + t.balance(
            id,
            who,
        ),
        who >= n ==> t.held_below(id, n) == s.held_below(id, n),
        who < n ==> t.holders_below(id, n) + (if s.balance(id, who) > 0 {
            1nat
        } else {
            0nat
        }) == s.holders_below(id, n) + (if t.balance(id, who) > 0 {
            1nat
        } else {
            0nat
        }),
        who >= n ==> t.holders_below(id, n) == s.holders_below(id, n),
    decreases n,
{
    if n > 0 {
        lemma_below_change(s, t, id, who, (n - 1) as nat);
        let w = (n - 1) as AccountId;
        if w != who {
            assert(s.balance(id, w) == t.balance(id, w));
        }
    }
}

/// Between two stores that differ, for the asset, in what `who` holds at
/// most: the sum of the holdings changes by what the balance of `who`
/// changes, and the number of holders by whether `who` is one.
pub proof fn lemma_holdings_change(s: Holdings, t: Holdings, id: AssetId, who: AccountId)
    requires
        s.same_holdings_but(t, id, who),
    ensures
        t.total_held(id) + s.balance(id, who) == s.total_held(id) + t.balance(id, who),
        t.holder_count(id) + (if s.balance(id, who) > 0 {
            1nat
        } else {
            0nat
        }) == s.holder_count(id) + (if t.balance(id, who) > 0 {
            1nat
        } else {
            0nat
        }),
{
    lemma_below_change(s, t, id, who, account_ids());
}

/// Two stores in which every account holds the same of the asset have the
/// same sum of holdings and the same number of holders.
pub proof fn lemma_holdings_same(s: Holdings, t: Holdings, id: AssetId)
    requires
        s.same_holdings(t, id),
    ensures
        t.total_held(id) == s.total_held(id),
        t.holder_count(id) == s.holder_count(id),
{
    assert(s.same_holdings_but(t, id, 0)) by {
        assert forall|w: AccountId| w != 0 implies #[trigger] s.balance(id, w) == t.balance(
            id,
            w,
        ) by {}
    }
    lemma_holdings_change(s, t, id, 0);
    assert(s.balance(id, 0) == t.balance(id, 0));
}

/// The content of the ledger: the balance store, the events reported so far
/// and the account lifecycle changes reported so far, oldest first.
#[verifier::ext_equal]
pub struct LedgerView {
    pub store: Holdings,
    pub events: Seq<Event>,
    pub lifecycle: Seq<Lifecycle>,
}

impl LedgerView {
    /// The ledger with another store and the same reports.
    pub open spec fn with_store(self, store: Holdings) -> LedgerView {
        LedgerView { store, events: self.events, lifecycle: self.lifecycle }
    }

    /// The ledger after it reported `event`.
    pub open spec fn emit(self, event: Event) -> LedgerView {
        LedgerView { store: self.store, events: self.events.push(event), lifecycle: self.lifecycle }
    }

    /// The ledger after it reported `change`.
    pub open spec fn notify(self, change: Lifecycle) -> LedgerView {
        LedgerView {
            store: self.store,
            events: self.events,
            lifecycle: self.lifecycle.push(change),
        }
    }

    /// The ledger after it reported `change`, where `happened`.
    pub open spec fn notify_if(self, happened: bool, change: Lifecycle) -> LedgerView {
        if happened {
            self.notify(change)
        } else {
            self
        }
    }

    /// The ledger that holds nothing and has reported nothing.
    pub open spec fn empty() -> LedgerView {
        LedgerView { store: Holdings::empty(), events: Seq::empty(), lifecycle: Seq::empty() }
    }

    /// The ledger after each of the assets was created in turn. An asset
    /// that is listed again is passed over.
    pub open spec fn opened_with(self, assets: Seq<AssetId>) -> LedgerView
        decreases assets.len(),
    {
        if assets.len() == 0 {
            self
        } else {
            let before = self.opened_with(assets.drop_last());
            if before.create_result(assets.last()) is Ok {
                before.after_create(assets.last())
            } else {
                before
            }
        }
    }

    /// Whether the asset can get a record: it must have none.
    pub open spec fn create_result(self, id: AssetId) -> Result<(), Error> {
        if self.store.assets.contains_key(id) {
            Err(Error::AlreadyExists)
        } else {
            Ok(())
        }
    }

    /// The ledger after the asset got its record, of no supply and no
    /// accounts.
    pub open spec fn after_create(self, id: AssetId) -> LedgerView {
        self.with_store(
            self.store.put_asset(id, AssetRecord { total_issuance: 0, account_count: 0 }),
        ).emit(Event::Created(id))
    }

    /// The ledger after `amount` of the asset was added to what `who` holds,
    /// with `adjusted` as the record of the asset before `who` is counted.
    pub open spec fn after_credit(
        self,
        id: AssetId,
        who: AccountId,
        amount: nat,
        adjusted: AssetRecord,
    ) -> LedgerView {
        self.with_store(self.store.credited(id, who, amount, adjusted)).notify_if(
            self.store.creates(id, who),
            Lifecycle::Created(who),
        )
    }

    /// The ledger after `amount` of the asset was taken from what `who`
    /// holds, with `adjusted` as the record of the asset before `who` is no
    /// longer counted.
    pub open spec fn after_debit(
        self,
        id: AssetId,
        who: AccountId,
        amount: nat,
        adjusted: AssetRecord,
    ) -> LedgerView {
        self.with_store(self.store.debited(id, who, amount, adjusted)).notify_if(
            self.store.removes(id, who, amount),
            Lifecycle::Removed(who),
        )
    }

    /// Whether what `who` holds of the asset can be set to `amount`: the
    /// asset must have a record, and where `who` becomes a holder the
    /// account count must have room for one more.
    pub open spec fn set_balance_result(self, id: AssetId, who: AccountId, amount: nat) -> Result<
        (),
        Error,
    > {
        if !self.store.assets.contains_key(id) {
            Err(Error::UnknownAsset)
        } else if self.store.creates(id, who) && amount > 0
            && self.store.assets[id].account_count >= u32::MAX {
            Err(Error::Overflow)
        } else {
            Ok(())
        }
    }

    /// The ledger after what `who` holds of the asset was set to `amount`:
    /// an account that becomes a holder is counted and reported as created,
    /// one that is left with nothing is no longer counted and reported as
    /// removed. The total issuance stays as it is.
    pub open spec fn after_set_balance(self, id: AssetId, who: AccountId, amount: nat) -> LedgerView {
        let created = self.store.creates(id, who) && amount > 0;
        let removed = !self.store.creates(id, who) && amount == 0;
        let record = self.store.assets[id];
        self.with_store(
            self.store.put_asset(
                id,
                AssetRecord {
                    total_issuance: record.total_issuance,
                    account_count: if created {
                        record.account_count + 1
                    } else if removed && record.account_count > 0 {
                        (record.account_count - 1) as nat
                    } else {
                        record.account_count
                    },
                },
            ).with_balance(id, who, amount),
        ).notify_if(created, Lifecycle::Created(who)).notify_if(removed, Lifecycle::Removed(who))
    }

    /// The ledger after the total issuance of the asset was set to
    /// `amount`: as it was, where the asset has no record.
    pub open spec fn after_set_total_issuance(self, id: AssetId, amount: nat) -> LedgerView {
        if self.store.assets.contains_key(id) {
            self.with_store(
                self.store.put_asset(
                    id,
                    AssetRecord {
                        total_issuance: amount,
                        account_count: self.store.assets[id].account_count,
                    },
                ),
            )
        } else {
            self
        }
    }

    /// Whether `amount` of the asset can be added to what `who` holds, the
    /// total issuance left as it is: an amount of zero always, any other
    /// where it can be deposited.
    pub open spec fn deposit_result(self, id: AssetId, who: AccountId, amount: nat) -> Result<
        (),
        Error,
    > {
        if amount == 0 {
            Ok(())
        } else {
            self.store.can_deposit(id, who, amount).result()
        }
    }

    /// The ledger after a deposit of `amount` of the asset to `who`: the
    /// balance grows by the amount, the total issuance stays. A deposit
    /// that fails, and one of zero, change nothing.
    pub open spec fn after_deposit(self, id: AssetId, who: AccountId, amount: nat) -> LedgerView {
        if self.deposit_result(id, who, amount) is Err || amount == 0 {
            self
        } else {
            self.after_credit(id, who, amount, self.store.assets[id])
        }
    }

    /// Whether `amount` of the asset can be taken from what `who` holds,
    /// the total issuance left as it is: an amount of zero always, any
    /// other where it can be withdrawn.
    pub open spec fn withdraw_result(self, id: AssetId, who: AccountId, amount: nat) -> Result<
        (),
        Error,
    > {
        if amount == 0 {
            Ok(())
        } else {
            self.store.can_withdraw(id, who, amount).result()
        }
    }

    /// The ledger after a withdrawal of `amount` of the asset from `who`:
    /// the balance shrinks by the amount, the total issuance stays. A
    /// withdrawal that fails, and one of zero, change nothing.
    pub open spec fn after_withdraw(self, id: AssetId, who: AccountId, amount: nat) -> LedgerView {
        if self.withdraw_result(id, who, amount) is Err || amount == 0 {
            self
        } else {
            self.after_debit(id, who, amount, self.store.assets[id])
        }
    }

    /// Whether `amount` of the asset can be issued to `who`: an amount of
    /// zero always, any other where it can be deposited.
    pub open spec fn issue_result(self, id: AssetId, who: AccountId, amount: nat) -> Result<
        (),
        Error,
    > {
        if amount == 0 {
            Ok(())
        } else {
            self.store.can_deposit(id, who, amount).result()
        }
    }

    /// The ledger after `amount` of the asset was issued to `who`: the
    /// balance and the total issuance grow by the amount.
    pub open spec fn after_issue(self, id: AssetId, who: AccountId, amount: Amount) -> LedgerView {
        if self.issue_result(id, who, amount@) is Err {
            self
        } else if amount@ == 0 {
            self.emit(Event::Issued(id, who, amount))
        } else {
            self.after_credit(
                id,
                who,
                amount@,
                AssetRecord {
                    total_issuance: self.store.assets[id].total_issuance + amount@,
                    account_count: self.store.assets[id].account_count,
                },
            ).emit(Event::Issued(id, who, amount))
        }
    }

    /// Whether `amount` of the asset can be burned from `who`: an amount of
    /// zero always, any other where it can be withdrawn.
    pub open spec fn burn_result(self, id: AssetId, who: AccountId, amount: nat) -> Result<
        (),
        Error,
    > {
        if amount == 0 {
            Ok(())
        } else {
            self.store.can_withdraw(id, who, amount).result()
        }
    }

    /// The ledger after `amount` of the asset was burned from `who`: the
    /// balance and the total issuance shrink by the amount.
    pub open spec fn after_burn(self, id: AssetId, who: AccountId, amount: Amount) -> LedgerView {
        if self.burn_result(id, who, amount@) is Err {
            self
        } else if amount@ == 0 {
            self.emit(Event::Burned(id, who, amount))
        } else {
            self.after_debit(
                id,
                who,
                amount@,
                AssetRecord {
                    total_issuance: (self.store.assets[id].total_issuance - amount@) as nat,
                    account_count: self.store.assets[id].account_count,
                },
            ).emit(Event::Burned(id, who, amount))
        }
    }

    /// Whether `amount` of the asset can go from `source` to `dest`. The
    /// asset must have a record, whatever the amount. An amount of zero and
    /// a transfer from an account to itself are then in order; any other
    /// must be one that `source` can give and then one that `dest` can take.
    pub open spec fn transfer_result(
        self,
        id: AssetId,
        source: AccountId,
        dest: AccountId,
        amount: nat,
    ) -> Result<(), Error> {
        if !self.store.assets.contains_key(id) {
            Err(Error::UnknownAsset)
        } else if amount == 0 || source == dest {
            Ok(())
        } else {
            match self.store.can_withdraw(id, source, amount).result() {
                Err(e) => Err(e),
                Ok(()) => self.store.can_deposit(id, dest, amount).result(),
            }
        }
    }

    /// The ledger after a transfer of `amount` of the asset from `source`
    /// to `dest`. A transfer that fails changes nothing. One of zero, or
    /// from an account to itself, changes no record and no balance. Every
    /// transfer that does not fail is reported.
    pub open spec fn after_transfer(
        self,
        id: AssetId,
        source: AccountId,
        dest: AccountId,
        amount: Amount,
    ) -> LedgerView {
        if self.transfer_result(id, source, dest, amount@) is Err {
            self
        } else if amount@ == 0 || source == dest {
            self.emit(Event::Transferred(id, source, dest, amount))
        } else {
            self.with_store(self.store.moved(id, source, dest, amount@)).notify_if(
                self.store.creates(id, dest),
                Lifecycle::Created(dest),
            ).notify_if(self.store.removes(id, source, amount@), Lifecycle::Removed(source)).emit(
                Event::Transferred(id, source, dest, amount),
            )
        }
    }
}

} // verus!
