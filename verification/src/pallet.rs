//! The ledger: a balance store, the operations that change it, and the
//! reports of what was changed.

use crate::amount::Amount;
use crate::asset::{
    details_of, lemma_details_of, AccountId, AssetDetails, AssetId, AssetRecord, Event, Lifecycle,
};
use crate::balanced::{Balanced, Inspect, Mutate, Unbalanced};
use crate::consequence::{DepositConsequence, Error, WithdrawConsequence};
use crate::engine;
use crate::imbalance::{Credit, Debt, Imbalance};
use crate::laws::{
    lemma_burn_consistent, lemma_create_consistent, lemma_credit_consistent,
    lemma_debit_consistent, lemma_issue_consistent, lemma_opened,
    lemma_set_balance_consistent, lemma_set_total_issuance_consistent,
    lemma_transfer_consistent,
};
use crate::ledger::LedgerView;
use crate::store::BalanceStore;
use vstd::prelude::*;

verus! {

/// A ledger of many assets. It owns the balance store, and keeps what it
/// reports until the reports are taken from it.
#[derive(Debug)]
pub struct Pallet {
    store: BalanceStore,
    events: Vec<Event>,
    lifecycle: Vec<Lifecycle>,
}

impl View for Pallet {
    type V = LedgerView;

    closed spec fn view(&self) -> LedgerView {
        LedgerView { store: self.store@, events: self.events@, lifecycle: self.lifecycle@ }
    }
}

/// The assets that a ledger starts with.
#[derive(Debug)]
pub struct GenesisConfig {
    pub assets: Vec<AssetId>,
}

impl Default for GenesisConfig {
    /// No assets.
    fn default() -> (config: GenesisConfig)
        ensures
            config.assets@ == Seq::<AssetId>::empty(),
    {
        GenesisConfig { assets: Vec::new() }
    }
}

impl GenesisConfig {
    /// The ledger in which each of the assets was created in turn: it holds
    /// a record of no supply and no accounts for each of them, and nothing
    /// else. An asset that is listed more than once is created once.
    pub fn build(&self) -> (ledger: Pallet)
        ensures
            ledger@ == LedgerView::empty().opened_with(self.assets@),
            forall|id: AssetId| #[trigger]
                ledger@.store.assets.contains_key(id) <==> self.assets@.contains(id),
            forall|id: AssetId| #[trigger]
                ledger@.store.assets.contains_key(id) ==> ledger@.store.assets[id] == (
                AssetRecord { total_issuance: 0, account_count: 0 }),
            ledger@.store.balances == Map::<(AssetId, AccountId), nat>::empty(),
            ledger@.store.consistent(),
            ledger@.store.issuance_matches(),
    {
        let mut ledger = Pallet::new();
        let mut i: usize = 0;
        while i < self.assets.len()
            invariant
                i <= self.assets.len(),
                ledger@ == LedgerView::empty().opened_with(self.assets@.subrange(0, i as int)),
            decreases self.assets.len() - i,
        {
            proof {
                assert(self.assets@.subrange(0, i + 1).drop_last() == self.assets@.subrange(
                    0,
                    i as int,
                ));
            }
            let _ = ledger.do_create(self.assets[i]);
            i += 1;
        }
        proof {
            assert(self.assets@.subrange(0, i as int) == self.assets@);
            lemma_opened(self.assets@);
        }
        ledger
    }
}

impl Pallet {
    /// The record of an asset is the content of some details.
    pub proof fn lemma_record_held(&self, id: AssetId)
        requires
            self@.store.assets.contains_key(id),
        ensures
            details_of(self@.store.assets[id])@ == self@.store.assets[id],
    {
        self.store.lemma_record_held(id);
    }

    /// No balance is larger than the largest amount.
    pub proof fn lemma_balance_bounded(&self, id: AssetId, who: AccountId)
        ensures
            self@.store.balance(id, who) <= crate::amount::max_amount(),
    {
        self.store.lemma_balance_bounded(id, who);
    }

    /// A ledger that holds nothing and has reported nothing.
    pub fn new() -> (ledger: Pallet)
        ensures
            ledger@ == LedgerView::empty(),
            ledger@.store.consistent(),
            ledger@.store.issuance_matches(),
    {
        Pallet { store: BalanceStore::new(), events: Vec::new(), lifecycle: Vec::new() }
    }

    /// The events reported so far, oldest first.
    pub fn events(&self) -> (r: &Vec<Event>)
        ensures
            r@ == self@.events,
    {
        &self.events
    }

    /// The account lifecycle changes reported so far, oldest first.
    pub fn lifecycle(&self) -> (r: &Vec<Lifecycle>)
        ensures
            r@ == self@.lifecycle,
    {
        &self.lifecycle
    }

    /// Hands out the events reported so far, oldest first, and forgets
    /// them.
    pub fn take_events(&mut self) -> (r: Vec<Event>)
        ensures
            r@ == old(self)@.events,
            final(self)@ == (LedgerView {
                store: old(self)@.store,
                events: Seq::empty(),
                lifecycle: old(self)@.lifecycle,
            }),
    {
        let mut taken = Vec::new();
        std::mem::swap(&mut self.events, &mut taken);
        taken
    }

    /// Hands out the account lifecycle changes reported so far, oldest
    /// first, and forgets them.
    pub fn take_lifecycle(&mut self) -> (r: Vec<Lifecycle>)
        ensures
            r@ == old(self)@.lifecycle,
            final(self)@ == (LedgerView {
                store: old(self)@.store,
                events: old(self)@.events,
                lifecycle: Seq::empty(),
            }),
    {
        let mut taken = Vec::new();
        std::mem::swap(&mut self.lifecycle, &mut taken);
        taken
    }

    /// The record of the asset, where it has one.
    pub fn details(&self, id: AssetId) -> (r: Option<AssetDetails>)
        ensures
            crate::asset::record_of(r) == self@.store.asset(id),
    {
        self.store.get_asset(id)
    }

    /// Get the asset `id` balance of `who`.
    pub fn balance(&self, id: AssetId, who: &AccountId) -> (r: Amount)
        ensures
            r@ == self@.store.balance(id, *who),
    {
        self.store.get_balance(id, *who).balance
    }

    /// Get the supply of an asset `id`: zero where the asset has no record.
    pub fn supply(&self, id: AssetId) -> (r: Amount)
        ensures
            r@ == self@.store.total_issuance(id),
    {
        engine::supply(self.store.get_asset(id))
    }

    /// Gives the asset its record, of no supply and no accounts, and
    /// reports `Created`. Fails with `AlreadyExists`, and changes nothing,
    /// where the asset has a record.
    pub fn do_create(&mut self, id: AssetId) -> (r: Result<(), Error>)
        ensures
            r == old(self)@.create_result(id),
            final(self)@ == if r is Ok {
                old(self)@.after_create(id)
            } else {
                old(self)@
            },
            old(self)@.store.consistent() ==> final(self)@.store.consistent(),
            old(self)@.store.consistent() && old(self)@.store.issuance_matches()
                ==> final(self)@.store.issuance_matches(),
    {
        proof {
            if self@.store.consistent() && self@.create_result(id) is Ok {
                lemma_create_consistent(self@, id);
            }
        }
        let details = engine::create(self.store.get_asset(id))?;
        self.store.put_asset(id, details);
        self.events.push(Event::Created(id));
        Ok(())
    }

    /// Checks whether `amount` of the asset can be added to what `who`
    /// holds. Changes nothing.
    pub fn can_increase(&self, id: AssetId, who: &AccountId, amount: Amount) -> (r:
        DepositConsequence)
        ensures
            r == self@.store.can_deposit(id, *who, amount@),
    {
        engine::check_deposit(self.store.get_asset(id), self.store.get_balance(id, *who), amount)
    }

    /// Checks whether `amount` of the asset can be taken from what `who`
    /// holds. Changes nothing.
    pub fn can_decrease(&self, id: AssetId, who: &AccountId, amount: Amount) -> (r:
        WithdrawConsequence)
        ensures
            r == self@.store.can_withdraw(id, *who, amount@),
    {
        engine::check_withdraw(self.store.get_asset(id), self.store.get_balance(id, *who), amount)
    }

    /// Adds `amount` of the asset to what `who` holds.
    ///
    /// An amount of zero changes nothing and succeeds. Any other amount
    /// must be one that can be deposited; then `check` adjusts the record of
    /// the asset, `who` is counted and reported as created where it held
    /// nothing, and its balance grows by the amount. Whatever fails, the
    /// ledger stays as it was.
    pub fn increase_balance_with(
        &mut self,
        id: AssetId,
        who: &AccountId,
        amount: Amount,
        check: impl FnOnce(AssetDetails) -> Result<AssetDetails, Error>,
    ) -> (r: Result<(), Error>)
        requires
            forall|d: AssetDetails| call_requires(check, (d,)),
        ensures
            old(self)@.store.consistent() && (forall|d: AssetDetails, a: AssetDetails|
                call_ensures(check, (d,), Ok::<AssetDetails, Error>(a)) ==> a.accounts
                    == d.accounts) ==> final(self)@.store.consistent(),
            amount@ == 0 ==> r is Ok && final(self)@ == old(self)@,
            amount@ != 0 ==> match r {
                Ok(()) => {
                    &&& old(self)@.store.can_deposit(id, *who, amount@)
                        == DepositConsequence::Success
                    &&& exists|adjusted: AssetDetails|
                        {
                            &&& #[trigger] call_ensures(
                                check,
                                (details_of(old(self)@.store.assets[id]),),
                                Ok::<AssetDetails, Error>(adjusted),
                            )
                            &&& adjusted.accounts < u32::MAX || !old(self)@.store.creates(
                                id,
                                *who,
                            )
                            &&& final(self)@ == old(self)@.after_credit(
                                id,
                                *who,
                                amount@,
                                adjusted@,
                            )
                        }
                },
                Err(e) => {
                    &&& final(self)@ == old(self)@
                    &&& match old(self)@.store.can_deposit(id, *who, amount@).result() {
                        Err(refused) => e == refused,
                        Ok(()) => {
                            ||| call_ensures(
                                check,
                                (details_of(old(self)@.store.assets[id]),),
                                Err::<AssetDetails, Error>(e),
                            )
                            ||| exists|adjusted: AssetDetails|
                                {
                                    &&& #[trigger] call_ensures(
                                        check,
                                        (details_of(old(self)@.store.assets[id]),),
                                        Ok::<AssetDetails, Error>(adjusted),
                                    )
                                    &&& e == Error::Overflow
                                    &&& old(self)@.store.creates(id, *who)
                                    &&& adjusted.accounts == u32::MAX
                                }
                        },
                    }
                },
            },
    {
        let details = self.store.get_asset(id);
        let account = self.store.get_balance(id, *who);
        proof {
            if details is Some {
                lemma_details_of(details.unwrap());
            }
        }
        match engine::increase_balance(details, account, amount, check)? {
            Some(plan) => {
                self.store.put_asset(id, plan.details);
                self.store.put_balance(id, *who, plan.account);
                if plan.created {
                    self.lifecycle.push(Lifecycle::Created(*who));
                }
                proof {
                    let adjusted = choose|adjusted: AssetDetails|
                        {
                            &&& #[trigger] call_ensures(
                                check,
                                (details.unwrap(),),
                                Ok::<AssetDetails, Error>(adjusted),
                            )
                            &&& plan.adds(adjusted, account, amount@)
                        };
                    if adjusted.accounts == details.unwrap().accounts {
                        lemma_credit_consistent(old(self)@, id, *who, amount@, adjusted@);
                    }
                }
            },
            None => {},
        }
        Ok(())
    }

    /// Takes `amount` of the asset from what `who` holds, and returns the
    /// amount.
    ///
    /// An amount of zero changes nothing and succeeds. Any other amount
    /// must be one that can be withdrawn; then `check` adjusts the record
    /// of the asset and the balance of `who` shrinks by the amount; where
    /// nothing is left, the entry of `who` is removed and `who` is no longer
    /// counted and reported as removed. Whatever fails, the ledger stays as
    /// it was.
    pub fn decrease_balance_with(
        &mut self,
        id: AssetId,
        who: &AccountId,
        amount: Amount,
        check: impl FnOnce(AssetDetails) -> Result<AssetDetails, Error>,
    ) -> (r: Result<Amount, Error>)
        requires
            forall|d: AssetDetails| call_requires(check, (d,)),
        ensures
            old(self)@.store.consistent() && (forall|d: AssetDetails, a: AssetDetails|
                call_ensures(check, (d,), Ok::<AssetDetails, Error>(a)) ==> a.accounts
                    == d.accounts) ==> final(self)@.store.consistent(),
            amount@ == 0 ==> r == Ok::<Amount, Error>(amount) && final(self)@ == old(self)@,
            amount@ != 0 ==> match r {
                Ok(taken) => {
                    &&& taken == amount
                    &&& old(self)@.store.can_withdraw(id, *who, amount@)
                        == WithdrawConsequence::Success
                    &&& exists|adjusted: AssetDetails|
                        {
                            &&& #[trigger] call_ensures(
                                check,
                                (details_of(old(self)@.store.assets[id]),),
                                Ok::<AssetDetails, Error>(adjusted),
                            )
                            &&& final(self)@ == old(self)@.after_debit(
                                id,
                                *who,
                                amount@,
                                adjusted@,
                            )
                        }
                },
                Err(e) => {
                    &&& final(self)@ == old(self)@
                    &&& match old(self)@.store.can_withdraw(id, *who, amount@).result() {
                        Err(refused) => e == refused,
                        Ok(()) => call_ensures(
                            check,
                            (details_of(old(self)@.store.assets[id]),),
                            Err::<AssetDetails, Error>(e),
                        ),
                    }
                },
            },
    {
        let details = self.store.get_asset(id);
        let account = self.store.get_balance(id, *who);
        proof {
            if details is Some {
                lemma_details_of(details.unwrap());
            }
        }
        match engine::decrease_balance(details, account, amount, check)? {
            Some(plan) => {
                self.store.put_asset(id, plan.details);
                if plan.removed {
                    self.store.remove_balance(id, *who);
                    self.lifecycle.push(Lifecycle::Removed(*who));
                } else {
                    self.store.put_balance(id, *who, plan.account);
                }
                proof {
                    let adjusted = choose|adjusted: AssetDetails|
                        {
                            &&& #[trigger] call_ensures(
                                check,
                                (details.unwrap(),),
                                Ok::<AssetDetails, Error>(adjusted),
                            )
                            &&& plan.takes(adjusted, account, amount@)
                        };
                    if adjusted.accounts == details.unwrap().accounts {
                        lemma_debit_consistent(old(self)@, id, *who, amount@, adjusted@);
                    }
                }
            },
            None => {},
        }
        Ok(amount)
    }

    /// Issues `amount` of the asset to `who`: the balance of `who` and the
    /// total issuance grow by the amount, and `Issued` is reported.
    pub fn do_issue(&mut self, id: AssetId, who: &AccountId, amount: Amount) -> (r: Result<
        (),
        Error,
    >)
        ensures
            r == old(self)@.issue_result(id, *who, amount@),
            final(self)@ == old(self)@.after_issue(id, *who, amount),
            old(self)@.store.consistent() ==> final(self)@.store.consistent(),
            old(self)@.store.issuance_matches() ==> final(self)@.store.issuance_matches(),
    {
        proof {
            lemma_issue_consistent(self@, id, *who, amount);
        }
        let add = |details: AssetDetails| -> (o: Result<AssetDetails, Error>)
            ensures
                o is Ok,
                o.unwrap()@ == details.issued(amount@),
            { details.issue(amount) };
        proof {
            if self@.store.assets.contains_key(id) {
                self.lemma_record_held(id);
            }
        }
        self.increase_balance_with(id, who, amount, add)?;
        self.events.push(Event::Issued(id, *who, amount));
        Ok(())
    }

    /// Burns `amount` of the asset from `who`: the balance of `who` and the
    /// total issuance shrink by the amount, and `Burned` is reported.
    pub fn do_burn(&mut self, id: AssetId, who: &AccountId, amount: Amount) -> (r: Result<
        (),
        Error,
    >)
        ensures
            r == old(self)@.burn_result(id, *who, amount@),
            final(self)@ == old(self)@.after_burn(id, *who, amount),
            old(self)@.store.consistent() ==> final(self)@.store.consistent(),
            old(self)@.store.issuance_matches() ==> final(self)@.store.issuance_matches(),
    {
        proof {
            lemma_burn_consistent(self@, id, *who, amount);
        }
        let take = |details: AssetDetails| -> (o: Result<AssetDetails, Error>)
            ensures
                o is Ok,
                o.unwrap()@ == details.burned(amount@),
            { details.burn(amount) };
        proof {
            if self@.store.assets.contains_key(id) {
                self.lemma_record_held(id);
            }
        }
        self.decrease_balance_with(id, who, amount, take)?;
        self.events.push(Event::Burned(id, *who, amount));
        Ok(())
    }

    /// Moves `amount` of the asset from `source` to `dest`, and reports
    /// `Transferred`.
    ///
    /// Fails with `UnknownAsset` where the asset has no record, whatever
    /// the amount. A transfer of zero, and one from an account to itself,
    /// change no record and no balance. Any other amount must be one that
    /// `source` can give and `dest` can take. The total issuance stays as
    /// it is. Whatever fails, the ledger stays as it was.
    pub fn do_transfer(
        &mut self,
        id: AssetId,
        source: &AccountId,
        dest: &AccountId,
        amount: Amount,
    ) -> (r: Result<(), Error>)
        ensures
            r == old(self)@.transfer_result(id, *source, *dest, amount@),
            final(self)@ == old(self)@.after_transfer(id, *source, *dest, amount),
            old(self)@.store.consistent() ==> final(self)@.store.consistent(),
            old(self)@.store.issuance_matches() ==> final(self)@.store.issuance_matches(),
    {
        proof {
            lemma_transfer_consistent(self@, id, *source, *dest, amount);
        }
        let details = self.store.get_asset(id);
        let source_account = self.store.get_balance(id, *source);
        let dest_account = self.store.get_balance(id, *dest);
        let same = *source == *dest;
        match engine::transfer(details, same, source_account, dest_account, amount)? {
            Some(plan) => {
                self.store.put_balance(id, *dest, plan.dest);
                if plan.created {
                    self.lifecycle.push(Lifecycle::Created(*dest));
                }
                if plan.removed {
                    self.store.remove_balance(id, *source);
                    self.lifecycle.push(Lifecycle::Removed(*source));
                } else {
                    self.store.put_balance(id, *source, plan.source);
                }
                self.store.put_asset(id, plan.details);
            },
            None => {},
        }
        self.events.push(Event::Transferred(id, *source, *dest, amount));
        Ok(())
    }

    /// Moves `amount` of the asset from `who`, the account that asks for
    /// the transfer, to `dest`.
    pub fn transfer(&mut self, who: AccountId, id: AssetId, dest: AccountId, amount: Amount) -> (r:
        Result<(), Error>)
        ensures
            r == old(self)@.transfer_result(id, who, dest, amount@),
            final(self)@ == old(self)@.after_transfer(id, who, dest, amount),
            old(self)@.store.consistent() ==> final(self)@.store.consistent(),
            old(self)@.store.issuance_matches() ==> final(self)@.store.issuance_matches(),
    {
        self.do_transfer(id, &who, &dest, amount)?;
        Ok(())
    }
}

impl Inspect for Pallet {
    open spec fn ledger(&self) -> LedgerView {
        self@
    }

    fn balance(&self, asset: AssetId, who: &AccountId) -> (r: Amount) {
        Pallet::balance(self, asset, who)
    }

    fn total_issuance(&self, asset: AssetId) -> (r: Amount) {
        self.supply(asset)
    }

    fn can_deposit(&self, asset: AssetId, who: &AccountId, amount: Amount) -> (r:
        DepositConsequence) {
        self.can_increase(asset, who, amount)
    }

    fn can_withdraw(&self, asset: AssetId, who: &AccountId, amount: Amount) -> (r:
        WithdrawConsequence) {
        self.can_decrease(asset, who, amount)
    }
}

impl Mutate for Pallet {
    fn mint(&mut self, asset: AssetId, who: &AccountId, amount: Amount) -> (r: Result<(), Error>) {
        self.do_issue(asset, who, amount)
    }

    fn burn(&mut self, asset: AssetId, who: &AccountId, amount: Amount) -> (r: Result<(), Error>) {
        self.do_burn(asset, who, amount)
    }

    fn transfer(
        &mut self,
        asset: AssetId,
        source: &AccountId,
        dest: &AccountId,
        amount: Amount,
    ) -> (r: Result<(), Error>) {
        self.do_transfer(asset, source, dest, amount)
    }
}

impl Unbalanced for Pallet {
    fn set_balance(&mut self, asset: AssetId, who: &AccountId, amount: Amount) -> (r: Result<
        (),
        Error,
    >) {
        proof {
            if self@.set_balance_result(asset, *who, amount@) is Ok {
                lemma_set_balance_consistent(self@, asset, *who, amount@);
            }
        }
        let details = self.store.get_asset(asset);
        let account = self.store.get_balance(asset, *who);
        let plan = engine::set_balance(details, account, amount)?;
        self.store.put_asset(asset, plan.details);
        if plan.stored {
            self.store.put_balance(asset, *who, plan.account);
        } else {
            self.store.remove_balance(asset, *who);
        }
        if plan.created {
            self.lifecycle.push(Lifecycle::Created(*who));
        }
        if plan.removed {
            self.lifecycle.push(Lifecycle::Removed(*who));
        }
        Ok(())
    }

    fn set_total_issuance(&mut self, asset: AssetId, amount: Amount) {
        proof {
            lemma_set_total_issuance_consistent(self@, asset, amount@);
        }
        match engine::set_total_issuance(self.store.get_asset(asset), amount) {
            Some(details) => {
                self.store.put_asset(asset, details);
            },
            None => {},
        }
    }

    /// Reduce the `asset` balance of `who` by `amount`, by the rules of
    /// this ledger: an amount of zero changes nothing, any other must be
    /// one that can be withdrawn. The total issuance stays as it is.
    fn decrease_balance(&mut self, asset: AssetId, who: &AccountId, amount: Amount) -> (r: Result<
        Amount,
        Error,
    >)
        ensures
            match r {
                Ok(taken) => taken == amount && old(self)@.withdraw_result(asset, *who, amount@)
                    is Ok,
                Err(e) => old(self)@.withdraw_result(asset, *who, amount@) == Err::<(), Error>(e),
            },
            final(self)@ == old(self)@.after_withdraw(asset, *who, amount@),
    {
        let keep = |details: AssetDetails| -> (o: Result<AssetDetails, Error>)
            ensures
                o == Ok::<AssetDetails, Error>(details),
            { details.keep() };
        proof {
            if self@.store.assets.contains_key(asset) {
                self.lemma_record_held(asset);
            }
        }
        self.decrease_balance_with(asset, who, amount, keep)
    }

    /// Increase the `asset` balance of `who` by `amount`, by the rules of
    /// this ledger: an amount of zero changes nothing, any other must be
    /// one that can be deposited. The total issuance stays as it is.
    fn increase_balance(&mut self, asset: AssetId, who: &AccountId, amount: Amount) -> (r: Result<
        Amount,
        Error,
    >)
        ensures
            match r {
                Ok(added) => added == amount && old(self)@.deposit_result(asset, *who, amount@)
                    is Ok,
                Err(e) => old(self)@.deposit_result(asset, *who, amount@) == Err::<(), Error>(e),
            },
            final(self)@ == old(self)@.after_deposit(asset, *who, amount@),
    {
        let keep = |details: AssetDetails| -> (o: Result<AssetDetails, Error>)
            ensures
                o == Ok::<AssetDetails, Error>(details),
            { details.keep() };
        proof {
            if self@.store.assets.contains_key(asset) {
                self.lemma_record_held(asset);
            }
        }
        self.increase_balance_with(asset, who, amount, keep)?;
        Ok(amount)
    }
}

impl Balanced for Pallet {
    fn deposit(&mut self, asset: AssetId, who: &AccountId, amount: Amount) -> (r: Result<
        Debt,
        Error,
    >) {
        let increase = Unbalanced::increase_balance(self, asset, who, amount)?;
        Ok(Imbalance::new(asset, increase))
    }

    fn withdraw(&mut self, asset: AssetId, who: &AccountId, amount: Amount) -> (r: Result<
        Credit,
        Error,
    >) {
        let decrease = Unbalanced::decrease_balance(self, asset, who, amount)?;
        Ok(Imbalance::new(asset, decrease))
    }
}

} // verus!
