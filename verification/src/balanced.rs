//! The capabilities of a ledger: to be inspected, to be changed with the
//! total issuance kept in step, to be changed without, and to be changed
//! against imbalances.

use crate::amount::{max_amount, Amount};
use crate::asset::{AccountId, AssetId};
use crate::consequence::{DepositConsequence, Error, WithdrawConsequence};
use crate::imbalance::{Credit, Debt, Imbalance, SameOrOther};
use crate::ledger::LedgerView;
use vstd::prelude::*;

verus! {

/// A ledger that can be asked what it holds.
pub trait Inspect {
    /// The content of the ledger.
    spec fn ledger(&self) -> LedgerView;

    /// What `who` holds of the asset.
    fn balance(&self, asset: AssetId, who: &AccountId) -> (r: Amount)
        ensures
            r@ == self.ledger().store.balance(asset, *who),
    ;

    /// The total issuance of the asset: zero where it has no record.
    fn total_issuance(&self, asset: AssetId) -> (r: Amount)
        ensures
            r@ == self.ledger().store.total_issuance(asset),
    ;

    /// Whether `amount` of the asset can be added to what `who` holds.
    fn can_deposit(&self, asset: AssetId, who: &AccountId, amount: Amount) -> (r:
        DepositConsequence)
        ensures
            r == self.ledger().store.can_deposit(asset, *who, amount@),
    ;

    /// Whether `amount` of the asset can be taken from what `who` holds.
    fn can_withdraw(&self, asset: AssetId, who: &AccountId, amount: Amount) -> (r:
        WithdrawConsequence)
        ensures
            r == self.ledger().store.can_withdraw(asset, *who, amount@),
    ;
}

/// A ledger whose balances can be changed, with the total issuance kept in
/// step.
pub trait Mutate: Inspect {
    /// Issues `amount` of the asset to `who`.
    fn mint(&mut self, asset: AssetId, who: &AccountId, amount: Amount) -> (r: Result<(), Error>)
        ensures
            r == old(self).ledger().issue_result(asset, *who, amount@),
            final(self).ledger() == old(self).ledger().after_issue(asset, *who, amount),
            old(self).ledger().store.consistent() ==> final(self).ledger().store.consistent(),
            old(self).ledger().store.issuance_matches()
                ==> final(self).ledger().store.issuance_matches(),
    ;

    /// Burns `amount` of the asset from `who`.
    fn burn(&mut self, asset: AssetId, who: &AccountId, amount: Amount) -> (r: Result<(), Error>)
        ensures
            r == old(self).ledger().burn_result(asset, *who, amount@),
            final(self).ledger() == old(self).ledger().after_burn(asset, *who, amount),
            old(self).ledger().store.consistent() ==> final(self).ledger().store.consistent(),
            old(self).ledger().store.issuance_matches()
                ==> final(self).ledger().store.issuance_matches(),
    ;

    /// Moves `amount` of the asset from `source` to `dest`.
    fn transfer(
        &mut self,
        asset: AssetId,
        source: &AccountId,
        dest: &AccountId,
        amount: Amount,
    ) -> (r: Result<(), Error>)
        ensures
            r == old(self).ledger().transfer_result(asset, *source, *dest, amount@),
            final(self).ledger() == old(self).ledger().after_transfer(
                asset,
                *source,
                *dest,
                amount,
            ),
            old(self).ledger().store.consistent() ==> final(self).ledger().store.consistent(),
            old(self).ledger().store.issuance_matches()
                ==> final(self).ledger().store.issuance_matches(),
    ;
}

/// A ledger whose balances and total issuance can be changed one without
/// the other. Whoever does so has to see that the two agree in the end.
pub trait Unbalanced: Inspect {
    /// Set the `asset` balance of `who` to `amount`. Fails, and changes
    /// nothing, where the asset has no record or where `who` would become
    /// one holder too many.
    fn set_balance(&mut self, asset: AssetId, who: &AccountId, amount: Amount) -> (r: Result<
        (),
        Error,
    >)
        ensures
            r == old(self).ledger().set_balance_result(asset, *who, amount@),
            final(self).ledger() == if r is Ok {
                old(self).ledger().after_set_balance(asset, *who, amount@)
            } else {
                old(self).ledger()
            },
            old(self).ledger().store.consistent() ==> final(self).ledger().store.consistent(),
    ;

    /// Set the total issuance of `asset` to `amount`.
    fn set_total_issuance(&mut self, asset: AssetId, amount: Amount)
        ensures
            final(self).ledger() == old(self).ledger().after_set_total_issuance(asset, amount@),
            old(self).ledger().store.consistent() ==> final(self).ledger().store.consistent(),
    ;

    /// Reduce the `asset` balance of `who` by `amount`, and return what was
    /// taken. Where that cannot be done, the balance is not reduced at all.
    ///
    /// Whoever implements this decides when it fails. Whatever it does: what
    /// it takes is at least the amount and no more than `who` holds, the
    /// balance of `who` is reduced by what it takes while the total
    /// issuance and all other balances stay, and a failure changes neither
    /// a balance nor a total issuance.
    ///
    /// As given here, it fails with `NoFunds` where `who` holds less than
    /// the amount, and else sets the balance to what is left.
    fn decrease_balance(&mut self, asset: AssetId, who: &AccountId, amount: Amount) -> (r: Result<
        Amount,
        Error,
    >)
        ensures
            match r {
                Ok(taken) => {
                    &&& amount@ <= taken@ <= old(self).ledger().store.balance(asset, *who)
                    &&& final(self).ledger().store.holds_after_debit(
                        old(self).ledger().store,
                        asset,
                        *who,
                        taken@,
                    )
                },
                Err(_) => final(self).ledger().store.holds_as(old(self).ledger().store),
            },
            old(self).ledger().store.consistent() ==> final(self).ledger().store.consistent(),
        default_ensures
            r == (if old(self).ledger().store.balance(asset, *who) < amount@ {
                Err::<Amount, Error>(Error::NoFunds)
            } else {
                match old(self).ledger().set_balance_result(
                    asset,
                    *who,
                    (old(self).ledger().store.balance(asset, *who) - amount@) as nat,
                ) {
                    Err(e) => Err::<Amount, Error>(e),
                    Ok(()) => Ok::<Amount, Error>(amount),
                }
            }),
            final(self).ledger() == if r is Ok {
                old(self).ledger().after_set_balance(
                    asset,
                    *who,
                    (old(self).ledger().store.balance(asset, *who) - amount@) as nat,
                )
            } else {
                old(self).ledger()
            },
    {
        let old_balance = self.balance(asset, who);
        if old_balance.less_than(amount) {
            return Err(Error::NoFunds);
        }
        let new_balance = old_balance.minus(amount);
        self.set_balance(asset, who, new_balance)?;
        Ok(amount)
    }

    /// Increase the `asset` balance of `who` by `amount`, and return what
    /// was added. Where that cannot be done, the balance is not increased
    /// at all.
    ///
    /// Whoever implements this decides when it fails. Whatever it does: what
    /// it adds is the amount, the balance of `who` grows by it while the
    /// total issuance and all other balances stay, and a failure changes
    /// neither a balance nor a total issuance.
    ///
    /// As given here, it fails with `Overflow` where the balance would pass
    /// the largest amount, changes nothing for an amount of zero, and else
    /// sets the balance to the sum.
    fn increase_balance(&mut self, asset: AssetId, who: &AccountId, amount: Amount) -> (r: Result<
        Amount,
        Error,
    >)
        ensures
            match r {
                Ok(added) => {
                    &&& added == amount
                    &&& final(self).ledger().store.holds_after_credit(
                        old(self).ledger().store,
                        asset,
                        *who,
                        amount@,
                    )
                },
                Err(_) => final(self).ledger().store.holds_as(old(self).ledger().store),
            },
            old(self).ledger().store.consistent() ==> final(self).ledger().store.consistent(),
        default_ensures
            r == (if old(self).ledger().store.balance(asset, *who) + amount@ > max_amount() {
                Err::<Amount, Error>(Error::Overflow)
            } else if amount@ == 0 {
                Ok::<Amount, Error>(amount)
            } else {
                match old(self).ledger().set_balance_result(
                    asset,
                    *who,
                    old(self).ledger().store.balance(asset, *who) + amount@,
                ) {
                    Err(e) => Err::<Amount, Error>(e),
                    Ok(()) => Ok::<Amount, Error>(amount),
                }
            }),
            final(self).ledger() == if r is Ok && amount@ != 0 {
                old(self).ledger().after_set_balance(
                    asset,
                    *who,
                    old(self).ledger().store.balance(asset, *who) + amount@,
                )
            } else {
                old(self).ledger()
            },
    {
        let old_balance = self.balance(asset, who);
        let new_balance = match old_balance.checked_add(amount) {
            Some(sum) => sum,
            None => return Err(Error::Overflow),
        };
        if !old_balance.same(new_balance) {
            self.set_balance(asset, who, new_balance)?;
        }
        Ok(amount)
    }
}

/// A ledger whose balances can be changed against imbalances: each change
/// of a balance gives out, or takes in, an imbalance of the same amount,
/// and the total issuance is corrected only when an imbalance is
/// finalized.
pub trait Balanced: Unbalanced {
    /// Adds `amount` of the asset to what `who` holds and gives out the
    /// debt of that amount. The total issuance stays as it is.
    fn deposit(&mut self, asset: AssetId, who: &AccountId, amount: Amount) -> (r: Result<
        Debt,
        Error,
    >)
        ensures
            match r {
                Ok(debt) => {
                    &&& old(self).ledger().deposit_result(asset, *who, amount@) is Ok
                    &&& debt.asset_id() == asset
                    &&& debt.amount() == amount
                },
                Err(e) => old(self).ledger().deposit_result(asset, *who, amount@) == Err::<
                    (),
                    Error,
                >(e),
            },
            final(self).ledger() == old(self).ledger().after_deposit(asset, *who, amount@),
            old(self).ledger().store.consistent() ==> final(self).ledger().store.consistent(),
    ;

    /// Takes `amount` of the asset from what `who` holds and gives out the
    /// credit of that amount. The total issuance stays as it is.
    fn withdraw(&mut self, asset: AssetId, who: &AccountId, amount: Amount) -> (r: Result<
        Credit,
        Error,
    >)
        ensures
            match r {
                Ok(credit) => {
                    &&& old(self).ledger().withdraw_result(asset, *who, amount@) is Ok
                    &&& credit.asset_id() == asset
                    &&& credit.amount() == amount
                },
                Err(e) => old(self).ledger().withdraw_result(asset, *who, amount@) == Err::<
                    (),
                    Error,
                >(e),
            },
            final(self).ledger() == old(self).ledger().after_withdraw(asset, *who, amount@),
            old(self).ledger().store.consistent() ==> final(self).ledger().store.consistent(),
    ;

    /// The balance of `who` is increased in order to counter `credit`. If
    /// the whole of `credit` cannot be countered, then nothing is changed
    /// and the `credit` is handed back in an `Err`.
    ///
    /// The deposit gives out a debt of the amount of the credit, and the
    /// two cancel each other: neither is left to be finalized, and the
    /// total issuance stays as it is.
    fn resolve(&mut self, who: &AccountId, credit: Credit) -> (r: Result<(), Credit>)
        ensures
            match r {
                Ok(()) => old(self).ledger().deposit_result(
                    credit.asset_id(),
                    *who,
                    credit.amount()@,
                ) is Ok,
                Err(back) => {
                    &&& back == credit
                    &&& old(self).ledger().deposit_result(
                        credit.asset_id(),
                        *who,
                        credit.amount()@,
                    ) is Err
                },
            },
            final(self).ledger() == old(self).ledger().after_deposit(
                credit.asset_id(),
                *who,
                credit.amount()@,
            ),
            old(self).ledger().store.consistent() ==> final(self).ledger().store.consistent(),
    {
        let v = credit.peek();
        let debt = match self.deposit(credit.asset(), who, v) {
            Err(_) => return Err(credit),
            Ok(d) => d,
        };
        match credit.offset(debt) {
            Ok(result) => {
                let result = result.try_drop();
                assert(result is Ok);
            },
            Err(_) => {
                assert(false);
            },
        }
        Ok(())
    }

    /// The balance of `who` is decreased in order to counter `debt`. If the
    /// whole of `debt` cannot be countered, then nothing is changed and the
    /// `debt` is handed back in an `Err`.
    ///
    /// The withdrawal gives out a credit, which is set against the debt;
    /// what is left of the credit is returned. A withdrawal takes the
    /// amount it is asked for, so the two cancel each other and a credit
    /// of nothing is returned.
    fn settle(&mut self, who: &AccountId, debt: Debt) -> (r: Result<Credit, Debt>)
        ensures
            match r {
                Ok(dust) => {
                    &&& old(self).ledger().withdraw_result(
                        debt.asset_id(),
                        *who,
                        debt.amount()@,
                    ) is Ok
                    &&& dust.asset_id() == debt.asset_id()
                    &&& dust.amount()@ == 0
                },
                Err(back) => {
                    &&& back == debt
                    &&& old(self).ledger().withdraw_result(
                        debt.asset_id(),
                        *who,
                        debt.amount()@,
                    ) is Err
                },
            },
            final(self).ledger() == old(self).ledger().after_withdraw(
                debt.asset_id(),
                *who,
                debt.amount()@,
            ),
            old(self).ledger().store.consistent() ==> final(self).ledger().store.consistent(),
    {
        let amount = debt.peek();
        let asset = debt.asset();
        let credit = match self.withdraw(asset, who, amount) {
            Err(_) => return Err(debt),
            Ok(d) => d,
        };
        match credit.offset(debt) {
            Ok(SameOrOther::Neither) => Ok(Imbalance::zero(asset)),
            Ok(SameOrOther::Same(dust)) => Ok(dust),
            Ok(SameOrOther::Other(rest)) => Err(rest),
            Err(_) => Ok(Imbalance::zero(asset)),
        }
    }
}

} // verus!
