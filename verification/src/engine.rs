//! The rules of a balance change, on the records that the change reads and
//! writes. Nothing here touches a store: each function takes the records as
//! they are and returns what is to be written.

use crate::amount::{max_amount, saturating_difference, saturating_sum, Amount};
use crate::asset::{record_of, AssetBalance, AssetDetails, AssetRecord};
use crate::consequence::{DepositConsequence, Error, WithdrawConsequence};
use vstd::prelude::*;

verus! {

/// Whether `amount` can be added to an account with `balance`, for an asset
/// with the record `details`.
pub open spec fn deposit_consequence(
    details: Option<AssetRecord>,
    balance: nat,
    amount: nat,
) -> DepositConsequence {
    match details {
        None => DepositConsequence::UnknownAsset,
        Some(record) => if record.total_issuance + amount > max_amount() {
            DepositConsequence::Overflow
        } else if balance == 0 && record.account_count >= u32::MAX {
            DepositConsequence::Overflow
        } else if balance + amount > max_amount() {
            DepositConsequence::Overflow
        } else {
            DepositConsequence::Success
        },
    }
}

/// Whether `amount` can be taken from an account with `balance`, for an
/// asset with the record `details`.
pub open spec fn withdraw_consequence(
    details: Option<AssetRecord>,
    balance: nat,
    amount: nat,
) -> WithdrawConsequence {
    match details {
        None => WithdrawConsequence::UnknownAsset,
        Some(record) => if record.total_issuance < amount {
            WithdrawConsequence::Underflow
        } else if balance < amount {
            WithdrawConsequence::NoFunds
        } else {
            WithdrawConsequence::Success
        },
    }
}

/// Checks whether `amount` can be added to `account`. Changes nothing.
pub fn check_deposit(details: Option<AssetDetails>, account: AssetBalance, amount: Amount) -> (r:
    DepositConsequence)
    ensures
        r == deposit_consequence(record_of(details), account@, amount@),
{
    let details = match details {
        Some(details) => details,
        None => return DepositConsequence::UnknownAsset,
    };
    if details.supply.checked_add(amount).is_none() {
        return DepositConsequence::Overflow;
    }
    if account.balance.is_zero() {
        if details.accounts.checked_add(1).is_none() {
            return DepositConsequence::Overflow;
        }
    }
    if account.balance.checked_add(amount).is_none() {
        return DepositConsequence::Overflow;
    }
    DepositConsequence::Success
}

/// Checks whether `amount` can be taken from `account`. Changes nothing.
pub fn check_withdraw(details: Option<AssetDetails>, account: AssetBalance, amount: Amount) -> (r:
    WithdrawConsequence)
    ensures
        r == withdraw_consequence(record_of(details), account@, amount@),
{
    let details = match details {
        Some(details) => details,
        None => return WithdrawConsequence::UnknownAsset,
    };
    if details.supply.checked_sub(amount).is_none() {
        return WithdrawConsequence::Underflow;
    }
    if let None = account.balance.checked_sub(amount) {
        WithdrawConsequence::NoFunds
    } else {
        WithdrawConsequence::Success
    }
}

/// What an increase of a balance writes.
#[derive(Clone, Copy, Debug)]
pub struct Increase {
    /// The record of the asset.
    pub details: AssetDetails,
    /// The entry of the account.
    pub account: AssetBalance,
    /// Whether the account held nothing before.
    pub created: bool,
}

/// What a decrease of a balance writes.
#[derive(Clone, Copy, Debug)]
pub struct Decrease {
    /// The record of the asset.
    pub details: AssetDetails,
    /// The entry of the account, which is removed where it holds zero.
    pub account: AssetBalance,
    /// Whether the account holds nothing afterwards.
    pub removed: bool,
}

/// What a transfer between two accounts writes.
#[derive(Clone, Copy, Debug)]
pub struct Movement {
    /// The record of the asset.
    pub details: AssetDetails,
    /// The entry of the source, which is removed where it holds zero.
    pub source: AssetBalance,
    /// The entry of the destination.
    pub dest: AssetBalance,
    /// Whether the destination held nothing before.
    pub created: bool,
    /// Whether the source holds nothing afterwards.
    pub removed: bool,
}

impl Increase {
    /// This is what adding `amount` to `account` writes, for an asset with
    /// the record `details`: the balance grows by the amount, and an account
    /// that held nothing is counted.
    pub open spec fn adds(self, details: AssetDetails, account: AssetBalance, amount: nat) -> bool {
        &&& self.created == (account@ == 0)
        &&& self.details.supply == details.supply
        &&& self.details.accounts == details.accounts + (if self.created {
            1int
        } else {
            0int
        })
        &&& self.account@ == saturating_sum(account@, amount)
    }
}

impl Decrease {
    /// This is what taking `amount` from `account` writes, for an asset with
    /// the record `details`: the balance shrinks by the amount, and an
    /// account that is left with nothing is no longer counted.
    pub open spec fn takes(self, details: AssetDetails, account: AssetBalance, amount: nat) -> bool {
        &&& self.account@ == saturating_difference(account@, amount)
        &&& self.removed == (self.account@ == 0)
        &&& self.details.supply == details.supply
        &&& self.details.accounts == (if self.removed && details.accounts > 0 {
            details.accounts - 1
        } else {
            details.accounts as int
        })
    }
}

impl Movement {
    /// This is what moving `amount` from `source` to `dest` writes, for an
    /// asset with the record `details` and two accounts that can give and
    /// take the amount: a destination that held nothing is counted, then a
    /// source that is left with nothing is no longer counted.
    pub open spec fn moves(
        self,
        details: AssetDetails,
        source: AssetBalance,
        dest: AssetBalance,
        amount: nat,
    ) -> bool {
        &&& self.source@ + amount == source@
        &&& self.dest@ == dest@ + amount
        &&& self.created == (dest@ == 0)
        &&& self.removed == (self.source@ == 0)
        &&& self.details.supply == details.supply
        &&& self.details.accounts == ({
            let counted = details.accounts + (if self.created {
                1int
            } else {
                0int
            });
            if self.removed && counted > 0 {
                counted - 1
            } else {
                counted
            }
        })
    }
}

/// Adds `amount` to `account`, and counts the account where it held nothing.
/// Fails with `Overflow`, and only then, where the account is to be counted
/// and the count is at its largest.
pub fn credit(details: AssetDetails, account: AssetBalance, amount: Amount) -> (r: Result<
    Increase,
    Error,
>)
    ensures
        match r {
            Ok(plan) => plan.adds(details, account, amount@),
            Err(e) => e == Error::Overflow && account@ == 0 && details.accounts == u32::MAX,
        },
{
    let mut details = details;
    let created = account.balance.is_zero();
    if created {
        details.new_account()?;
    }
    let account = AssetBalance { balance: account.balance.saturating_add(amount) };
    Ok(Increase { details, account, created })
}

/// Takes `amount` from `account`, and stops counting the account where it
/// is left with nothing.
pub fn debit(details: AssetDetails, account: AssetBalance, amount: Amount) -> (plan: Decrease)
    ensures
        plan.takes(details, account, amount@),
{
    let mut details = details;
    let account = AssetBalance { balance: account.balance.saturating_sub(amount) };
    let removed = account.balance.is_zero();
    if removed {
        details.dead_account();
    }
    Decrease { details, account, removed }
}

/// The supply of an asset with the record `details`: zero where the asset
/// has no record.
pub fn supply(details: Option<AssetDetails>) -> (r: Amount)
    ensures
        r@ == match details {
            Some(d) => d@.total_issuance,
            None => 0,
        },
{
    match details {
        Some(details) => details.supply,
        None => Amount::zero(),
    }
}

/// The record of a new asset: fails with `AlreadyExists` where the asset has
/// a record, and gives a record of no supply and no accounts where it has
/// none.
pub fn create(existing: Option<AssetDetails>) -> (r: Result<AssetDetails, Error>)
    ensures
        match r {
            Ok(details) => existing is None && details@ == (AssetRecord {
                total_issuance: 0,
                account_count: 0,
            }),
            Err(e) => existing is Some && e == Error::AlreadyExists,
        },
{
    match existing {
        Some(_) => Err(Error::AlreadyExists),
        None => Ok(AssetDetails { supply: Amount::zero(), accounts: 0 }),
    }
}

/// The record of the asset with `amount` as its total issuance; nothing
/// where the asset has no record.
pub fn set_total_issuance(details: Option<AssetDetails>, amount: Amount) -> (r: Option<
    AssetDetails,
>)
    ensures
        r == match details {
            Some(d) => Some(AssetDetails { supply: amount, accounts: d.accounts }),
            None => None,
        },
{
    match details {
        Some(d) => Some(AssetDetails { supply: amount, accounts: d.accounts }),
        None => None,
    }
}

/// What setting a balance writes.
#[derive(Clone, Copy, Debug)]
pub struct Replacement {
    /// The record of the asset.
    pub details: AssetDetails,
    /// The entry of the account.
    pub account: AssetBalance,
    /// Whether the entry is to be stored: one that holds zero is removed.
    pub stored: bool,
    /// Whether the account held nothing before and holds something now.
    pub created: bool,
    /// Whether the account held something before and holds nothing now.
    pub removed: bool,
}

impl Replacement {
    /// This is what setting `account` to `amount` writes, for an asset with
    /// the record `details`.
    pub open spec fn sets(self, details: AssetDetails, account: AssetBalance, amount: Amount) -> bool {
        &&& self.account.balance == amount
        &&& self.stored == (amount@ > 0)
        &&& self.created == (account@ == 0 && amount@ > 0)
        &&& self.removed == (account@ > 0 && amount@ == 0)
        &&& self.details.supply == details.supply
        &&& self.details.accounts == (if self.created {
            details.accounts + 1
        } else if self.removed && details.accounts > 0 {
            details.accounts - 1
        } else {
            details.accounts as int
        })
    }
}

/// Plans the setting of `account` to `amount`. Fails with `UnknownAsset`
/// where the asset has no record, and with `Overflow` where the account
/// becomes a holder and the account count is at its largest.
pub fn set_balance(details: Option<AssetDetails>, account: AssetBalance, amount: Amount) -> (r:
    Result<Replacement, Error>)
    ensures
        match r {
            Ok(plan) => details is Some && plan.sets(details.unwrap(), account, amount),
            Err(e) => if details is None {
                e == Error::UnknownAsset
            } else {
                e == Error::Overflow && account@ == 0 && amount@ > 0 && details.unwrap().accounts
                    == u32::MAX
            },
        },
{
    let mut details = match details {
        Some(details) => details,
        None => return Err(Error::UnknownAsset),
    };
    let held = !account.balance.is_zero();
    let holds = !amount.is_zero();
    let created = !held && holds;
    let removed = held && !holds;
    if created {
        details.new_account()?;
    }
    if removed {
        details.dead_account();
    }
    Ok(
        Replacement {
            details,
            account: AssetBalance { balance: amount },
            stored: holds,
            created,
            removed,
        },
    )
}

/// Plans the increase of `account` by `amount`.
///
/// An amount of zero asks for nothing to be written. Any other amount must
/// pass [`check_deposit`]; then `check` adjusts the record of the asset, and
/// the account is credited and, where it held nothing, counted. Whatever
/// fails, nothing is to be written.
pub fn increase_balance(
    details: Option<AssetDetails>,
    account: AssetBalance,
    amount: Amount,
    check: impl FnOnce(AssetDetails) -> Result<AssetDetails, Error>,
) -> (r: Result<Option<Increase>, Error>)
    requires
        forall|d: AssetDetails| call_requires(check, (d,)),
    ensures
        amount@ == 0 ==> r == Ok::<Option<Increase>, Error>(None),
        amount@ != 0 ==> match r {
            Ok(Some(plan)) => {
                &&& deposit_consequence(record_of(details), account@, amount@)
                    == DepositConsequence::Success
                &&& exists|adjusted: AssetDetails|
                    {
                        &&& #[trigger] call_ensures(
                            check,
                            (details.unwrap(),),
                            Ok::<AssetDetails, Error>(adjusted),
                        )
                        &&& plan.adds(adjusted, account, amount@)
                    }
            },
            Ok(None) => false,
            Err(e) => match deposit_consequence(record_of(details), account@, amount@).result() {
                Err(refused) => e == refused,
                Ok(()) => {
                    ||| call_ensures(check, (details.unwrap(),), Err::<AssetDetails, Error>(e))
                    ||| exists|adjusted: AssetDetails|
                        {
                            &&& #[trigger] call_ensures(
                                check,
                                (details.unwrap(),),
                                Ok::<AssetDetails, Error>(adjusted),
                            )
                            &&& e == Error::Overflow
                            &&& account@ == 0
                            &&& adjusted.accounts == u32::MAX
                        }
                },
            },
        },
{
    if amount.is_zero() {
        return Ok(None);
    }
    check_deposit(details, account, amount).into_result()?;
    let details = match details {
        Some(details) => details,
        None => return Err(Error::UnknownAsset),
    };
    let adjusted = check(details)?;
    let plan = credit(adjusted, account, amount)?;
    Ok(Some(plan))
}

/// Plans the decrease of `account` by `amount`.
///
/// An amount of zero asks for nothing to be written. Any other amount must
/// pass [`check_withdraw`]; then `check` adjusts the record of the asset,
/// and the account is debited and, where it is left with nothing, no longer
/// counted. Whatever fails, nothing is to be written.
pub fn decrease_balance(
    details: Option<AssetDetails>,
    account: AssetBalance,
    amount: Amount,
    check: impl FnOnce(AssetDetails) -> Result<AssetDetails, Error>,
) -> (r: Result<Option<Decrease>, Error>)
    requires
        forall|d: AssetDetails| call_requires(check, (d,)),
    ensures
        amount@ == 0 ==> r == Ok::<Option<Decrease>, Error>(None),
        amount@ != 0 ==> match r {
            Ok(Some(plan)) => {
                &&& withdraw_consequence(record_of(details), account@, amount@)
                    == WithdrawConsequence::Success
                &&& exists|adjusted: AssetDetails|
                    {
                        &&& #[trigger] call_ensures(
                            check,
                            (details.unwrap(),),
                            Ok::<AssetDetails, Error>(adjusted),
                        )
                        &&& plan.takes(adjusted, account, amount@)
                    }
            },
            Ok(None) => false,
            Err(e) => match withdraw_consequence(record_of(details), account@, amount@).result() {
                Err(refused) => e == refused,
                Ok(()) => call_ensures(check, (details.unwrap(),), Err::<AssetDetails, Error>(e)),
            },
        },
{
    if amount.is_zero() {
        return Ok(None);
    }
    check_withdraw(details, account, amount).into_result()?;
    let details = match details {
        Some(details) => details,
        None => return Err(Error::UnknownAsset),
    };
    let adjusted = check(details)?;
    Ok(Some(debit(adjusted, account, amount)))
}

/// Plans the transfer of `amount` from `source` to `dest`, two accounts of
/// one asset; `same_account` says that the two are one account.
///
/// Fails with `UnknownAsset` where the asset has no record, whatever the
/// amount. An amount of zero, and a transfer from an account to itself, ask
/// for nothing to be written. Otherwise the amount must pass
/// [`check_withdraw`] for the source and then [`check_deposit`] for the
/// destination; the total issuance stays as it is.
pub fn transfer(
    details: Option<AssetDetails>,
    same_account: bool,
    source: AssetBalance,
    dest: AssetBalance,
    amount: Amount,
) -> (r: Result<Option<Movement>, Error>)
    ensures
        match r {
            Ok(Some(plan)) => {
                &&& details is Some
                &&& amount@ != 0
                &&& !same_account
                &&& withdraw_consequence(record_of(details), source@, amount@)
                    == WithdrawConsequence::Success
                &&& deposit_consequence(record_of(details), dest@, amount@)
                    == DepositConsequence::Success
                &&& plan.moves(details.unwrap(), source, dest, amount@)
            },
            Ok(None) => details is Some && (amount@ == 0 || same_account),
            Err(e) => if details is None {
                e == Error::UnknownAsset
            } else {
                &&& amount@ != 0
                &&& !same_account
                &&& match withdraw_consequence(record_of(details), source@, amount@).result() {
                    Err(refused) => e == refused,
                    Ok(()) => deposit_consequence(record_of(details), dest@, amount@).result()
                        == Err::<(), Error>(e),
                }
            },
        },
{
    let held = match details {
        Some(details) => details,
        None => return Err(Error::UnknownAsset),
    };
    if amount.is_zero() {
        return Ok(None);
    }
    if same_account {
        return Ok(None);
    }
    check_withdraw(details, source, amount).into_result()?;
    check_deposit(details, dest, amount).into_result()?;
    let taken = AssetBalance { balance: source.balance.saturating_sub(amount) };
    let given = credit(held, dest, amount)?;
    let mut details = given.details;
    let removed = taken.balance.is_zero();
    if removed {
        details.dead_account();
    }
    Ok(Some(Movement { details, source: taken, dest: given.account, created: given.created, removed }))
}

} // verus!
