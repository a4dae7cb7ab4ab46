//! Imbalances: amounts by which the total issuance of an asset and the sum
//! of its balances differ, each held by a value that is to be retired once.
//!
//! A value of [`Imbalance`] is made by the ledger when it changes a balance
//! without changing the total issuance. It cannot be copied. It is retired
//! either by setting it against an imbalance of the opposite kind
//! ([`Imbalance::offset`]), or by [`Imbalance::finalize`], which corrects
//! the total issuance by the amount.

use crate::amount::{saturating_difference, saturating_sum, Amount};
use crate::asset::AssetId;
use crate::balanced::Unbalanced;
use crate::consequence::Error;
use std::marker::PhantomData;
use vstd::prelude::*;

verus! {

/// How the total issuance is corrected when an imbalance is finalized.
pub trait HandleImbalanceDrop {
    /// The total issuance after the correction by `amount`.
    spec fn corrected(issuance: nat, amount: nat) -> nat;

    /// Corrects the total issuance of the asset by `amount`. An asset
    /// without a record stays without one.
    fn handle<U: Unbalanced>(ledger: &mut U, asset: AssetId, amount: Amount)
        ensures
            final(ledger).ledger() == old(ledger).ledger().after_set_total_issuance(
                asset,
                Self::corrected(old(ledger).ledger().store.total_issuance(asset), amount@),
            ),
            old(ledger).ledger().store.consistent() ==> final(ledger).ledger().store.consistent(),
    ;
}

/// The outcome of setting an imbalance against one of the opposite kind:
/// nothing is left, or something of the first kind, or something of the
/// other.
#[derive(Debug)]
pub enum SameOrOther<A, B> {
    /// The two cancelled each other.
    Neither,
    /// The first was the larger: what is left of it.
    Same(A),
    /// The other was the larger: what is left of it.
    Other(B),
}

/// Sets `ours` against `theirs`, two amounts of opposite kinds of one asset:
/// what is left is the difference of the two, of the kind of the larger
/// one, and nothing where the two are the same.
pub fn net(ours: Amount, theirs: Amount) -> (r: SameOrOther<Amount, Amount>)
    ensures
        match r {
            SameOrOther::Neither => ours@ == theirs@,
            SameOrOther::Same(rest) => ours@ > theirs@ && rest@ == ours@ - theirs@,
            SameOrOther::Other(rest) => ours@ < theirs@ && rest@ == theirs@ - ours@,
        },
{
    if ours.same(theirs) {
        SameOrOther::Neither
    } else if theirs.less_than(ours) {
        SameOrOther::Same(ours.minus(theirs))
    } else {
        SameOrOther::Other(theirs.minus(ours))
    }
}

/// An amount of an asset by which the total issuance is to be corrected.
/// `OnDrop` says how it is corrected when this imbalance is finalized,
/// `OppositeOnDrop` how for an imbalance of the opposite kind.
#[must_use]
#[derive(Debug)]
pub struct Imbalance<OnDrop: HandleImbalanceDrop, OppositeOnDrop: HandleImbalanceDrop> {
    asset: AssetId,
    amount: Amount,
    _phantom: PhantomData<(OnDrop, OppositeOnDrop)>,
}

impl<OnDrop: HandleImbalanceDrop, OppositeOnDrop: HandleImbalanceDrop> Imbalance<
    OnDrop,
    OppositeOnDrop,
> {
    /// The asset of the imbalance.
    pub closed spec fn asset_id(&self) -> AssetId {
        self.asset
    }

    /// The amount of the imbalance.
    pub closed spec fn amount(&self) -> Amount {
        self.amount
    }

    /// An imbalance of nothing of the asset.
    pub fn zero(asset: AssetId) -> (r: Self)
        ensures
            r.asset_id() == asset,
            r.amount()@ == 0,
    {
        Imbalance { asset, amount: Amount::zero(), _phantom: PhantomData }
    }

    /// An imbalance of `amount` of the asset. Only a change of a balance
    /// makes one.
    pub(crate) fn new(asset: AssetId, amount: Amount) -> (r: Self)
        ensures
            r.asset_id() == asset,
            r.amount() == amount,
    {
        Imbalance { asset, amount, _phantom: PhantomData }
    }

    /// The amount of the imbalance.
    pub fn peek(&self) -> (r: Amount)
        ensures
            r == self.amount(),
    {
        self.amount
    }

    /// The asset of the imbalance.
    pub fn asset(&self) -> (r: AssetId)
        ensures
            r == self.asset_id(),
    {
        self.asset
    }

    /// Retires an imbalance of nothing; hands any other back.
    pub fn drop_zero(self) -> (r: Result<(), Self>)
        ensures
            match r {
                Ok(()) => self.amount()@ == 0,
                Err(back) => self.amount()@ != 0 && back == self,
            },
    {
        if self.amount.is_zero() {
            Ok(())
        } else {
            Err(self)
        }
    }

    /// Sets this imbalance against `other`, which is of the opposite kind.
    ///
    /// Where both are of one asset, both are retired, and what is left is
    /// the difference of the two amounts, of the kind of the larger one;
    /// nothing is left where the two amounts are the same. Where they are
    /// of different assets, both are handed back with `AssetMismatch`.
    pub fn offset(self, other: Imbalance<OppositeOnDrop, OnDrop>) -> (r: Result<
        SameOrOther<Self, Imbalance<OppositeOnDrop, OnDrop>>,
        (Error, Self, Imbalance<OppositeOnDrop, OnDrop>),
    >)
        ensures
            match r {
                Ok(SameOrOther::Neither) => {
                    &&& self.asset_id() == other.asset_id()
                    &&& self.amount()@ == other.amount()@
                },
                Ok(SameOrOther::Same(rest)) => {
                    &&& self.asset_id() == other.asset_id()
                    &&& self.amount()@ > other.amount()@
                    &&& rest.asset_id() == self.asset_id()
                    &&& rest.amount()@ == self.amount()@ - other.amount()@
                },
                Ok(SameOrOther::Other(rest)) => {
                    &&& self.asset_id() == other.asset_id()
                    &&& self.amount()@ < other.amount()@
                    &&& rest.asset_id() == self.asset_id()
                    &&& rest.amount()@ == other.amount()@ - self.amount()@
                },
                Err((e, first, second)) => {
                    &&& self.asset_id() != other.asset_id()
                    &&& e == Error::AssetMismatch
                    &&& first == self
                    &&& second == other
                },
            },
    {
        if self.asset == other.asset {
            Ok(
                match net(self.amount, other.amount) {
                    SameOrOther::Neither => SameOrOther::Neither,
                    SameOrOther::Same(rest) => SameOrOther::Same(Imbalance::new(self.asset, rest)),
                    SameOrOther::Other(rest) => SameOrOther::Other(
                        Imbalance::new(self.asset, rest),
                    ),
                },
            )
        } else {
            Err((Error::AssetMismatch, self, other))
        }
    }

    /// Retires the imbalance by correcting the total issuance of its asset
    /// by its amount. An imbalance of nothing changes nothing.
    pub fn finalize<U: Unbalanced>(self, ledger: &mut U)
        ensures
            final(ledger).ledger() == if self.amount()@ == 0 {
                old(ledger).ledger()
            } else {
                old(ledger).ledger().after_set_total_issuance(
                    self.asset_id(),
                    OnDrop::corrected(
                        old(ledger).ledger().store.total_issuance(self.asset_id()),
                        self.amount()@,
                    ),
                )
            },
            old(ledger).ledger().store.consistent() ==> final(ledger).ledger().store.consistent(),
    {
        if !self.amount.is_zero() {
            OnDrop::handle(ledger, self.asset, self.amount);
        }
    }
}

impl<A: HandleImbalanceDrop, B: HandleImbalanceDrop> SameOrOther<
    Imbalance<A, B>,
    Imbalance<B, A>,
> {
    /// Retires what is left where that is nothing; hands anything else
    /// back.
    pub fn try_drop(self) -> (r: Result<(), Self>)
        ensures
            match r {
                Ok(()) => match self {
                    SameOrOther::Neither => true,
                    SameOrOther::Same(rest) => rest.amount()@ == 0,
                    SameOrOther::Other(rest) => rest.amount()@ == 0,
                },
                Err(back) => back == self && match self {
                    SameOrOther::Neither => false,
                    SameOrOther::Same(rest) => rest.amount()@ != 0,
                    SameOrOther::Other(rest) => rest.amount()@ != 0,
                },
            },
    {
        match self {
            SameOrOther::Neither => Ok(()),
            SameOrOther::Same(rest) => match rest.drop_zero() {
                Ok(()) => Ok(()),
                Err(rest) => Err(SameOrOther::Same(rest)),
            },
            SameOrOther::Other(rest) => match rest.drop_zero() {
                Ok(()) => Ok(()),
                Err(rest) => Err(SameOrOther::Other(rest)),
            },
        }
    }
}

/// Finalizes an imbalance by adding its amount to the total issuance, which
/// stays at the largest amount where the sum would pass it.
#[derive(Debug)]
pub struct IncreaseIssuance;

/// Finalizes an imbalance by taking its amount from the total issuance,
/// which stays at zero where the amount is the larger.
#[derive(Debug)]
pub struct DecreaseIssuance;

impl HandleImbalanceDrop for IncreaseIssuance {
    open spec fn corrected(issuance: nat, amount: nat) -> nat {
        saturating_sum(issuance, amount)
    }

    fn handle<U: Unbalanced>(ledger: &mut U, asset: AssetId, amount: Amount) {
        let issuance = ledger.total_issuance(asset);
        ledger.set_total_issuance(asset, issuance.saturating_add(amount));
    }
}

impl HandleImbalanceDrop for DecreaseIssuance {
    open spec fn corrected(issuance: nat, amount: nat) -> nat {
        saturating_difference(issuance, amount)
    }

    fn handle<U: Unbalanced>(ledger: &mut U, asset: AssetId, amount: Amount) {
        let issuance = ledger.total_issuance(asset);
        ledger.set_total_issuance(asset, issuance.saturating_sub(amount));
    }
}

/// Total issuance is short of the sum of the balances by the amount:
/// finalizing adds the amount to the total issuance.
pub type Debt = Imbalance<IncreaseIssuance, DecreaseIssuance>;

/// Total issuance is over the sum of the balances by the amount: finalizing
/// takes the amount from the total issuance.
pub type Credit = Imbalance<DecreaseIssuance, IncreaseIssuance>;

} // verus!
