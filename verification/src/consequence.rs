//! Outcomes of the checks that precede a balance change, and the errors of
//! the ledger.

use vstd::prelude::*;

verus! {

/// Why an operation of the ledger failed.
#[derive(Clone, Copy, PartialEq, Eq, Structural, Debug)]
pub enum Error {
    /// The asset has no record.
    UnknownAsset,
    /// The asset already has a record.
    AlreadyExists,
    /// The total issuance, a balance or the number of accounts would pass
    /// its largest value.
    Overflow,
    /// The total issuance would fall below zero.
    Underflow,
    /// The account holds less than the amount.
    NoFunds,
    /// Two imbalances of different assets were set against each other.
    AssetMismatch,
}

/// Whether an amount can be added to an account.
#[derive(Clone, Copy, PartialEq, Eq, Structural, Debug)]
pub enum DepositConsequence {
    /// The asset has no record.
    UnknownAsset,
    /// The total issuance, the balance or the number of accounts would pass
    /// its largest value.
    Overflow,
    /// The amount can be added.
    Success,
}

/// Whether an amount can be taken from an account.
#[derive(Clone, Copy, PartialEq, Eq, Structural, Debug)]
pub enum WithdrawConsequence {
    /// The account holds less than the amount.
    NoFunds,
    /// The asset has no record.
    UnknownAsset,
    /// The total issuance is less than the amount.
    Underflow,
    /// The amount can be taken.
    Success,
}

impl DepositConsequence {
    /// The consequence as a result: `Ok` for `Success`, else the error of
    /// the same name.
    pub open spec fn result(self) -> Result<(), Error> {
        match self {
            DepositConsequence::UnknownAsset => Err(Error::UnknownAsset),
            DepositConsequence::Overflow => Err(Error::Overflow),
            DepositConsequence::Success => Ok(()),
        }
    }

    /// Turns the consequence into a result.
    pub fn into_result(self) -> (r: Result<(), Error>)
        ensures
            r == self.result(),
    {
        match self {
            DepositConsequence::UnknownAsset => Err(Error::UnknownAsset),
            DepositConsequence::Overflow => Err(Error::Overflow),
            DepositConsequence::Success => Ok(()),
        }
    }
}

impl WithdrawConsequence {
    /// The consequence as a result: `Ok` for `Success`, else the error of
    /// the same name.
    pub open spec fn result(self) -> Result<(), Error> {
        match self {
            WithdrawConsequence::NoFunds => Err(Error::NoFunds),
            WithdrawConsequence::UnknownAsset => Err(Error::UnknownAsset),
            WithdrawConsequence::Underflow => Err(Error::Underflow),
            WithdrawConsequence::Success => Ok(()),
        }
    }

    /// Turns the consequence into a result.
    pub fn into_result(self) -> (r: Result<(), Error>)
        ensures
            r == self.result(),
    {
        match self {
            WithdrawConsequence::NoFunds => Err(Error::NoFunds),
            WithdrawConsequence::UnknownAsset => Err(Error::UnknownAsset),
            WithdrawConsequence::Underflow => Err(Error::Underflow),
            WithdrawConsequence::Success => Ok(()),
        }
    }
}

} // verus!
