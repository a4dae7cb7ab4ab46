//! Unsigned 256-bit amounts.
//!
//! An [`Amount`] holds its value as four 64-bit words, as `sp_core::U256`
//! does. All arithmetic on amounts is done by `sp_core::U256`: the
//! functions of [`Amount`] that call it are not proved, and each says what
//! it takes on trust of the call, over the numbers that the amounts stand
//! for.

use sp_core::U256;
use vstd::prelude::*;

verus! {

/// The weight of the second word of an amount: 2^64.
pub open spec fn word1() -> nat {
    0x1_0000_0000_0000_0000nat
}

/// The weight of the third word of an amount: 2^128.
pub open spec fn word2() -> nat {
    0x1_0000_0000_0000_0000_0000_0000_0000_0000nat
}

/// The weight of the fourth word of an amount: 2^192.
pub open spec fn word3() -> nat {
    0x1_0000_0000_0000_0000_0000_0000_0000_0000_0000_0000_0000_0000nat
}

/// The largest value an amount can hold: 2^256 - 1.
pub open spec fn max_amount() -> nat {
    0xffff_ffff_ffff_ffff_ffff_ffff_ffff_ffff_ffff_ffff_ffff_ffff_ffff_ffff_ffff_ffffnat
}

/// `a + b`, held at [`max_amount`] where the sum would pass it.
pub open spec fn saturating_sum(a: nat, b: nat) -> nat {
    if a + b > max_amount() {
        max_amount()
    } else {
        a + b
    }
}

/// `a - b`, held at zero where `b` is the larger.
pub open spec fn saturating_difference(a: nat, b: nat) -> nat {
    if a < b {
        0
    } else {
        (a - b) as nat
    }
}

/// An unsigned 256-bit quantity of some asset, as four 64-bit words with the
/// least significant word first. Every combination of words is a valid amount.
#[derive(Clone, Copy, PartialEq, Eq, Structural, Debug)]
pub struct Amount {
    pub w0: u64,
    pub w1: u64,
    pub w2: u64,
    pub w3: u64,
}

impl View for Amount {
    type V = nat;

    /// The number that the four words stand for: the first word, plus 2^64
    /// times the second, plus 2^128 times the third, plus 2^192 times the
    /// fourth.
    closed spec fn view(&self) -> nat {
        (self.w0 as nat) + (self.w1 as nat) * word1() + (self.w2 as nat) * word2() + (
        self.w3 as nat) * word3()
    }
}

proof fn lemma_split_word(lo: nat, hi: nat, lo2: nat, hi2: nat)
    requires
        lo < word1(),
        lo2 < word1(),
        lo + hi * word1() == lo2 + hi2 * word1(),
    ensures
        lo == lo2,
        hi == hi2,
{
}

/// The number that an amount stands for: the first word, plus 2^64 times the
/// second, plus 2^128 times the third, plus 2^192 times the fourth.
pub proof fn lemma_amount_value(a: Amount)
    ensures
        a@ == (a.w0 as nat) + (a.w1 as nat) * word1() + (a.w2 as nat) * word2() + (a.w3 as nat)
            * word3(),
{
}

/// No amount is larger than [`max_amount`].
pub proof fn lemma_amount_bounded(a: Amount)
    ensures
        a@ <= max_amount(),
{
}

/// Two amounts that stand for the same number are the same amount.
pub proof fn lemma_amount_injective(a: Amount, b: Amount)
    requires
        a@ == b@,
    ensures
        a == b,
{
    let a1 = (a.w1 as nat) + (a.w2 as nat) * word1() + (a.w3 as nat) * word2();
    let b1 = (b.w1 as nat) + (b.w2 as nat) * word1() + (b.w3 as nat) * word2();
    assert(a@ == a.w0 as nat + a1 * word1());
    assert(b@ == b.w0 as nat + b1 * word1());
    lemma_split_word(a.w0 as nat, a1, b.w0 as nat, b1);
    let a2 = (a.w2 as nat) + (a.w3 as nat) * word1();
    let b2 = (b.w2 as nat) + (b.w3 as nat) * word1();
    assert(a1 == a.w1 as nat + a2 * word1());
    assert(b1 == b.w1 as nat + b2 * word1());
    lemma_split_word(a.w1 as nat, a2, b.w1 as nat, b2);
    lemma_split_word(a.w2 as nat, a.w3 as nat, b.w2 as nat, b.w3 as nat);
}

/// The amount that stands for `n`, for `n` up to [`max_amount`].
pub open spec fn amount_of(n: nat) -> Amount {
    choose|a: Amount| a@ == n
}

/// [`amount_of`] gives back the amount whose value it is handed.
pub proof fn lemma_amount_of(a: Amount)
    ensures
        amount_of(a@) == a,
{
    lemma_amount_injective(amount_of(a@), a);
}

impl Amount {
    /// The amount that stands for `value`.
    pub fn from_u128(value: u128) -> (r: Amount)
        ensures
            r@ == value,
    {
        let lo: u128 = value % 0x1_0000_0000_0000_0000u128;
        let hi: u128 = value / 0x1_0000_0000_0000_0000u128;
        Amount { w0: lo as u64, w1: hi as u64, w2: 0, w3: 0 }
    }

    /// The largest amount.
    pub fn max_value() -> (r: Amount)
        ensures
            r@ == max_amount(),
    {
        Amount { w0: u64::MAX, w1: u64::MAX, w2: u64::MAX, w3: u64::MAX }
    }

    /// Whether the two amounts stand for the same number.
    pub fn same(self, other: Amount) -> (r: bool)
        ensures
            r == (self@ == other@),
    {
        proof {
            if self@ == other@ {
                lemma_amount_injective(self, other);
            }
        }
        self == other
    }

    /// Calls `sp_core::U256::zero`. Taken on trust: what it returns stands
    /// for zero.
    #[verifier::external_body]
    pub(crate) fn zero() -> (r: Amount)
        ensures
            r@ == 0,
    {
        let U256(w) = U256::zero();
        Amount { w0: w[0], w1: w[1], w2: w[2], w3: w[3] }
    }

    /// Calls `sp_core::U256::is_zero`. Taken on trust: it returns whether
    /// the amount stands for zero.
    #[verifier::external_body]
    pub(crate) fn is_zero(&self) -> (r: bool)
        ensures
            r == (self@ == 0),
    {
        U256([self.w0, self.w1, self.w2, self.w3]).is_zero()
    }

    /// Calls `sp_core::U256::checked_add`. Taken on trust: it returns the
    /// sum of the two amounts where that is no larger than the largest
    /// amount, and `None` where it is.
    #[verifier::external_body]
    pub(crate) fn checked_add(self, other: Amount) -> (r: Option<Amount>)
        ensures
            match r {
                Some(sum) => self@ + other@ <= max_amount() && sum@ == self@ + other@,
                None => self@ + other@ > max_amount(),
            },
    {
        let x = U256([self.w0, self.w1, self.w2, self.w3]);
        let y = U256([other.w0, other.w1, other.w2, other.w3]);
        match x.checked_add(y) {
            Some(U256(w)) => Some(Amount { w0: w[0], w1: w[1], w2: w[2], w3: w[3] }),
            None => None,
        }
    }

    /// Calls `sp_core::U256::checked_sub`. Taken on trust: it returns this
    /// amount less `other` where `other` is not the larger, and `None` where
    /// it is.
    #[verifier::external_body]
    pub(crate) fn checked_sub(self, other: Amount) -> (r: Option<Amount>)
        ensures
            match r {
                Some(difference) => other@ <= self@ && difference@ == self@ - other@,
                None => self@ < other@,
            },
    {
        let x = U256([self.w0, self.w1, self.w2, self.w3]);
        let y = U256([other.w0, other.w1, other.w2, other.w3]);
        match x.checked_sub(y) {
            Some(U256(w)) => Some(Amount { w0: w[0], w1: w[1], w2: w[2], w3: w[3] }),
            None => None,
        }
    }

    /// Calls `sp_core::U256::saturating_add`. Taken on trust: it returns
    /// the sum of the two amounts, or the largest amount where the sum would
    /// pass it.
    #[verifier::external_body]
    pub(crate) fn saturating_add(self, other: Amount) -> (r: Amount)
        ensures
            r@ == saturating_sum(self@, other@),
    {
        let x = U256([self.w0, self.w1, self.w2, self.w3]);
        let y = U256([other.w0, other.w1, other.w2, other.w3]);
        let U256(w) = x.saturating_add(y);
        Amount { w0: w[0], w1: w[1], w2: w[2], w3: w[3] }
    }

    /// Calls `sp_core::U256::saturating_sub`. Taken on trust: it returns
    /// this amount less `other`, or zero where `other` is the larger.
    #[verifier::external_body]
    pub(crate) fn saturating_sub(self, other: Amount) -> (r: Amount)
        ensures
            r@ == saturating_difference(self@, other@),
    {
        let x = U256([self.w0, self.w1, self.w2, self.w3]);
        let y = U256([other.w0, other.w1, other.w2, other.w3]);
        let U256(w) = x.saturating_sub(y);
        Amount { w0: w[0], w1: w[1], w2: w[2], w3: w[3] }
    }

    /// Compares with the `<` of `sp_core::U256`. Taken on trust: it returns
    /// whether this amount stands for the smaller number.
    #[verifier::external_body]
    pub(crate) fn less_than(self, other: Amount) -> (r: bool)
        ensures
            r == (self@ < other@),
    {
        U256([self.w0, self.w1, self.w2, self.w3]) < U256([other.w0, other.w1, other.w2, other.w3])
    }

    /// Subtracts with the `-` of `sp_core::U256`, which panics where
    /// `other` is the larger. Taken on trust: where it is not, it returns
    /// this amount less `other`.
    #[verifier::external_body]
    pub(crate) fn minus(self, other: Amount) -> (r: Amount)
        requires
            other@ <= self@,
        ensures
            r@ == self@ - other@,
    {
        let x = U256([self.w0, self.w1, self.w2, self.w3]);
        let y = U256([other.w0, other.w1, other.w2, other.w3]);
        let U256(w) = x - y;
        Amount { w0: w[0], w1: w[1], w2: w[2], w3: w[3] }
    }
}

} // verus!
