//! What holds of the ledger whatever is done with it.

use crate::amount::{max_amount, saturating_difference, saturating_sum, Amount};
use crate::asset::{AccountId, AssetId, AssetRecord, Event, Lifecycle};
use crate::ledger::{
    account_ids, lemma_holdings_change, lemma_holdings_same, Holdings, LedgerView,
};
use vstd::prelude::*;

verus! {

/// A new record changes no sum of holdings and no number of holders.
pub proof fn lemma_put_asset_holdings(s: Holdings, id: AssetId, record: AssetRecord)
    ensures
        forall|x: AssetId| #[trigger] s.put_asset(id, record).total_held(x) == s.total_held(x),
        forall|x: AssetId| #[trigger]
            s.put_asset(id, record).holder_count(x) == s.holder_count(x),
{
    let t = s.put_asset(id, record);
    assert forall|x: AssetId| #[trigger] t.total_held(x) == s.total_held(x) by {
        assert(s.same_holdings(t, x));
        lemma_holdings_same(s, t, x);
    }
    assert forall|x: AssetId| #[trigger] t.holder_count(x) == s.holder_count(x) by {
        assert(s.same_holdings(t, x));
        lemma_holdings_same(s, t, x);
    }
}

/// Setting what one account holds of an asset changes the sum of the
/// holdings of that asset by what the balance changes, the number of its
/// holders by whether the account is one, and nothing for any other asset.
pub proof fn lemma_with_balance_holdings(s: Holdings, id: AssetId, who: AccountId, amount: nat)
    ensures
        s.with_balance(id, who, amount).balance(id, who) == amount,
        s.with_balance(id, who, amount).total_held(id) + s.balance(id, who) == s.total_held(id)
            + amount,
        s.with_balance(id, who, amount).holder_count(id) + (if s.balance(id, who) > 0 {
            1nat
        } else {
            0nat
        }) == s.holder_count(id) + (if amount > 0 {
            1nat
        } else {
            0nat
        }),
        forall|x: AssetId|
            x != id ==> #[trigger] s.with_balance(id, who, amount).total_held(x) == s.total_held(
                x,
            ),
        forall|x: AssetId|
            x != id ==> #[trigger] s.with_balance(id, who, amount).holder_count(x)
                == s.holder_count(x),
{
    let t = s.with_balance(id, who, amount);
    assert(s.same_holdings_but(t, id, who));
    lemma_holdings_change(s, t, id, who);
    assert forall|x: AssetId| x != id implies #[trigger] t.total_held(x) == s.total_held(x) by {
        assert(s.same_holdings(t, x));
        lemma_holdings_same(s, t, x);
    }
    assert forall|x: AssetId| x != id implies #[trigger] t.holder_count(x) == s.holder_count(
        x,
    ) by {
        assert(s.same_holdings(t, x));
        lemma_holdings_same(s, t, x);
    }
}

/// An asset of which no account holds anything has a sum of holdings of
/// zero and no holders.
pub proof fn lemma_nothing_held(s: Holdings, id: AssetId)
    requires
        forall|w: AccountId| #[trigger] s.balance(id, w) == 0,
    ensures
        s.total_held(id) == 0,
        s.holder_count(id) == 0,
{
    lemma_nothing_held_below(s, id, account_ids());
}

proof fn lemma_nothing_held_below(s: Holdings, id: AssetId, n: nat)
    requires
        forall|w: AccountId| #[trigger] s.balance(id, w) == 0,
    ensures
        s.held_below(id, n) == 0,
        s.holders_below(id, n) == 0,
    decreases n,
{
    if n > 0 {
        lemma_nothing_held_below(s, id, (n - 1) as nat);
        assert(s.balance(id, (n - 1) as AccountId) == 0);
    }
}

/// Creating an asset keeps the store consistent, and keeps every total
/// issuance the sum of the holdings.
pub proof fn lemma_create_consistent(s: LedgerView, id: AssetId)
    requires
        s.store.consistent(),
        s.create_result(id) is Ok,
    ensures
        s.after_create(id).store.consistent(),
        s.store.issuance_matches() ==> s.after_create(id).store.issuance_matches(),
{
    let record = AssetRecord { total_issuance: 0, account_count: 0 };
    let t = s.after_create(id).store;
    lemma_put_asset_holdings(s.store, id, record);
    assert forall|w: AccountId| #[trigger] s.store.balance(id, w) == 0 by {
        if s.store.balances.contains_key((id, w)) {
        }
    }
    lemma_nothing_held(s.store, id);
    assert(t.total_held(id) == s.store.total_held(id));
    assert(t.holder_count(id) == s.store.holder_count(id));
    assert forall|x: AssetId| #[trigger] t.assets.contains_key(x) implies t.assets[x].account_count
        == t.holder_count(x) by {
        assert(t.holder_count(x) == s.store.holder_count(x));
        if x != id {
            assert(s.store.assets.contains_key(x));
        }
    }
    assert forall|x: AssetId, w: AccountId| #[trigger]
        t.balances.contains_key((x, w)) implies t.balances[(x, w)] > 0 && t.assets.contains_key(
        x,
    ) by {
        assert(s.store.balances.contains_key((x, w)));
    }
    if s.store.issuance_matches() {
        assert forall|x: AssetId| #[trigger]
            t.assets.contains_key(x) implies t.assets[x].total_issuance == t.total_held(x) by {
            assert(t.total_held(x) == s.store.total_held(x));
            if x != id {
                assert(s.store.assets.contains_key(x));
            }
        }
    }
}

/// A credit keeps the store consistent where it leaves the account count to
/// the ledger, and changes the sum of the holdings of the asset by the
/// amount.
pub proof fn lemma_credit_consistent(
    s: LedgerView,
    id: AssetId,
    who: AccountId,
    amount: nat,
    adjusted: AssetRecord,
)
    requires
        s.store.assets.contains_key(id),
        amount > 0,
        adjusted.account_count == s.store.assets[id].account_count,
    ensures
        s.store.consistent() ==> s.after_credit(id, who, amount, adjusted).store.consistent(),
        s.after_credit(id, who, amount, adjusted).store.total_held(id) == s.store.total_held(id)
            + amount,
        forall|x: AssetId|
            x != id ==> #[trigger] s.after_credit(id, who, amount, adjusted).store.total_held(x)
                == s.store.total_held(x),
{
    let t = s.after_credit(id, who, amount, adjusted).store;
    let record = AssetRecord {
        total_issuance: adjusted.total_issuance,
        account_count: if s.store.creates(id, who) {
            adjusted.account_count + 1
        } else {
            adjusted.account_count
        },
    };
    let mid = s.store.put_asset(id, record);
    lemma_put_asset_holdings(s.store, id, record);
    assert(mid.balance(id, who) == s.store.balance(id, who));
    let sum = s.store.balance(id, who) + amount;
    assert(t == mid.with_balance(id, who, sum));
    lemma_with_balance_holdings(mid, id, who, sum);
    assert(mid.total_held(id) == s.store.total_held(id));
    assert(mid.holder_count(id) == s.store.holder_count(id));
    assert forall|x: AssetId| x != id implies #[trigger] t.total_held(x) == s.store.total_held(
        x,
    ) by {
        assert(t.total_held(x) == mid.total_held(x));
        assert(mid.total_held(x) == s.store.total_held(x));
    }
    if s.store.consistent() {
        assert forall|x: AssetId| #[trigger]
            t.assets.contains_key(x) implies t.assets[x].account_count == t.holder_count(x) by {
            if x != id {
                assert(s.store.assets.contains_key(x));
                assert(t.holder_count(x) == mid.holder_count(x));
                assert(mid.holder_count(x) == s.store.holder_count(x));
            }
        }
        assert forall|x: AssetId, w: AccountId| #[trigger]
            t.balances.contains_key((x, w)) implies t.balances[(x, w)] > 0
            && t.assets.contains_key(x) by {
            if (x, w) != (id, who) {
                assert(s.store.balances.contains_key((x, w)));
            }
        }
    }
}

/// A debit of no more than the account holds keeps the store consistent where
/// it leaves the account count to the ledger, and changes the sum of the
/// holdings of the asset by the amount.
pub proof fn lemma_debit_consistent(
    s: LedgerView,
    id: AssetId,
    who: AccountId,
    amount: nat,
    adjusted: AssetRecord,
)
    requires
        s.store.assets.contains_key(id),
        0 < amount <= s.store.balance(id, who),
        adjusted.account_count == s.store.assets[id].account_count,
    ensures
        s.store.consistent() ==> s.after_debit(id, who, amount, adjusted).store.consistent(),
        s.after_debit(id, who, amount, adjusted).store.total_held(id) + amount
            == s.store.total_held(id),
        forall|x: AssetId|
            x != id ==> #[trigger] s.after_debit(id, who, amount, adjusted).store.total_held(x)
                == s.store.total_held(x),
{
    let t = s.after_debit(id, who, amount, adjusted).store;
    let record = AssetRecord {
        total_issuance: adjusted.total_issuance,
        account_count: if s.store.removes(id, who, amount) && adjusted.account_count > 0 {
            (adjusted.account_count - 1) as nat
        } else {
            adjusted.account_count
        },
    };
    let mid = s.store.put_asset(id, record);
    lemma_put_asset_holdings(s.store, id, record);
    assert(mid.balance(id, who) == s.store.balance(id, who));
    let rest = (s.store.balance(id, who) - amount) as nat;
    assert(t == mid.with_balance(id, who, rest));
    lemma_with_balance_holdings(mid, id, who, rest);
    assert(mid.total_held(id) == s.store.total_held(id));
    assert(mid.holder_count(id) == s.store.holder_count(id));
    assert forall|x: AssetId| x != id implies #[trigger] t.total_held(x) == s.store.total_held(
        x,
    ) by {
        assert(t.total_held(x) == mid.total_held(x));
        assert(mid.total_held(x) == s.store.total_held(x));
    }
    if s.store.consistent() {
        assert forall|x: AssetId| #[trigger]
            t.assets.contains_key(x) implies t.assets[x].account_count == t.holder_count(x) by {
            if x != id {
                assert(s.store.assets.contains_key(x));
                assert(t.holder_count(x) == mid.holder_count(x));
                assert(mid.holder_count(x) == s.store.holder_count(x));
            }
        }
        assert forall|x: AssetId, w: AccountId| #[trigger]
            t.balances.contains_key((x, w)) implies t.balances[(x, w)] > 0
            && t.assets.contains_key(x) by {
            if (x, w) != (id, who) {
                assert(s.store.balances.contains_key((x, w)));
            }
        }
    }
}

/// A holder of an asset is counted: the number of holders is at least one.
pub proof fn lemma_holder_counted(s: Holdings, id: AssetId, who: AccountId)
    requires
        s.balance(id, who) > 0,
    ensures
        s.holder_count(id) >= 1,
        s.total_held(id) >= s.balance(id, who),
{
    lemma_with_balance_holdings(s, id, who, 0);
}

/// A move between two accounts keeps the store consistent and changes no sum
/// of holdings.
pub proof fn lemma_move_consistent(
    s: Holdings,
    id: AssetId,
    source: AccountId,
    dest: AccountId,
    amount: nat,
)
    requires
        s.assets.contains_key(id),
        source != dest,
        0 < amount <= s.balance(id, source),
    ensures
        s.consistent() ==> s.moved(id, source, dest, amount).consistent(),
        forall|x: AssetId| #[trigger]
            s.moved(id, source, dest, amount).total_held(x) == s.total_held(x),
{
    let t = s.moved(id, source, dest, amount);
    let sum = s.balance(id, dest) + amount;
    let rest = (s.balance(id, source) - amount) as nat;
    let one = s.with_balance(id, dest, sum);
    let two = one.with_balance(id, source, rest);
    lemma_with_balance_holdings(s, id, dest, sum);
    assert(one.balance(id, source) == s.balance(id, source));
    lemma_with_balance_holdings(one, id, source, rest);
    let record = t.assets[id];
    assert(t == two.put_asset(id, record));
    lemma_put_asset_holdings(two, id, record);
    assert forall|x: AssetId| #[trigger] t.total_held(x) == s.total_held(x) by {
        assert(t.total_held(x) == two.total_held(x));
        if x != id {
            assert(two.total_held(x) == one.total_held(x));
            assert(one.total_held(x) == s.total_held(x));
        }
    }
    if s.consistent() {
        lemma_holder_counted(s, id, source);
        assert forall|x: AssetId| #[trigger]
            t.assets.contains_key(x) implies t.assets[x].account_count == t.holder_count(x) by {
            assert(t.holder_count(x) == two.holder_count(x));
            if x != id {
                assert(s.assets.contains_key(x));
                assert(two.holder_count(x) == one.holder_count(x));
                assert(one.holder_count(x) == s.holder_count(x));
            }
        }
        assert forall|x: AssetId, w: AccountId| #[trigger]
            t.balances.contains_key((x, w)) implies t.balances[(x, w)] > 0
            && t.assets.contains_key(x) by {
            if (x, w) != (id, source) && (x, w) != (id, dest) {
                assert(s.balances.contains_key((x, w)));
            }
        }
    }
}

/// A transfer keeps the store consistent, changes no total issuance and no
/// sum of holdings, and so keeps every total issuance the sum of the
/// holdings.
pub proof fn lemma_transfer_consistent(
    s: LedgerView,
    id: AssetId,
    source: AccountId,
    dest: AccountId,
    amount: Amount,
)
    ensures
        s.store.consistent() ==> s.after_transfer(id, source, dest, amount).store.consistent(),
        s.store.issuance_matches() ==> s.after_transfer(
            id,
            source,
            dest,
            amount,
        ).store.issuance_matches(),
        forall|x: AssetId| #[trigger]
            s.after_transfer(id, source, dest, amount).store.total_issuance(x)
                == s.store.total_issuance(x),
        forall|x: AssetId| #[trigger]
            s.after_transfer(id, source, dest, amount).store.total_held(x) == s.store.total_held(
                x,
            ),
{
    let t = s.after_transfer(id, source, dest, amount).store;
    if s.transfer_result(id, source, dest, amount@) is Ok && amount@ != 0 && source != dest {
        lemma_move_consistent(s.store, id, source, dest, amount@);
        if s.store.issuance_matches() {
            assert forall|x: AssetId| #[trigger]
                t.assets.contains_key(x) implies t.assets[x].total_issuance == t.total_held(
                x,
            ) by {
                assert(t.total_held(x) == s.store.total_held(x));
                assert(s.store.assets.contains_key(x));
            }
        }
    } else {
        assert(t == s.store);
    }
}

/// Issuing keeps the store consistent and keeps every total issuance the sum
/// of the holdings: both grow by the amount.
pub proof fn lemma_issue_consistent(s: LedgerView, id: AssetId, who: AccountId, amount: Amount)
    ensures
        s.store.consistent() ==> s.after_issue(id, who, amount).store.consistent(),
        s.store.issuance_matches() ==> s.after_issue(id, who, amount).store.issuance_matches(),
{
    let t = s.after_issue(id, who, amount).store;
    if s.issue_result(id, who, amount@) is Ok && amount@ != 0 {
        let adjusted = AssetRecord {
            total_issuance: s.store.assets[id].total_issuance + amount@,
            account_count: s.store.assets[id].account_count,
        };
        lemma_credit_consistent(s, id, who, amount@, adjusted);
        if s.store.issuance_matches() {
            assert forall|x: AssetId| #[trigger]
                t.assets.contains_key(x) implies t.assets[x].total_issuance == t.total_held(
                x,
            ) by {
                if x != id {
                    assert(s.store.assets.contains_key(x));
                    assert(t.total_held(x) == s.store.total_held(x));
                }
            }
        }
    } else {
        assert(t == s.store);
    }
}

/// Burning keeps the store consistent and keeps every total issuance the sum
/// of the holdings: both shrink by the amount.
pub proof fn lemma_burn_consistent(s: LedgerView, id: AssetId, who: AccountId, amount: Amount)
    ensures
        s.store.consistent() ==> s.after_burn(id, who, amount).store.consistent(),
        s.store.issuance_matches() ==> s.after_burn(id, who, amount).store.issuance_matches(),
{
    let t = s.after_burn(id, who, amount).store;
    if s.burn_result(id, who, amount@) is Ok && amount@ != 0 {
        let adjusted = AssetRecord {
            total_issuance: (s.store.assets[id].total_issuance - amount@) as nat,
            account_count: s.store.assets[id].account_count,
        };
        lemma_debit_consistent(s, id, who, amount@, adjusted);
        if s.store.issuance_matches() {
            assert forall|x: AssetId| #[trigger]
                t.assets.contains_key(x) implies t.assets[x].total_issuance == t.total_held(
                x,
            ) by {
                if x != id {
                    assert(s.store.assets.contains_key(x));
                    assert(t.total_held(x) == s.store.total_held(x));
                }
            }
        }
    } else {
        assert(t == s.store);
    }
}

/// A deposit keeps the store consistent. It changes no total issuance, and
/// where it succeeds the sum of the holdings of the asset grows by the
/// amount.
pub proof fn lemma_deposit_consistent(s: LedgerView, id: AssetId, who: AccountId, amount: nat)
    ensures
        s.store.consistent() ==> s.after_deposit(id, who, amount).store.consistent(),
        forall|x: AssetId| #[trigger]
            s.after_deposit(id, who, amount).store.total_issuance(x) == s.store.total_issuance(x),
        s.after_deposit(id, who, amount).store.total_held(id) == s.store.total_held(id) + (
        if s.deposit_result(id, who, amount) is Ok {
            amount
        } else {
            0
        }),
        forall|x: AssetId|
            x != id ==> #[trigger] s.after_deposit(id, who, amount).store.total_held(x)
                == s.store.total_held(x),
{
    if s.deposit_result(id, who, amount) is Ok && amount != 0 {
        lemma_credit_consistent(s, id, who, amount, s.store.assets[id]);
    }
}

/// A withdrawal keeps the store consistent. It changes no total issuance, and
/// where it succeeds the sum of the holdings of the asset shrinks by the
/// amount.
pub proof fn lemma_withdraw_consistent(s: LedgerView, id: AssetId, who: AccountId, amount: nat)
    ensures
        s.store.consistent() ==> s.after_withdraw(id, who, amount).store.consistent(),
        forall|x: AssetId| #[trigger]
            s.after_withdraw(id, who, amount).store.total_issuance(x) == s.store.total_issuance(
                x,
            ),
        s.after_withdraw(id, who, amount).store.total_held(id) + (if s.withdraw_result(
            id,
            who,
            amount,
        ) is Ok {
            amount
        } else {
            0
        }) == s.store.total_held(id),
        forall|x: AssetId|
            x != id ==> #[trigger] s.after_withdraw(id, who, amount).store.total_held(x)
                == s.store.total_held(x),
{
    if s.withdraw_result(id, who, amount) is Ok && amount != 0 {
        lemma_debit_consistent(s, id, who, amount, s.store.assets[id]);
    }
}

/// Setting the total issuance of an asset keeps the store consistent and
/// changes no sum of holdings.
pub proof fn lemma_set_total_issuance_consistent(s: LedgerView, id: AssetId, amount: nat)
    ensures
        s.store.consistent() ==> s.after_set_total_issuance(id, amount).store.consistent(),
        forall|x: AssetId| #[trigger]
            s.after_set_total_issuance(id, amount).store.total_held(x) == s.store.total_held(x),
{
    let t = s.after_set_total_issuance(id, amount).store;
    if s.store.assets.contains_key(id) {
        lemma_put_asset_holdings(s.store, id, t.assets[id]);
        if s.store.consistent() {
            assert forall|x: AssetId| #[trigger]
                t.assets.contains_key(x) implies t.assets[x].account_count == t.holder_count(
                x,
            ) by {
                assert(t.holder_count(x) == s.store.holder_count(x));
                assert(s.store.assets.contains_key(x));
            }
            assert forall|x: AssetId, w: AccountId| #[trigger]
                t.balances.contains_key((x, w)) implies t.balances[(x, w)] > 0
                && t.assets.contains_key(x) by {
                assert(s.store.balances.contains_key((x, w)));
            }
        }
    }
}

/// Setting a balance keeps the store consistent.
pub proof fn lemma_set_balance_consistent(s: LedgerView, id: AssetId, who: AccountId, amount: nat)
    requires
        s.set_balance_result(id, who, amount) is Ok,
    ensures
        s.store.consistent() ==> s.after_set_balance(id, who, amount).store.consistent(),
{
    let t = s.after_set_balance(id, who, amount).store;
    let record = t.assets[id];
    let mid = s.store.put_asset(id, record);
    lemma_put_asset_holdings(s.store, id, record);
    assert(mid.balance(id, who) == s.store.balance(id, who));
    assert(t == mid.with_balance(id, who, amount));
    lemma_with_balance_holdings(mid, id, who, amount);
    if s.store.consistent() {
        if s.store.balance(id, who) > 0 {
            lemma_holder_counted(s.store, id, who);
        }
        assert(mid.holder_count(id) == s.store.holder_count(id));
        assert forall|x: AssetId| #[trigger]
            t.assets.contains_key(x) implies t.assets[x].account_count == t.holder_count(x) by {
            if x != id {
                assert(s.store.assets.contains_key(x));
                assert(t.holder_count(x) == mid.holder_count(x));
                assert(mid.holder_count(x) == s.store.holder_count(x));
            }
        }
        assert forall|x: AssetId, w: AccountId| #[trigger]
            t.balances.contains_key((x, w)) implies t.balances[(x, w)] > 0
            && t.assets.contains_key(x) by {
            if (x, w) != (id, who) {
                assert(s.store.balances.contains_key((x, w)));
            }
        }
    }
}

impl Holdings {
    /// The accounts with an identifier below `n` that hold some of the
    /// asset.
    pub open spec fn holders_set_below(self, id: AssetId, n: nat) -> Set<AccountId> {
        Set::new(|w: AccountId| w < n && self.balance(id, w) > 0)
    }

    /// The accounts that hold some of the asset.
    pub open spec fn holders(self, id: AssetId) -> Set<AccountId> {
        Set::new(|w: AccountId| self.balance(id, w) > 0)
    }
}

proof fn lemma_holders_below_counted(s: Holdings, id: AssetId, n: nat)
    requires
        n <= account_ids(),
    ensures
        s.holders_set_below(id, n).finite(),
        s.holders_set_below(id, n).len() == s.holders_below(id, n),
    decreases n,
{
    if n == 0 {
        assert(s.holders_set_below(id, n) =~= Set::<AccountId>::empty());
    } else {
        let m = (n - 1) as nat;
        let w = m as AccountId;
        lemma_holders_below_counted(s, id, m);
        if s.balance(id, w) > 0 {
            assert(s.holders_set_below(id, n) =~= s.holders_set_below(id, m).insert(w));
        } else {
            assert(s.holders_set_below(id, n) =~= s.holders_set_below(id, m));
        }
    }
}

/// The number of holders of an asset is the size of the set of the accounts
/// that hold some of it: the set is finite, and there are as many accounts
/// in it as are counted.
pub proof fn lemma_holders_counted(s: Holdings, id: AssetId)
    ensures
        s.holders(id).finite(),
        s.holders(id).len() == s.holder_count(id),
{
    lemma_holders_below_counted(s, id, account_ids());
    assert(s.holders(id) =~= s.holders_set_below(id, account_ids()));
}

/// An operation that keeps the total issuance in step with the balances.
pub enum Operation {
    /// Give the asset its record.
    Create(AssetId),
    /// Issue the amount of the asset to the account.
    Mint(AssetId, AccountId, Amount),
    /// Burn the amount of the asset from the account.
    Burn(AssetId, AccountId, Amount),
    /// Move the amount of the asset from the first account to the second.
    Transfer(AssetId, AccountId, AccountId, Amount),
}

impl LedgerView {
    /// The ledger after the operation. One that fails changes nothing.
    pub open spec fn apply(self, operation: Operation) -> LedgerView {
        match operation {
            Operation::Create(id) => if self.create_result(id) is Ok {
                self.after_create(id)
            } else {
                self
            },
            Operation::Mint(id, who, amount) => self.after_issue(id, who, amount),
            Operation::Burn(id, who, amount) => self.after_burn(id, who, amount),
            Operation::Transfer(id, source, dest, amount) => self.after_transfer(
                id,
                source,
                dest,
                amount,
            ),
        }
    }

    /// The ledger after the operations, first to last.
    pub open spec fn run(self, operations: Seq<Operation>) -> LedgerView
        decreases operations.len(),
    {
        if operations.len() == 0 {
            self
        } else {
            self.run(operations.drop_last()).apply(operations.last())
        }
    }
}

/// A ledger in which no account holds anything, and every record is of no
/// supply and no accounts, is consistent, and every total issuance in it is
/// the sum of the holdings.
pub proof fn lemma_fresh_consistent(s: Holdings)
    requires
        s.balances == Map::<(AssetId, AccountId), nat>::empty(),
        forall|id: AssetId| #[trigger]
            s.assets.contains_key(id) ==> s.assets[id] == (AssetRecord {
                total_issuance: 0,
                account_count: 0,
            }),
    ensures
        s.consistent(),
        s.issuance_matches(),
{
    assert forall|id: AssetId| #[trigger] s.assets.contains_key(id) implies s.assets[id].account_count
        == s.holder_count(id) && s.assets[id].total_issuance == s.total_held(id) by {
        lemma_nothing_held(s, id);
    }
}

/// A ledger that was opened with a list of assets holds a record of no
/// supply and no accounts for each asset of the list and for no other, and
/// no balance; it has reported the creation of each asset of the list once,
/// and nothing else. It is consistent, and every total issuance in it is
/// the sum of the holdings.
pub proof fn lemma_opened(assets: Seq<AssetId>)
    ensures
        forall|id: AssetId| #[trigger]
            LedgerView::empty().opened_with(assets).store.assets.contains_key(id)
                <==> assets.contains(id),
        forall|id: AssetId| #[trigger]
            LedgerView::empty().opened_with(assets).store.assets.contains_key(id)
                ==> LedgerView::empty().opened_with(assets).store.assets[id] == (AssetRecord {
                total_issuance: 0,
                account_count: 0,
            }),
        LedgerView::empty().opened_with(assets).store.balances == Map::<
            (AssetId, AccountId),
            nat,
        >::empty(),
        LedgerView::empty().opened_with(assets).lifecycle == Seq::<Lifecycle>::empty(),
        forall|id: AssetId| #[trigger]
            LedgerView::empty().opened_with(assets).events.contains(Event::Created(id))
                <==> assets.contains(id),
        LedgerView::empty().opened_with(assets).events.no_duplicates(),
        forall|j: int|
            0 <= j < LedgerView::empty().opened_with(assets).events.len() ==> (
            #[trigger] LedgerView::empty().opened_with(assets).events[j]) is Created,
        LedgerView::empty().opened_with(assets).store.consistent(),
        LedgerView::empty().opened_with(assets).store.issuance_matches(),
    decreases assets.len(),
{
    let t = LedgerView::empty().opened_with(assets);
    if assets.len() > 0 {
        let rest = assets.drop_last();
        let last = assets.last();
        let before = LedgerView::empty().opened_with(rest);
        lemma_opened(rest);
        assert(assets == rest.push(last));
        assert forall|id: AssetId| assets.contains(id) <==> (rest.contains(id) || id == last) by {
            if rest.contains(id) {
                let j = choose|j: int| 0 <= j < rest.len() && rest[j] == id;
                assert(assets[j] == id);
            }
            if id == last {
                assert(assets[assets.len() - 1] == id);
            }
        }
        if before.create_result(last) is Ok {
            assert(t.events == before.events.push(Event::Created(last)));
            assert forall|id: AssetId| #[trigger]
                t.events.contains(Event::Created(id)) <==> assets.contains(id) by {
                if before.events.contains(Event::Created(id)) {
                    let j = choose|j: int|
                        0 <= j < before.events.len() && before.events[j] == Event::Created(id);
                    assert(t.events[j] == Event::Created(id));
                }
                if id == last {
                    assert(t.events[t.events.len() - 1] == Event::Created(id));
                }
            }
            assert(!before.events.contains(Event::Created(last)));
            assert(t.events.no_duplicates());
        } else {
            assert(rest.contains(last));
        }
    } else {
        assert(t.events.no_duplicates());
    }
    lemma_fresh_consistent(t.store);
}

/// After every sequence of operations, on a ledger that was consistent and
/// in which every total issuance was the sum of the holdings: the ledger is
/// consistent, so that the account count of every asset is the number of
/// accounts that hold some of it, and the total issuance of every asset is
/// the sum of what the accounts hold of it.
pub proof fn lemma_operations_consistent(s: LedgerView, operations: Seq<Operation>)
    requires
        s.store.consistent(),
        s.store.issuance_matches(),
    ensures
        s.run(operations).store.consistent(),
        s.run(operations).store.issuance_matches(),
    decreases operations.len(),
{
    if operations.len() > 0 {
        lemma_operations_consistent(s, operations.drop_last());
        let before = s.run(operations.drop_last());
        match operations.last() {
            Operation::Create(id) => {
                if before.create_result(id) is Ok {
                    lemma_create_consistent(before, id);
                }
            },
            Operation::Mint(id, who, amount) => {
                lemma_issue_consistent(before, id, who, amount);
            },
            Operation::Burn(id, who, amount) => {
                lemma_burn_consistent(before, id, who, amount);
            },
            Operation::Transfer(id, source, dest, amount) => {
                lemma_transfer_consistent(before, id, source, dest, amount);
            },
        }
    }
}

/// An amount of zero changes no record and no balance, and succeeds: always
/// for a deposit, a withdrawal, an issue and a burn; for a transfer where
/// the asset has a record, without which it fails.
pub proof fn lemma_zero_changes_nothing(
    s: LedgerView,
    id: AssetId,
    who: AccountId,
    dest: AccountId,
    amount: Amount,
)
    requires
        amount@ == 0,
    ensures
        s.deposit_result(id, who, amount@) is Ok,
        s.after_deposit(id, who, amount@) == s,
        s.withdraw_result(id, who, amount@) is Ok,
        s.after_withdraw(id, who, amount@) == s,
        s.issue_result(id, who, amount@) is Ok,
        s.after_issue(id, who, amount).store == s.store,
        s.burn_result(id, who, amount@) is Ok,
        s.after_burn(id, who, amount).store == s.store,
        s.transfer_result(id, who, dest, amount@) is Ok <==> s.store.assets.contains_key(id),
        s.after_transfer(id, who, dest, amount).store == s.store,
{
}

/// A transfer from an account to itself changes no record and no balance,
/// whatever the amount. It succeeds, and is reported, where the asset has a
/// record, and fails where it has none.
pub proof fn lemma_self_transfer(s: LedgerView, id: AssetId, who: AccountId, amount: Amount)
    ensures
        s.after_transfer(id, who, who, amount).store == s.store,
        forall|x: AssetId, w: AccountId| #[trigger]
            s.after_transfer(id, who, who, amount).store.balance(x, w) == s.store.balance(x, w),
        s.transfer_result(id, who, who, amount@) is Ok <==> s.store.assets.contains_key(id),
        s.store.assets.contains_key(id) ==> s.after_transfer(id, who, who, amount).events
            == s.events.push(Event::Transferred(id, who, who, amount)),
{
}

/// A step in the accounting of imbalances.
pub enum Step {
    /// A deposit of the amount of the asset to the account, which hands out
    /// a debt.
    Deposit(AssetId, AccountId, nat),
    /// A withdrawal of the amount of the asset from the account, which
    /// hands out a credit.
    Withdraw(AssetId, AccountId, nat),
    /// A credit of the amount of the asset is resolved into the account.
    Resolve(AssetId, AccountId, nat),
    /// A debt of the amount of the asset is settled from the account.
    Settle(AssetId, AccountId, nat),
    /// A debt and a credit of the asset, of the two amounts, are set
    /// against each other.
    Offset(AssetId, nat, nat),
    /// A debt of the amount of the asset is finalized.
    FinalizeDebt(AssetId, nat),
    /// A credit of the amount of the asset is finalized.
    FinalizeCredit(AssetId, nat),
}

impl LedgerView {
    /// By how much the sum of the holdings of the asset is over its total
    /// issuance.
    pub open spec fn gap(self, id: AssetId) -> int {
        self.store.total_held(id) - self.store.total_issuance(id)
    }

    /// The ledger after the step. A deposit, a withdrawal, a resolve and a
    /// settle that fail change nothing, and setting two imbalances against
    /// each other never does.
    pub open spec fn step(self, step: Step) -> LedgerView {
        match step {
            Step::Deposit(id, who, amount) => self.after_deposit(id, who, amount),
            Step::Withdraw(id, who, amount) => self.after_withdraw(id, who, amount),
            Step::Resolve(id, who, amount) => self.after_deposit(id, who, amount),
            Step::Settle(id, who, amount) => self.after_withdraw(id, who, amount),
            Step::Offset(id, debt, credit) => self,
            Step::FinalizeDebt(id, amount) => if amount == 0 {
                self
            } else {
                self.after_set_total_issuance(
                    id,
                    saturating_sum(self.store.total_issuance(id), amount),
                )
            },
            Step::FinalizeCredit(id, amount) => if amount == 0 {
                self
            } else {
                self.after_set_total_issuance(
                    id,
                    saturating_difference(self.store.total_issuance(id), amount),
                )
            },
        }
    }

    /// By how much the step changes what is in hand of the asset: the debts
    /// that were handed out and not yet retired, less the credits that were
    /// handed out and not yet retired.
    pub open spec fn handed_out(self, step: Step, asset: AssetId) -> int {
        match step {
            Step::Deposit(id, who, amount) => if id == asset && self.deposit_result(
                id,
                who,
                amount,
            ) is Ok {
                amount as int
            } else {
                0
            },
            Step::Withdraw(id, who, amount) => if id == asset && self.withdraw_result(
                id,
                who,
                amount,
            ) is Ok {
                -(amount as int)
            } else {
                0
            },
            Step::Resolve(id, who, amount) => if id == asset && self.deposit_result(
                id,
                who,
                amount,
            ) is Ok {
                amount as int
            } else {
                0
            },
            Step::Settle(id, who, amount) => if id == asset && self.withdraw_result(
                id,
                who,
                amount,
            ) is Ok {
                -(amount as int)
            } else {
                0
            },
            Step::Offset(id, debt, credit) => 0,
            Step::FinalizeDebt(id, amount) => if id == asset {
                -(amount as int)
            } else {
                0
            },
            Step::FinalizeCredit(id, amount) => if id == asset {
                amount as int
            } else {
                0
            },
        }
    }

    /// The step corrects the total issuance by no more than it can take: a
    /// finalized imbalance is of an asset with a record, a finalized debt
    /// does not bring the total issuance over the largest amount, and a
    /// finalized credit is no larger than the total issuance.
    pub open spec fn takes(self, step: Step) -> bool {
        match step {
            Step::FinalizeDebt(id, amount) => self.store.assets.contains_key(id)
                && self.store.total_issuance(id) + amount <= max_amount(),
            Step::FinalizeCredit(id, amount) => self.store.assets.contains_key(id) && amount
                <= self.store.total_issuance(id),
            _ => true,
        }
    }

    /// The ledger after the steps, first to last.
    pub open spec fn walk(self, steps: Seq<Step>) -> LedgerView
        decreases steps.len(),
    {
        if steps.len() == 0 {
            self
        } else {
            self.walk(steps.drop_last()).step(steps.last())
        }
    }

    /// The ledger can take each of the steps at the time it is made.
    pub open spec fn takes_all(self, steps: Seq<Step>) -> bool
        decreases steps.len(),
    {
        if steps.len() == 0 {
            true
        } else {
            self.takes_all(steps.drop_last()) && self.walk(steps.drop_last()).takes(steps.last())
        }
    }

    /// What the steps leave in hand of the asset: the debts that were
    /// handed out and not retired, less the credits that were handed out
    /// and not retired.
    pub open spec fn in_hand(self, steps: Seq<Step>, asset: AssetId) -> int
        decreases steps.len(),
    {
        if steps.len() == 0 {
            0
        } else {
            self.in_hand(steps.drop_last(), asset) + self.walk(steps.drop_last()).handed_out(
                steps.last(),
                asset,
            )
        }
    }
}

/// The debts of the asset that the steps finalized, less the credits of the
/// asset that they finalized.
pub open spec fn finalized(steps: Seq<Step>, asset: AssetId) -> int
    decreases steps.len(),
{
    if steps.len() == 0 {
        0
    } else {
        finalized(steps.drop_last(), asset) + match steps.last() {
            Step::FinalizeDebt(id, amount) => if id == asset {
                amount as int
            } else {
                0
            },
            Step::FinalizeCredit(id, amount) => if id == asset {
                -(amount as int)
            } else {
                0
            },
            _ => 0,
        }
    }
}

/// What one step does to the total issuance and to the gap between the
/// holdings and the total issuance of an asset.
pub proof fn lemma_step_conserves(s: LedgerView, step: Step, asset: AssetId)
    requires
        s.takes(step),
    ensures
        s.store.consistent() ==> s.step(step).store.consistent(),
        s.step(step).store.assets.contains_key(asset) == s.store.assets.contains_key(asset),
        s.step(step).store.total_issuance(asset) - s.store.total_issuance(asset) == finalized(
            seq![step],
            asset,
        ),
        s.step(step).gap(asset) - s.gap(asset) == s.handed_out(step, asset),
{
    assert(seq![step].drop_last() =~= Seq::<Step>::empty());
    assert(seq![step].last() == step);
    assert(finalized(Seq::<Step>::empty(), asset) == 0);
    match step {
        Step::Deposit(id, who, amount) => {
            lemma_deposit_consistent(s, id, who, amount);
        },
        Step::Withdraw(id, who, amount) => {
            lemma_withdraw_consistent(s, id, who, amount);
        },
        Step::Resolve(id, who, amount) => {
            lemma_deposit_consistent(s, id, who, amount);
        },
        Step::Settle(id, who, amount) => {
            lemma_withdraw_consistent(s, id, who, amount);
        },
        Step::Offset(id, debt, credit) => {},
        Step::FinalizeDebt(id, amount) => {
            lemma_set_total_issuance_consistent(
                s,
                id,
                saturating_sum(s.store.total_issuance(id), amount),
            );
        },
        Step::FinalizeCredit(id, amount) => {
            lemma_set_total_issuance_consistent(
                s,
                id,
                saturating_difference(s.store.total_issuance(id), amount),
            );
        },
    }
}

/// Conservation. After any sequence of deposits, withdrawals, offsets,
/// resolves, settles and finalizations that the ledger can take:
///
/// - the total issuance of an asset has changed by the debts of the asset
///   that were finalized, less the credits that were finalized, and by
///   nothing else;
/// - the gap between the sum of the holdings and the total issuance of the
///   asset has changed by what is left in hand: the debts that were handed
///   out and not retired, less the credits that were handed out and not
///   retired.
///
/// So a ledger in which the total issuance was the sum of the holdings is
/// such a ledger again as soon as nothing is left in hand.
pub proof fn lemma_conservation(s: LedgerView, steps: Seq<Step>, asset: AssetId)
    requires
        s.takes_all(steps),
    ensures
        s.store.consistent() ==> s.walk(steps).store.consistent(),
        s.walk(steps).store.assets.contains_key(asset) == s.store.assets.contains_key(asset),
        s.walk(steps).store.total_issuance(asset) - s.store.total_issuance(asset) == finalized(
            steps,
            asset,
        ),
        s.walk(steps).gap(asset) - s.gap(asset) == s.in_hand(steps, asset),
    decreases steps.len(),
{
    if steps.len() > 0 {
        lemma_conservation(s, steps.drop_last(), asset);
        let before = s.walk(steps.drop_last());
        lemma_step_conserves(before, steps.last(), asset);
        assert(seq![steps.last()].drop_last() =~= Seq::<Step>::empty());
        assert(seq![steps.last()].last() == steps.last());
        assert(finalized(Seq::<Step>::empty(), asset) == 0);
    }
}

/// A ledger in which every total issuance was the sum of the holdings is
/// such a ledger again after any sequence of steps that leaves nothing in
/// hand.
pub proof fn lemma_nothing_in_hand_matches(s: LedgerView, steps: Seq<Step>)
    requires
        s.store.issuance_matches(),
        s.takes_all(steps),
        forall|id: AssetId| s.store.assets.contains_key(id) ==> #[trigger] s.in_hand(steps, id) == 0,
    ensures
        s.walk(steps).store.issuance_matches(),
{
    let t = s.walk(steps);
    assert forall|id: AssetId| #[trigger] t.store.assets.contains_key(id) implies t.store.assets[id].total_issuance
        == t.store.total_held(id) by {
        lemma_conservation(s, steps, id);
        assert(s.store.assets.contains_key(id));
        assert(s.in_hand(steps, id) == 0);
    }
}

} // verus!
