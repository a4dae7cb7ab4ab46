use asset_ledger::amount::Amount;
use asset_ledger::asset::{AssetBalance, AssetDetails};
use asset_ledger::consequence::{DepositConsequence, Error, WithdrawConsequence};
use asset_ledger::engine;
use asset_ledger::imbalance::{net, SameOrOther};
use sp_core::U256;

fn amount(value: u128) -> Amount {
    Amount::from_u128(value)
}

fn words(a: Amount) -> [u64; 4] {
    [a.w0, a.w1, a.w2, a.w3]
}

fn details(supply: Amount, accounts: u32) -> AssetDetails {
    AssetDetails { supply, accounts }
}

fn holding(balance: Amount) -> AssetBalance {
    AssetBalance { balance }
}

#[test]
fn amounts_are_held_as_u256_holds_them() {
    for value in [0u128, 1, 100, u64::MAX as u128, (u64::MAX as u128) + 1, u128::MAX] {
        assert_eq!(words(amount(value)), U256::from(value).0);
    }
    assert_eq!(words(amount(0)), [0, 0, 0, 0]);
    assert_eq!(words(amount(1 << 64)), [0, 1, 0, 0]);
    assert_eq!(words(amount(u128::MAX)), [u64::MAX, u64::MAX, 0, 0]);
    assert_eq!(words(Amount::max_value()), U256::MAX.0);
    assert!(amount(7).same(amount(7)));
    assert!(!amount(7).same(amount(8)));
    assert!(!amount(1 << 64).same(amount(0)));
}

#[test]
fn records_default_to_nothing() {
    assert_eq!(AssetDetails::default(), details(amount(0), 0));
    assert_eq!(AssetBalance::default(), holding(amount(0)));
}

#[test]
fn adjustments_saturate() {
    let base = details(amount(10), 3);
    assert_eq!(base.issue(amount(5)), Ok(details(amount(15), 3)));
    assert_eq!(base.issue(Amount::max_value()), Ok(details(Amount::max_value(), 3)));
    assert_eq!(base.burn(amount(4)), Ok(details(amount(6), 3)));
    assert_eq!(base.burn(amount(11)), Ok(details(amount(0), 3)));
    assert_eq!(base.keep(), Ok(base));
    // a carry from one word into the next
    let carried = details(amount(u64::MAX as u128), 0).issue(amount(1)).expect("no failure");
    assert_eq!(words(carried.supply), [0, 1, 0, 0]);
    let borrowed = details(amount(1 << 64), 0).burn(amount(1)).expect("no failure");
    assert_eq!(words(borrowed.supply), [u64::MAX, 0, 0, 0]);
}

#[test]
fn accounts_are_counted_up_to_the_largest_count() {
    let mut record = details(amount(0), 0);
    assert_eq!(record.new_account(), Ok(()));
    assert_eq!(record.accounts, 1);
    record.dead_account();
    assert_eq!(record.accounts, 0);
    record.dead_account();
    assert_eq!(record.accounts, 0);

    let mut full = details(amount(9), u32::MAX);
    assert_eq!(full.new_account(), Err(Error::Overflow));
    assert_eq!(full, details(amount(9), u32::MAX));
    full.dead_account();
    assert_eq!(full, details(amount(9), u32::MAX - 1));
}

#[test]
fn deposit_is_checked_against_issuance_count_and_balance() {
    let most = Amount::max_value();
    let some = Some(details(amount(100), 2));
    assert_eq!(engine::check_deposit(None, holding(amount(1)), amount(1)), DepositConsequence::UnknownAsset);
    assert_eq!(engine::check_deposit(some, holding(amount(1)), amount(1)), DepositConsequence::Success);
    assert_eq!(engine::check_deposit(some, holding(amount(0)), amount(1)), DepositConsequence::Success);
    assert_eq!(engine::check_deposit(some, holding(amount(1)), most), DepositConsequence::Overflow);
    // the issuance fits, the balance does not
    let low = Some(details(amount(0), 2));
    assert_eq!(engine::check_deposit(low, holding(amount(1)), most), DepositConsequence::Overflow);
    assert_eq!(engine::check_deposit(low, holding(amount(0)), most), DepositConsequence::Success);
    // one holder too many
    let full = Some(details(amount(100), u32::MAX));
    assert_eq!(engine::check_deposit(full, holding(amount(0)), amount(1)), DepositConsequence::Overflow);
    assert_eq!(engine::check_deposit(full, holding(amount(5)), amount(1)), DepositConsequence::Success);
    assert_eq!(DepositConsequence::Overflow.into_result(), Err(Error::Overflow));
    assert_eq!(DepositConsequence::UnknownAsset.into_result(), Err(Error::UnknownAsset));
    assert_eq!(DepositConsequence::Success.into_result(), Ok(()));
}

#[test]
fn withdrawal_is_checked_against_issuance_then_balance() {
    let some = Some(details(amount(100), 2));
    assert_eq!(engine::check_withdraw(None, holding(amount(1)), amount(1)), WithdrawConsequence::UnknownAsset);
    assert_eq!(engine::check_withdraw(some, holding(amount(50)), amount(50)), WithdrawConsequence::Success);
    assert_eq!(engine::check_withdraw(some, holding(amount(50)), amount(51)), WithdrawConsequence::NoFunds);
    assert_eq!(engine::check_withdraw(some, holding(amount(50)), amount(101)), WithdrawConsequence::Underflow);
    assert_eq!(engine::check_withdraw(some, holding(amount(500)), amount(101)), WithdrawConsequence::Underflow);
    assert_eq!(WithdrawConsequence::NoFunds.into_result(), Err(Error::NoFunds));
    assert_eq!(WithdrawConsequence::Underflow.into_result(), Err(Error::Underflow));
    assert_eq!(WithdrawConsequence::UnknownAsset.into_result(), Err(Error::UnknownAsset));
    assert_eq!(WithdrawConsequence::Success.into_result(), Ok(()));
}

#[test]
fn increase_is_planned_on_the_records() {
    let record = details(amount(100), 2);
    let nothing = engine::increase_balance(None, holding(amount(0)), amount(0), |d| d.keep());
    assert!(matches!(nothing, Ok(None)));
    let unknown = engine::increase_balance(None, holding(amount(0)), amount(1), |d| d.keep());
    assert!(matches!(unknown, Err(Error::UnknownAsset)));

    let plan = engine::increase_balance(Some(record), holding(amount(0)), amount(7), |d| d.issue(amount(7)))
        .expect("the deposit is in order")
        .expect("something is to be written");
    assert_eq!(plan.details, details(amount(107), 3));
    assert_eq!(plan.account, holding(amount(7)));
    assert!(plan.created);

    let plan = engine::increase_balance(Some(record), holding(amount(1)), amount(7), |d| d.keep())
        .expect("the deposit is in order")
        .expect("something is to be written");
    assert_eq!(plan.details, record);
    assert_eq!(plan.account, holding(amount(8)));
    assert!(!plan.created);

    let refused = engine::increase_balance(Some(record), holding(amount(1)), amount(7), |_| Err(Error::NoFunds));
    assert!(matches!(refused, Err(Error::NoFunds)));
    // an adjustment that fills the count leaves no room for a new holder
    let filled = engine::increase_balance(Some(record), holding(amount(0)), amount(7), |d| {
        Ok(AssetDetails { supply: d.supply, accounts: u32::MAX })
    });
    assert!(matches!(filled, Err(Error::Overflow)));
}

#[test]
fn decrease_is_planned_on_the_records() {
    let record = details(amount(100), 2);
    let nothing = engine::decrease_balance(None, holding(amount(0)), amount(0), |d| d.keep());
    assert!(matches!(nothing, Ok(None)));
    let unknown = engine::decrease_balance(None, holding(amount(5)), amount(1), |d| d.keep());
    assert!(matches!(unknown, Err(Error::UnknownAsset)));

    let plan = engine::decrease_balance(Some(record), holding(amount(9)), amount(9), |d| d.burn(amount(9)))
        .expect("the withdrawal is in order")
        .expect("something is to be written");
    assert_eq!(plan.details, details(amount(91), 1));
    assert_eq!(plan.account, holding(amount(0)));
    assert!(plan.removed);

    let plan = engine::decrease_balance(Some(record), holding(amount(9)), amount(4), |d| d.keep())
        .expect("the withdrawal is in order")
        .expect("something is to be written");
    assert_eq!(plan.details, record);
    assert_eq!(plan.account, holding(amount(5)));
    assert!(!plan.removed);

    let refused = engine::decrease_balance(Some(record), holding(amount(9)), amount(4), |_| Err(Error::Overflow));
    assert!(matches!(refused, Err(Error::Overflow)));
}

#[test]
fn transfer_is_planned_on_the_records() {
    let record = details(amount(100), 2);
    let unknown = engine::transfer(None, false, holding(amount(5)), holding(amount(0)), amount(0));
    assert!(matches!(unknown, Err(Error::UnknownAsset)));
    let zero = engine::transfer(Some(record), false, holding(amount(5)), holding(amount(0)), amount(0));
    assert!(matches!(zero, Ok(None)));
    let same = engine::transfer(Some(record), true, holding(amount(5)), holding(amount(5)), amount(50));
    assert!(matches!(same, Ok(None)));

    let plan = engine::transfer(Some(record), false, holding(amount(5)), holding(amount(0)), amount(5))
        .expect("the transfer is in order")
        .expect("something is to be written");
    assert_eq!(plan.details, record);
    assert_eq!(plan.source, holding(amount(0)));
    assert_eq!(plan.dest, holding(amount(5)));
    assert!(plan.created && plan.removed);

    let plan = engine::transfer(Some(record), false, holding(amount(5)), holding(amount(1)), amount(2))
        .expect("the transfer is in order")
        .expect("something is to be written");
    assert_eq!(plan.details, record);
    assert_eq!(plan.source, holding(amount(3)));
    assert_eq!(plan.dest, holding(amount(3)));
    assert!(!plan.created && !plan.removed);

    // a new holder where the count is at its largest
    let full = details(amount(100), u32::MAX);
    let refused = engine::transfer(Some(full), false, holding(amount(5)), holding(amount(0)), amount(5));
    assert!(matches!(refused, Err(Error::Overflow)));
    let short = engine::transfer(Some(record), false, holding(amount(5)), holding(amount(0)), amount(6));
    assert!(matches!(short, Err(Error::NoFunds)));
}

#[test]
fn create_and_set_are_planned_on_the_records() {
    let record = details(amount(100), 2);
    assert_eq!(engine::create(None), Ok(details(amount(0), 0)));
    assert_eq!(engine::create(Some(record)), Err(Error::AlreadyExists));
    assert_eq!(engine::supply(Some(record)), amount(100));
    assert_eq!(engine::supply(None), amount(0));
    assert_eq!(engine::set_total_issuance(Some(record), amount(3)), Some(details(amount(3), 2)));
    assert_eq!(engine::set_total_issuance(None, amount(3)), None);

    let unknown = engine::set_balance(None, holding(amount(0)), amount(1));
    assert!(matches!(unknown, Err(Error::UnknownAsset)));
    let plan = engine::set_balance(Some(record), holding(amount(0)), amount(1)).expect("room for one");
    assert_eq!(plan.details, details(amount(100), 3));
    assert!(plan.created && !plan.removed && plan.stored);
    let plan = engine::set_balance(Some(record), holding(amount(4)), amount(0)).expect("in order");
    assert_eq!(plan.details, details(amount(100), 1));
    assert!(!plan.created && plan.removed && !plan.stored);
    let full = details(amount(100), u32::MAX);
    assert!(matches!(engine::set_balance(Some(full), holding(amount(0)), amount(1)), Err(Error::Overflow)));
}

#[test]
fn net_of_two_amounts_is_their_difference() {
    assert!(matches!(net(amount(5), amount(5)), SameOrOther::Neither));
    match net(amount(1 << 64), amount(1)) {
        SameOrOther::Same(rest) => assert_eq!(rest, amount(u64::MAX as u128)),
        other => panic!("not ours: {:?}", other),
    }
    match net(amount(1), amount(1 << 64)) {
        SameOrOther::Other(rest) => assert_eq!(rest, amount(u64::MAX as u128)),
        other => panic!("not theirs: {:?}", other),
    }
    // the higher words decide, not the lowest
    let high = Amount { w0: 0, w1: 0, w2: 0, w3: 1 };
    match net(amount(u128::MAX), high) {
        SameOrOther::Other(rest) => assert_eq!(words(rest), [1, 0, u64::MAX, 0]),
        other => panic!("not theirs: {:?}", other),
    }
}
