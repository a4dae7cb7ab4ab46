use asset_ledger::amount::Amount;
use asset_ledger::asset::{AccountId, AssetDetails, AssetId, Event, Lifecycle};
use asset_ledger::balanced::{Balanced, Inspect, Mutate, Unbalanced};
use asset_ledger::consequence::{DepositConsequence, Error, WithdrawConsequence};
use asset_ledger::pallet::{GenesisConfig, Pallet};

const A1: AssetId = 1;
const A2: AssetId = 2;
const ALICE: AccountId = 11;
const BOB: AccountId = 22;
const CAROL: AccountId = 33;

fn amount(value: u128) -> Amount {
    Amount::from_u128(value)
}

fn ledger_with(asset: AssetId) -> Pallet {
    let mut ledger = Pallet::new();
    assert_eq!(ledger.do_create(asset), Ok(()));
    ledger
}

fn accounts_of(ledger: &Pallet, asset: AssetId) -> u32 {
    ledger.details(asset).expect("the asset has a record").accounts
}

#[test]
fn mint_transfer_burn_scenario() {
    let mut ledger = ledger_with(A1);

    assert_eq!(ledger.mint(A1, &ALICE, amount(100)), Ok(()));
    assert_eq!(ledger.balance(A1, &ALICE), amount(100));
    assert_eq!(ledger.total_issuance(A1), amount(100));
    assert_eq!(accounts_of(&ledger, A1), 1);

    assert_eq!(Mutate::transfer(&mut ledger, A1, &ALICE, &BOB, amount(40)), Ok(()));
    assert_eq!(ledger.balance(A1, &ALICE), amount(60));
    assert_eq!(ledger.balance(A1, &BOB), amount(40));
    assert_eq!(ledger.total_issuance(A1), amount(100));
    assert_eq!(accounts_of(&ledger, A1), 2);

    assert_eq!(ledger.burn(A1, &BOB, amount(40)), Ok(()));
    assert_eq!(ledger.balance(A1, &BOB), amount(0));
    assert_eq!(accounts_of(&ledger, A1), 1);
    assert_eq!(ledger.total_issuance(A1), amount(60));

    assert_eq!(
        ledger.events(),
        &vec![
            Event::Created(A1),
            Event::Issued(A1, ALICE, amount(100)),
            Event::Transferred(A1, ALICE, BOB, amount(40)),
            Event::Burned(A1, BOB, amount(40)),
        ]
    );
    assert_eq!(
        ledger.lifecycle(),
        &vec![Lifecycle::Created(ALICE), Lifecycle::Created(BOB), Lifecycle::Removed(BOB)]
    );
}

#[test]
fn withdraw_more_than_held_fails_with_no_funds() {
    let mut ledger = ledger_with(A1);
    assert_eq!(ledger.mint(A1, &ALICE, amount(60)), Ok(()));
    assert_eq!(ledger.mint(A1, &BOB, amount(20_000)), Ok(()));
    let events = ledger.events().clone();
    let lifecycle = ledger.lifecycle().clone();

    match ledger.withdraw(A1, &ALICE, amount(10_000)) {
        Err(e) => assert_eq!(e, Error::NoFunds),
        Ok(_) => panic!("the withdrawal went through"),
    }

    assert_eq!(ledger.balance(A1, &ALICE), amount(60));
    assert_eq!(ledger.balance(A1, &BOB), amount(20_000));
    assert_eq!(ledger.total_issuance(A1), amount(20_060));
    assert_eq!(accounts_of(&ledger, A1), 2);
    assert_eq!(ledger.events(), &events);
    assert_eq!(ledger.lifecycle(), &lifecycle);
}

#[test]
fn withdraw_more_than_issued_fails_with_underflow() {
    let mut ledger = ledger_with(A1);
    assert_eq!(ledger.mint(A1, &ALICE, amount(60)), Ok(()));

    match ledger.withdraw(A1, &ALICE, amount(10_000)) {
        Err(e) => assert_eq!(e, Error::Underflow),
        Ok(_) => panic!("the withdrawal went through"),
    }
    assert_eq!(ledger.can_withdraw(A1, &ALICE, amount(10_000)), WithdrawConsequence::Underflow);
    assert_eq!(ledger.balance(A1, &ALICE), amount(60));
    assert_eq!(ledger.total_issuance(A1), amount(60));
}

#[test]
fn mint_on_unknown_asset_fails() {
    let mut ledger = ledger_with(A1);
    assert_eq!(ledger.mint(A2, &ALICE, amount(5)), Err(Error::UnknownAsset));
    assert_eq!(ledger.balance(A2, &ALICE), amount(0));
    assert_eq!(ledger.total_issuance(A2), amount(0));
    assert_eq!(ledger.details(A2), None);
    assert_eq!(ledger.events(), &vec![Event::Created(A1)]);
}

#[test]
fn create_twice_fails_with_already_exists() {
    let mut ledger = ledger_with(A1);
    assert_eq!(ledger.mint(A1, &ALICE, amount(7)), Ok(()));
    assert_eq!(ledger.do_create(A1), Err(Error::AlreadyExists));
    assert_eq!(ledger.total_issuance(A1), amount(7));
    assert_eq!(ledger.details(A1), Some(AssetDetails { supply: amount(7), accounts: 1 }));
    assert_eq!(ledger.events().len(), 2);
}

#[test]
fn new_asset_has_no_supply_and_no_accounts() {
    let ledger = ledger_with(A1);
    assert_eq!(ledger.details(A1), Some(AssetDetails { supply: amount(0), accounts: 0 }));
    assert_eq!(ledger.supply(A1), amount(0));
    assert_eq!(ledger.supply(A2), amount(0));
}

#[test]
fn genesis_builds_a_record_for_each_asset() {
    let config = GenesisConfig { assets: vec![A1, A2, A1] };
    let mut ledger = config.build();
    assert_eq!(ledger.details(A1), Some(AssetDetails { supply: amount(0), accounts: 0 }));
    assert_eq!(ledger.details(A2), Some(AssetDetails { supply: amount(0), accounts: 0 }));
    assert_eq!(ledger.details(3), None);
    assert_eq!(ledger.events(), &vec![Event::Created(A1), Event::Created(A2)]);
    assert!(ledger.lifecycle().is_empty());
    assert_eq!(ledger.do_create(A2), Err(Error::AlreadyExists));
    assert_eq!(ledger.mint(A2, &ALICE, amount(1)), Ok(()));

    let empty = GenesisConfig::default().build();
    assert_eq!(empty.details(A1), None);
    assert!(empty.events().is_empty());
}

#[test]
fn zero_amounts_change_nothing_and_succeed() {
    let mut ledger = ledger_with(A1);
    assert_eq!(ledger.mint(A1, &ALICE, amount(9)), Ok(()));
    let lifecycle = ledger.lifecycle().clone();
    let events = ledger.events().clone();

    assert_eq!(ledger.increase_balance_with(A1, &BOB, amount(0), |d| d.keep()), Ok(()));
    assert_eq!(ledger.increase_balance_with(A2, &BOB, amount(0), |d| d.keep()), Ok(()));
    assert_eq!(ledger.decrease_balance_with(A1, &BOB, amount(0), |d| d.keep()), Ok(amount(0)));
    assert_eq!(ledger.decrease_balance_with(A2, &BOB, amount(0), |d| d.keep()), Ok(amount(0)));
    assert_eq!(Unbalanced::increase_balance(&mut ledger, A2, &BOB, amount(0)), Ok(amount(0)));
    assert_eq!(Unbalanced::decrease_balance(&mut ledger, A2, &BOB, amount(0)), Ok(amount(0)));
    assert_eq!(ledger.events(), &events);

    assert_eq!(ledger.do_transfer(A1, &ALICE, &BOB, amount(0)), Ok(()));
    assert_eq!(ledger.do_transfer(A1, &CAROL, &BOB, amount(0)), Ok(()));

    assert_eq!(ledger.balance(A1, &ALICE), amount(9));
    assert_eq!(ledger.balance(A1, &BOB), amount(0));
    assert_eq!(ledger.details(A1), Some(AssetDetails { supply: amount(9), accounts: 1 }));
    assert_eq!(ledger.details(A2), None);
    assert_eq!(ledger.lifecycle(), &lifecycle);
    assert_eq!(ledger.events().len(), events.len() + 2);
    assert_eq!(ledger.events()[events.len()], Event::Transferred(A1, ALICE, BOB, amount(0)));
}

#[test]
fn transfer_of_zero_on_unknown_asset_fails() {
    let mut ledger = ledger_with(A1);
    assert_eq!(ledger.do_transfer(A2, &ALICE, &BOB, amount(0)), Err(Error::UnknownAsset));
    assert_eq!(ledger.events(), &vec![Event::Created(A1)]);
}

#[test]
fn self_transfer_changes_no_balance_and_is_reported() {
    let mut ledger = ledger_with(A1);
    assert_eq!(ledger.mint(A1, &ALICE, amount(30)), Ok(()));

    assert_eq!(ledger.do_transfer(A1, &ALICE, &ALICE, amount(10)), Ok(()));
    assert_eq!(ledger.balance(A1, &ALICE), amount(30));
    // more than alice holds, and more than was ever issued
    assert_eq!(ledger.do_transfer(A1, &ALICE, &ALICE, amount(1_000)), Ok(()));
    assert_eq!(ledger.do_transfer(A1, &ALICE, &ALICE, Amount::max_value()), Ok(()));
    assert_eq!(ledger.balance(A1, &ALICE), amount(30));
    assert_eq!(ledger.details(A1), Some(AssetDetails { supply: amount(30), accounts: 1 }));
    assert_eq!(ledger.lifecycle(), &vec![Lifecycle::Created(ALICE)]);
    assert_eq!(
        &ledger.events()[2..],
        &[
            Event::Transferred(A1, ALICE, ALICE, amount(10)),
            Event::Transferred(A1, ALICE, ALICE, amount(1_000)),
            Event::Transferred(A1, ALICE, ALICE, Amount::max_value()),
        ]
    );
    // an account that holds nothing, to itself
    assert_eq!(ledger.do_transfer(A1, &BOB, &BOB, amount(5)), Ok(()));
    assert_eq!(ledger.balance(A1, &BOB), amount(0));
    assert_eq!(ledger.do_transfer(A2, &BOB, &BOB, amount(5)), Err(Error::UnknownAsset));
}

#[test]
fn transfer_entry_point_moves_from_the_caller() {
    let mut ledger = ledger_with(A1);
    assert_eq!(ledger.mint(A1, &ALICE, amount(30)), Ok(()));
    assert_eq!(Pallet::transfer(&mut ledger, ALICE, A1, BOB, amount(30)), Ok(()));
    assert_eq!(ledger.balance(A1, &ALICE), amount(0));
    assert_eq!(ledger.balance(A1, &BOB), amount(30));
    assert_eq!(ledger.details(A1), Some(AssetDetails { supply: amount(30), accounts: 1 }));
    assert_eq!(
        ledger.lifecycle(),
        &vec![Lifecycle::Created(ALICE), Lifecycle::Created(BOB), Lifecycle::Removed(ALICE)]
    );
    assert_eq!(
        Pallet::transfer(&mut ledger, ALICE, A1, BOB, amount(1)),
        Err(Error::NoFunds)
    );
    assert_eq!(ledger.balance(A1, &BOB), amount(30));
}

#[test]
fn transfer_is_refused_as_a_withdrawal_or_a_deposit_would_be() {
    let mut ledger = ledger_with(A1);
    assert_eq!(ledger.mint(A1, &ALICE, amount(50)), Ok(()));
    assert_eq!(ledger.mint(A1, &BOB, amount(50)), Ok(()));
    let events = ledger.events().clone();

    // more than the source holds
    assert_eq!(ledger.do_transfer(A1, &ALICE, &BOB, amount(51)), Err(Error::NoFunds));
    // more than was issued
    assert_eq!(ledger.do_transfer(A1, &ALICE, &BOB, amount(101)), Err(Error::Underflow));
    assert_eq!(ledger.balance(A1, &ALICE), amount(50));
    assert_eq!(ledger.balance(A1, &BOB), amount(50));
    assert_eq!(ledger.events(), &events);

    // the total issuance with the amount would pass the largest amount
    let mut full = ledger_with(A2);
    let most = Amount::max_value();
    assert_eq!(full.mint(A2, &ALICE, most), Ok(()));
    assert_eq!(full.can_deposit(A2, &BOB, amount(1)), DepositConsequence::Overflow);
    assert_eq!(full.do_transfer(A2, &ALICE, &BOB, amount(1)), Err(Error::Overflow));
    assert_eq!(full.balance(A2, &ALICE), most);
    assert_eq!(full.balance(A2, &BOB), amount(0));
}

#[test]
fn mint_is_refused_where_the_issuance_or_the_balance_would_overflow() {
    let mut ledger = ledger_with(A1);
    let most = Amount::max_value();
    assert_eq!(ledger.mint(A1, &ALICE, amount(1)), Ok(()));
    assert_eq!(ledger.can_deposit(A1, &BOB, most), DepositConsequence::Overflow);
    assert_eq!(ledger.mint(A1, &BOB, most), Err(Error::Overflow));
    assert_eq!(ledger.mint(A1, &ALICE, most), Err(Error::Overflow));
    assert_eq!(ledger.balance(A1, &ALICE), amount(1));
    assert_eq!(ledger.total_issuance(A1), amount(1));
    assert_eq!(ledger.can_deposit(A2, &BOB, amount(1)), DepositConsequence::UnknownAsset);
    assert_eq!(ledger.can_deposit(A1, &BOB, amount(1)), DepositConsequence::Success);
}

#[test]
fn burn_is_refused_as_a_withdrawal_would_be() {
    let mut ledger = ledger_with(A1);
    assert_eq!(ledger.mint(A1, &ALICE, amount(10)), Ok(()));
    assert_eq!(ledger.mint(A1, &BOB, amount(5)), Ok(()));
    assert_eq!(ledger.burn(A1, &BOB, amount(6)), Err(Error::NoFunds));
    assert_eq!(ledger.burn(A1, &BOB, amount(16)), Err(Error::Underflow));
    assert_eq!(ledger.burn(A2, &BOB, amount(1)), Err(Error::UnknownAsset));
    assert_eq!(ledger.can_withdraw(A1, &BOB, amount(6)), WithdrawConsequence::NoFunds);
    assert_eq!(ledger.can_withdraw(A2, &BOB, amount(6)), WithdrawConsequence::UnknownAsset);
    assert_eq!(ledger.can_withdraw(A1, &BOB, amount(5)), WithdrawConsequence::Success);
    assert_eq!(ledger.burn(A1, &BOB, amount(3)), Ok(()));
    assert_eq!(ledger.balance(A1, &BOB), amount(2));
    assert_eq!(ledger.total_issuance(A1), amount(12));
    assert_eq!(accounts_of(&ledger, A1), 2);
}

#[test]
fn issuance_is_the_sum_of_balances_after_a_run_of_operations() {
    let mut ledger = ledger_with(A1);
    assert_eq!(ledger.do_create(A2), Ok(()));
    let who = [ALICE, BOB, CAROL];
    for (i, account) in who.iter().enumerate() {
        assert_eq!(ledger.mint(A1, account, amount(100 * (i as u128 + 1))), Ok(()));
        assert_eq!(ledger.mint(A2, account, amount(7)), Ok(()));
    }
    assert_eq!(ledger.do_transfer(A1, &CAROL, &ALICE, amount(300)), Ok(()));
    assert_eq!(ledger.burn(A1, &BOB, amount(150)), Ok(()));
    assert_eq!(ledger.burn(A2, &BOB, amount(7)), Ok(()));
    assert_eq!(ledger.do_transfer(A2, &ALICE, &BOB, amount(8)), Err(Error::NoFunds));

    for asset in [A1, A2] {
        let mut sum: u128 = 0;
        let mut holders: u32 = 0;
        for account in who.iter() {
            let held = ledger.balance(asset, account);
            assert_eq!(held.w1, 0);
            sum += held.w0 as u128;
            if held != amount(0) {
                holders += 1;
            }
        }
        assert_eq!(ledger.total_issuance(asset), amount(sum));
        assert_eq!(accounts_of(&ledger, asset), holders);
    }
    assert_eq!(ledger.total_issuance(A1), amount(450));
    assert_eq!(accounts_of(&ledger, A1), 2);
    assert_eq!(ledger.total_issuance(A2), amount(14));
    assert_eq!(accounts_of(&ledger, A2), 2);
}

#[test]
fn adjustment_that_fails_leaves_the_ledger_as_it_was() {
    let mut ledger = ledger_with(A1);
    assert_eq!(ledger.mint(A1, &ALICE, amount(10)), Ok(()));
    assert_eq!(
        ledger.increase_balance_with(A1, &BOB, amount(5), |_| Err(Error::Overflow)),
        Err(Error::Overflow)
    );
    assert_eq!(
        ledger.decrease_balance_with(A1, &ALICE, amount(5), |_| Err(Error::Underflow)),
        Err(Error::Underflow)
    );
    assert_eq!(ledger.balance(A1, &ALICE), amount(10));
    assert_eq!(ledger.balance(A1, &BOB), amount(0));
    assert_eq!(ledger.details(A1), Some(AssetDetails { supply: amount(10), accounts: 1 }));
    assert_eq!(ledger.lifecycle(), &vec![Lifecycle::Created(ALICE)]);

    // the adjustment is what changes the supply
    assert_eq!(ledger.increase_balance_with(A1, &BOB, amount(5), |d| d.issue(amount(2))), Ok(()));
    assert_eq!(ledger.details(A1), Some(AssetDetails { supply: amount(12), accounts: 2 }));
    assert_eq!(ledger.decrease_balance_with(A1, &BOB, amount(5), |d| d.burn(amount(100))), Ok(amount(5)));
    assert_eq!(ledger.details(A1), Some(AssetDetails { supply: amount(0), accounts: 1 }));
    assert_eq!(ledger.balance(A1, &BOB), amount(0));
}

#[test]
fn reports_are_handed_out_once() {
    let mut ledger = ledger_with(A1);
    assert_eq!(ledger.mint(A1, &ALICE, amount(1)), Ok(()));
    assert_eq!(
        ledger.take_events(),
        vec![Event::Created(A1), Event::Issued(A1, ALICE, amount(1))]
    );
    assert!(ledger.events().is_empty());
    assert_eq!(ledger.lifecycle(), &vec![Lifecycle::Created(ALICE)]);
    assert_eq!(ledger.take_lifecycle(), vec![Lifecycle::Created(ALICE)]);
    assert!(ledger.take_lifecycle().is_empty());
    assert_eq!(ledger.balance(A1, &ALICE), amount(1));
    assert_eq!(ledger.burn(A1, &ALICE, amount(1)), Ok(()));
    assert_eq!(ledger.take_events(), vec![Event::Burned(A1, ALICE, amount(1))]);
    assert_eq!(ledger.take_lifecycle(), vec![Lifecycle::Removed(ALICE)]);
}
