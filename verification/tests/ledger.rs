use city_builder::building::Resource;
use city_builder::ledger::{limit_of, Ledger};

fn starting_ledger() -> Ledger {
    let mut ledger = Ledger::new();
    ledger.insert(Resource::Food, 10);
    ledger.insert(Resource::Wood, 10);
    ledger.insert(Resource::Seed, 10);
    ledger.insert(Resource::Storage, 100);
    ledger
}

#[test]
fn a_new_ledger_holds_nothing() {
    let ledger = Ledger::new();
    for resource in Resource::all().iter() {
        assert_eq!(ledger.get(*resource), 0);
    }
}

#[test]
fn insert_sets_one_quantity() {
    let mut ledger = Ledger::new();
    ledger.insert(Resource::Tax, 42);
    assert_eq!(ledger.get(Resource::Tax), 42);
    assert_eq!(ledger.get(Resource::Food), 0);
    ledger.insert(Resource::Tax, 7);
    assert_eq!(ledger.get(Resource::Tax), 7);
}

#[test]
fn credit_stops_at_the_cap() {
    let mut ledger = Ledger::new();
    ledger.credit(Resource::Wood, 30, 100);
    assert_eq!(ledger.get(Resource::Wood), 30);
    ledger.credit(Resource::Wood, 80, 100);
    assert_eq!(ledger.get(Resource::Wood), 100);
    ledger.credit(Resource::Wood, 0, 100);
    assert_eq!(ledger.get(Resource::Wood), 100);
}

#[test]
fn credit_to_a_quantity_above_the_cap_leaves_the_cap() {
    let mut ledger = Ledger::new();
    ledger.insert(Resource::Wood, 500);
    ledger.credit(Resource::Wood, 10, 100);
    assert_eq!(ledger.get(Resource::Wood), 100);
}

#[test]
fn credit_near_the_end_of_the_range() {
    let mut ledger = Ledger::new();
    ledger.insert(Resource::Tax, i32::MAX - 1);
    ledger.credit(Resource::Tax, 64000, i32::MAX);
    assert_eq!(ledger.get(Resource::Tax), i32::MAX);
    ledger.insert(Resource::Tax, i32::MIN);
    ledger.credit(Resource::Tax, -5, 0);
    assert_eq!(ledger.get(Resource::Tax), i32::MIN);
}

#[test]
fn can_afford_asks_for_every_amount() {
    let ledger = starting_ledger();
    assert!(ledger.can_afford(&vec![(Resource::Wood, 10), (Resource::Food, 10)]));
    assert!(ledger.can_afford(&vec![]));
    assert!(!ledger.can_afford(&vec![(Resource::Wood, 10), (Resource::Food, 11)]));
    assert!(!ledger.can_afford(&vec![(Resource::Steel, 1)]));
    assert!(ledger.can_afford(&vec![(Resource::PlaceholderResource, 0)]));
}

#[test]
fn debit_takes_every_amount() {
    let mut ledger = starting_ledger();
    ledger.debit(&vec![(Resource::Wood, 10), (Resource::Food, 4)]);
    assert_eq!(ledger.get(Resource::Wood), 0);
    assert_eq!(ledger.get(Resource::Food), 6);
    assert_eq!(ledger.get(Resource::Seed), 10);
    assert_eq!(ledger.get(Resource::Storage), 100);
}

#[test]
fn refund_is_capped_by_the_storage_held() {
    let mut ledger = starting_ledger();
    ledger.insert(Resource::Wood, 95);
    ledger.refund(&vec![(Resource::Wood, 10), (Resource::Food, 10)]);
    assert_eq!(ledger.get(Resource::Wood), 100);
    assert_eq!(ledger.get(Resource::Food), 20);
    assert_eq!(ledger.get(Resource::Seed), 10);
    assert_eq!(ledger.get(Resource::Storage), 100);
}

#[test]
fn refund_of_more_than_the_capacity_is_lost() {
    let mut ledger = starting_ledger();
    ledger.refund(&vec![(Resource::Food, 5000), (Resource::Wood, 1000)]);
    assert_eq!(ledger.get(Resource::Food), 100);
    assert_eq!(ledger.get(Resource::Wood), 100);
}

#[test]
fn tax_is_refunded_up_to_storage_and_cash_storage_together() {
    let mut ledger = Ledger::new();
    ledger.insert(Resource::Storage, 100);
    ledger.insert(Resource::CashStorage, 1000);
    ledger.insert(Resource::Tax, 500);
    ledger.insert(Resource::Wood, 50);
    ledger.refund(&vec![
        (Resource::Wood, 200),
        (Resource::Food, 200),
        (Resource::Steel, 30),
        (Resource::Tax, 300),
    ]);
    assert_eq!(ledger.get(Resource::Tax), 800);
    assert_eq!(ledger.get(Resource::Wood), 100);
    assert_eq!(ledger.get(Resource::Food), 100);
    assert_eq!(ledger.get(Resource::Steel), 30);
    assert_eq!(ledger.get(Resource::Storage), 100);
    assert_eq!(ledger.get(Resource::CashStorage), 1000);

    ledger.refund(&vec![(Resource::Tax, 5000)]);
    assert_eq!(ledger.get(Resource::Tax), 1100);
}

#[test]
fn limit_of_gives_each_resource_its_capacity() {
    for resource in Resource::all().iter() {
        let both = matches!(resource, Resource::Tax | Resource::CashStorage);
        assert_eq!(limit_of(*resource, 100, 1000), if both { 1100 } else { 100 });
    }
    assert_eq!(limit_of(Resource::Tax, i32::MAX, 1), i32::MAX);
    assert_eq!(limit_of(Resource::Tax, i32::MIN, -1), i32::MIN);
    assert_eq!(limit_of(Resource::Food, i32::MAX, i32::MAX), i32::MAX);
}
