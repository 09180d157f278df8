use city_builder::building::{list_has, BuildingType};
use city_builder::census::Counts;
use city_builder::pos::push_decimal;

#[test]
fn counts_start_at_zero() {
    let counts = Counts::new();
    for kind in BuildingType::all().iter() {
        assert_eq!(counts.get(*kind), 0);
    }
}

#[test]
fn a_count_is_kept_for_each_kind() {
    let mut counts = Counts::new();
    for (i, kind) in BuildingType::all().iter().enumerate() {
        counts.insert(*kind, i as i32 * 3);
    }
    for (i, kind) in BuildingType::all().iter().enumerate() {
        assert_eq!(counts.get(*kind), i as i32 * 3);
    }
    counts.insert(BuildingType::House, -1);
    assert_eq!(counts.get(BuildingType::House), -1);
    assert_eq!(counts.get(BuildingType::Grain), 6);
}

#[test]
fn list_has_finds_what_is_listed() {
    let list = vec![BuildingType::Factory, BuildingType::Gauge];
    assert!(list_has(&list, BuildingType::Factory));
    assert!(list_has(&list, BuildingType::Gauge));
    assert!(!list_has(&list, BuildingType::Ground));
    assert!(!list_has(&vec![], BuildingType::Ground));
}

#[test]
fn push_decimal_writes_what_format_writes() {
    for n in [0, 1, 9, 10, 11, 99, 100, 12345, i32::MAX, -1, -10, -909, i32::MIN] {
        let mut text = "n=".to_owned();
        push_decimal(&mut text, n);
        assert_eq!(text, format!("n={}", n));
    }
}
