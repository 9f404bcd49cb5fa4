use dungeon_core::inventory::{Inventory, Item};

#[test]
fn new_inventory_is_empty() {
    let inv = Inventory::new();
    assert_eq!(inv.count(Item::Food), 0);
    assert_eq!(inv.count(Item::Treasure), 0);
    assert_eq!(inv.count(Item::Key), 0);
    assert_eq!(inv.count(Item::MapScroll), 0);
    assert!(!inv.has(Item::Food));
}

#[test]
fn add_and_count_each_kind() {
    let mut inv = Inventory::new();
    inv.add(Item::Food);
    inv.add_n(Item::Treasure, 4);
    inv.add_n(Item::Key, 2);
    inv.add_n(Item::MapScroll, 3);
    assert_eq!(inv.count(Item::Food), 1);
    assert_eq!(inv.count(Item::Treasure), 4);
    assert_eq!(inv.count(Item::Key), 2);
    assert_eq!(inv.count(Item::MapScroll), 3);
    assert!(inv.has(Item::Key));
}

#[test]
fn take_n_succeeds_exactly() {
    let mut inv = Inventory::new();
    inv.add_n(Item::Key, 3);
    assert!(inv.take_n(Item::Key, 2));
    assert_eq!(inv.count(Item::Key), 1);
    assert!(inv.take(Item::Key));
    assert_eq!(inv.count(Item::Key), 0);
    assert!(!inv.take(Item::Key));
}

#[test]
fn take_n_fails_without_mutation() {
    let mut inv = Inventory::new();
    inv.add_n(Item::MapScroll, 2);
    inv.add_n(Item::Food, 5);
    assert!(!inv.take_n(Item::MapScroll, 3));
    assert_eq!(inv.count(Item::MapScroll), 2);
    assert!(!inv.take_n(Item::Food, 6));
    assert_eq!(inv.count(Item::Food), 5);
}

#[test]
fn scalar_and_multiset_kinds_stay_apart() {
    let mut inv = Inventory::new();
    inv.add_n(Item::Food, 2);
    inv.add_n(Item::Key, 1);
    assert!(inv.take(Item::Food));
    assert_eq!(inv.count(Item::Food), 1);
    assert_eq!(inv.count(Item::Key), 1);
    assert_eq!(inv.count(Item::Treasure), 0);
}
