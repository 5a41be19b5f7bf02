use npc_dialogue::item::{Catalog, Item, ItemType};
use npc_dialogue::ledger::Ledger;

fn coin() -> Item {
    Item::new(
        "Gold Coin".to_string(),
        ItemType::Currency,
        "A shiny coin".to_string(),
        ("Gold Coin".to_string(), 1),
    )
}

fn sword() -> Item {
    Item::new(
        "Steel Sword".to_string(),
        ItemType::Weapon,
        "A steel sword. Simple but trustworthy".to_string(),
        ("Gold Coin".to_string(), 50),
    )
}

#[test]
fn item_new_keeps_every_field() {
    let item = sword();
    assert_eq!(item.name, "Steel Sword");
    assert_eq!(item.item_type, ItemType::Weapon);
    assert_eq!(item.description, "A steel sword. Simple but trustworthy");
    assert_eq!(item.value, ("Gold Coin".to_string(), 50));
    let copy = item.clone();
    assert_eq!(copy.name, item.name);
    assert_eq!(copy.value, item.value);
}

#[test]
fn new_ledger_is_empty() {
    let ledger = Ledger::new();
    assert_eq!(ledger.get_all().len(), 0);
    assert_eq!(ledger.quantity_of(&"Gold Coin".to_string()), 0);
}

#[test]
fn add_inserts_then_merges_by_name() {
    let mut ledger = Ledger::new();
    ledger.add(coin(), 30);
    assert_eq!(ledger.quantity_of(&"Gold Coin".to_string()), 30);
    let mut other_coin = coin();
    other_coin.description = "Another record under the same name".to_string();
    ledger.add(other_coin, 12);
    assert_eq!(ledger.get_all().len(), 1);
    assert_eq!(ledger.quantity_of(&"Gold Coin".to_string()), 42);
    assert_eq!(ledger.get_all()[0].item.description, "A shiny coin");
}

#[test]
fn add_is_case_sensitive() {
    let mut ledger = Ledger::new();
    ledger.add(coin(), 1);
    let mut lower = coin();
    lower.name = "gold coin".to_string();
    ledger.add(lower, 2);
    assert_eq!(ledger.get_all().len(), 2);
    assert_eq!(ledger.quantity_of(&"Gold Coin".to_string()), 1);
    assert_eq!(ledger.quantity_of(&"gold coin".to_string()), 2);
}

#[test]
fn add_ignores_amounts_that_are_not_positive() {
    let mut ledger = Ledger::new();
    ledger.add(coin(), 0);
    ledger.add(coin(), -4);
    assert_eq!(ledger.get_all().len(), 0);
    ledger.add(coin(), 5);
    ledger.add(coin(), 0);
    ledger.add(coin(), -4);
    assert_eq!(ledger.quantity_of(&"Gold Coin".to_string()), 5);
}

#[test]
fn remove_within_stock_leaves_the_difference() {
    let mut ledger = Ledger::new();
    ledger.add(coin(), 30);
    assert!(ledger.remove(&coin(), 12));
    assert_eq!(ledger.quantity_of(&"Gold Coin".to_string()), 18);
}

#[test]
fn remove_more_than_held_fails_and_changes_nothing() {
    let mut ledger = Ledger::new();
    ledger.add(coin(), 30);
    assert!(!ledger.remove(&coin(), 31));
    assert_eq!(ledger.quantity_of(&"Gold Coin".to_string()), 30);
    assert_eq!(ledger.get_all().len(), 1);
}

#[test]
fn remove_everything_deletes_the_entry() {
    let mut ledger = Ledger::new();
    ledger.add(coin(), 30);
    ledger.add(sword(), 2);
    assert!(ledger.remove(&coin(), 30));
    assert_eq!(ledger.get_all().len(), 1);
    assert_eq!(ledger.get_all()[0].item.name, "Steel Sword");
    assert_eq!(ledger.quantity_of(&"Gold Coin".to_string()), 0);
}

#[test]
fn remove_of_an_absent_item_fails() {
    let mut ledger = Ledger::new();
    ledger.add(sword(), 2);
    assert!(!ledger.remove(&coin(), 1));
    assert!(!ledger.remove(&coin(), 0));
    assert_eq!(ledger.get_all().len(), 1);
    assert_eq!(ledger.quantity_of(&"Steel Sword".to_string()), 2);
}

#[test]
fn remove_of_nothing_succeeds_and_changes_nothing() {
    let mut ledger = Ledger::new();
    ledger.add(coin(), 3);
    assert!(ledger.remove(&coin(), 0));
    assert_eq!(ledger.quantity_of(&"Gold Coin".to_string()), 3);
}

#[test]
fn remove_of_a_negative_amount_leaves_the_difference() {
    let mut ledger = Ledger::new();
    ledger.add(coin(), 3);
    assert!(ledger.remove(&coin(), -2));
    assert_eq!(ledger.quantity_of(&"Gold Coin".to_string()), 5);
}

#[test]
fn remove_is_refused_where_the_difference_does_not_fit() {
    let mut ledger = Ledger::new();
    ledger.add(coin(), i32::MAX);
    assert!(!ledger.remove(&coin(), -1));
    assert_eq!(ledger.quantity_of(&"Gold Coin".to_string()), i32::MAX);
    assert!(!ledger.remove(&coin(), i32::MIN));
    assert_eq!(ledger.quantity_of(&"Gold Coin".to_string()), i32::MAX);
}

#[test]
fn add_then_remove_returns_to_the_prior_state() {
    let mut ledger = Ledger::new();
    ledger.add(coin(), 7);
    ledger.add(sword(), 1);
    ledger.add(coin(), 5);
    assert!(ledger.remove(&coin(), 5));
    assert_eq!(ledger.quantity_of(&"Gold Coin".to_string()), 7);
    assert_eq!(ledger.quantity_of(&"Steel Sword".to_string()), 1);
    assert_eq!(ledger.get_all().len(), 2);
    ledger.add(Item::new("Bread".to_string(), ItemType::Food, "".to_string(), ("Gold Coin".to_string(), 2)), 4);
    assert!(ledger.remove(&Item::new("Bread".to_string(), ItemType::Misc, "".to_string(), ("".to_string(), 0)), 4));
    assert_eq!(ledger.get_all().len(), 2);
    assert_eq!(ledger.quantity_of(&"Bread".to_string()), 0);
}

#[test]
fn can_add_tells_whether_the_sum_fits() {
    let mut ledger = Ledger::new();
    ledger.add(coin(), i32::MAX - 1);
    assert!(ledger.can_add(&coin(), 1));
    assert!(!ledger.can_add(&coin(), 2));
    assert!(ledger.can_add(&coin(), 0));
    assert!(ledger.can_add(&coin(), -5));
    assert!(ledger.can_add(&sword(), i32::MAX));
}

#[test]
fn snapshot_is_a_json_object_in_entry_order() {
    let mut ledger = Ledger::new();
    assert_eq!(ledger.snapshot_to_wire(), Some("{}".to_string()));
    ledger.add(sword(), 5);
    ledger.add(coin(), 30);
    assert_eq!(
        ledger.snapshot_to_wire(),
        Some("{\"Steel Sword\":5,\"Gold Coin\":30}".to_string())
    );
}

#[test]
fn snapshot_escapes_names() {
    let mut ledger = Ledger::new();
    let odd = Item::new("The \"Best\" Axe".to_string(), ItemType::Weapon, "".to_string(), ("Gold Coin".to_string(), 9));
    ledger.add(odd, 1);
    assert_eq!(ledger.snapshot_to_wire(), Some("{\"The \\\"Best\\\" Axe\":1}".to_string()));
}

#[test]
fn catalog_finds_by_exact_name() {
    let catalog = Catalog::new(vec![coin(), sword()]);
    assert_eq!(catalog.find(&"Steel Sword".to_string()).map(|i| i.item_type), Some(ItemType::Weapon));
    assert!(catalog.find(&"steel sword".to_string()).is_none());
    assert!(catalog.find(&"Steel".to_string()).is_none());
    assert!(Catalog::new(vec![]).find(&"Gold Coin".to_string()).is_none());
}

#[test]
fn entries_keep_their_place() {
    let mut ledger = Ledger::new();
    ledger.add(sword(), 5);
    ledger.add(coin(), 30);
    ledger.add(Item::new("Bread".to_string(), ItemType::Food, "".to_string(), ("Gold Coin".to_string(), 2)), 1);
    ledger.add(sword(), 1);
    assert!(ledger.remove(&coin(), 10));
    let listing: Vec<(&str, i32)> = ledger.get_all().iter().map(|e| (e.item.name.as_str(), e.quantity)).collect();
    assert_eq!(listing, vec![("Steel Sword", 6), ("Gold Coin", 20), ("Bread", 1)]);
    assert!(ledger.remove(&coin(), 20));
    ledger.add(coin(), 2);
    let listing: Vec<(&str, i32)> = ledger.get_all().iter().map(|e| (e.item.name.as_str(), e.quantity)).collect();
    assert_eq!(listing, vec![("Steel Sword", 6), ("Bread", 1), ("Gold Coin", 2)]);
}
