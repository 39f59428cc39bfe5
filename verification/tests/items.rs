use siminv::inventory::{Index, Inventory};
use siminv::item::{Items, ItemType, Tag};

fn stones_type(max_stack_size: u64) -> ItemType {
    ItemType {
        kind_name: "stones".to_owned(),
        display_name: "Stones".to_owned(),
        sprite_path: "images/stones.png".to_owned(),
        max_stack_size,
        tags: Vec::new(),
    }
}

fn sword_type() -> ItemType {
    ItemType {
        kind_name: "sword".to_owned(),
        display_name: "Sword".to_owned(),
        sprite_path: "images/sword.png".to_owned(),
        max_stack_size: 1,
        tags: vec![Tag("weapon".to_owned())],
    }
}

#[test]
fn test_items() {
    let mut items = Items::default();
    items.add_item("sword");
    items.add_item("gloves");
}

#[test]
fn register_assigns_sequential_ids() {
    let mut items = Items::default();
    let a = items.register_item_type(sword_type()).unwrap();
    let b = items.register_item_type(stones_type(20)).unwrap();
    assert_ne!(a, b);
}

#[test]
fn register_duplicate_name_rejected() {
    let mut items = Items::default();
    assert!(items.register_item_type(stones_type(20)).is_some());
    assert!(items.register_item_type(stones_type(5)).is_none());
    // the first registration still decides the lookup
    let ty = items.get_item_type_with_type_name("stones").unwrap();
    assert_eq!(ty.max_stack_size, 20);
}

#[test]
fn register_item_types_accepts_fresh_batch() {
    let mut items = Items::default();
    assert!(items.register_item_types(vec![sword_type(), stones_type(20)]));
    assert!(items.get_item_type_with_type_name("sword").is_some());
    assert!(items.get_item_type_with_type_name("stones").is_some());
}

#[test]
fn register_item_types_rejects_partial_catalog() {
    let mut items = Items::default();
    assert!(!items.register_item_types(vec![
        sword_type(),
        stones_type(20),
        stones_type(5),
    ]));
    // no partial catalog is accepted
    assert!(items.get_item_type_with_type_name("sword").is_none());
    assert!(items.get_item_type_with_type_name("stones").is_none());
}

#[test]
fn get_item_meta_joins_item_and_type() {
    let mut items = Items::default();
    items.register_item_type(sword_type());
    let id = items.add_item("sword");
    let meta = items.get_item_meta(id).unwrap();
    assert_eq!(meta.kind_name, "sword");
    assert_eq!(meta.display_name, "Sword");
    assert_eq!(meta.sprite_path, "images/sword.png");
    assert_eq!(meta.stack_size, 1);
    assert_eq!(meta.max_stack_size, 1);
    assert_eq!(meta.tags.len(), 1);
    assert_eq!(meta.tags[0].0, "weapon");
}

#[test]
fn get_item_meta_unknown_id_is_none() {
    let mut items = Items::default();
    items.register_item_type(stones_type(20));
    let id = items.add_items("stones", 5);
    let other = items.add_items("stones", 15);
    assert!(items.merge_or_swap(id, other).is_some());
    // the merged-away id resolves to none, it does not fault
    assert!(items.get_item_meta(id).is_none());
}

#[test]
fn get_item_meta_unregistered_type_is_none() {
    let mut items = Items::default();
    let id = items.add_item("gloves");
    assert!(items.get_item(id).is_some());
    assert!(items.get_item_meta(id).is_none());
}

#[test]
fn get_item_meta_twice_is_identical() {
    let mut items = Items::default();
    items.register_item_type(stones_type(20));
    let id = items.add_items("stones", 7);
    let first = items.get_item_meta(id).unwrap();
    let second = items.get_item_meta(id).unwrap();
    assert_eq!(first.kind_name, second.kind_name);
    assert_eq!(first.display_name, second.display_name);
    assert_eq!(first.sprite_path, second.sprite_path);
    assert_eq!(first.stack_size, second.stack_size);
    assert_eq!(first.max_stack_size, second.max_stack_size);
    assert_eq!(first.tags.len(), second.tags.len());
}

#[test]
fn merge_overflow_leaves_rest_in_source() {
    let mut items = Items::default();
    items.register_item_type(stones_type(20));
    let s1 = items.add_items("stones", 5);
    let s2 = items.add_items("stones", 17);
    // total 22 > 20: into becomes full, the overflow remains in the source
    let (new_from, new_into) = items.merge_or_swap(s1, s2).unwrap();
    assert_eq!(new_from, Some(s1));
    assert_eq!(new_into, Some(s2));
    assert_eq!(items.get_item(s1).unwrap().stack_size, 2);
    assert_eq!(items.get_item(s2).unwrap().stack_size, 20);
}

#[test]
fn merge_exact_destroys_source() {
    let mut items = Items::default();
    items.register_item_type(stones_type(20));
    let s1 = items.add_items("stones", 5);
    let s2 = items.add_items("stones", 15);
    // total 20 == max: into becomes full, the source is destroyed
    let (new_from, new_into) = items.merge_or_swap(s1, s2).unwrap();
    assert_eq!(new_from, None);
    assert_eq!(new_into, Some(s2));
    assert!(items.get_item(s1).is_none());
    assert_eq!(items.get_item(s2).unwrap().stack_size, 20);
}

#[test]
fn merge_below_max_destroys_source() {
    let mut items = Items::default();
    items.register_item_type(stones_type(20));
    let s1 = items.add_items("stones", 5);
    let s2 = items.add_items("stones", 10);
    let (new_from, new_into) = items.merge_or_swap(s1, s2).unwrap();
    assert_eq!(new_from, None);
    assert_eq!(new_into, Some(s2));
    assert!(items.get_item(s1).is_none());
    assert_eq!(items.get_item(s2).unwrap().stack_size, 15);
}

#[test]
fn merge_conserves_total_quantity() {
    let mut items = Items::default();
    items.register_item_type(stones_type(20));
    let s1 = items.add_items("stones", 13);
    let s2 = items.add_items("stones", 9);
    let (new_from, new_into) = items.merge_or_swap(s1, s2).unwrap();
    let size_of = |items: &Items, id: Option<siminv::item::ItemId>| -> u64 {
        id.and_then(|id| items.get_item(id).map(|i| i.stack_size)).unwrap_or(0)
    };
    let total = size_of(&items, new_from) + size_of(&items, new_into);
    assert_eq!(total, 22);
    assert!(size_of(&items, new_from) <= 20);
    assert!(size_of(&items, new_into) <= 20);
}

#[test]
fn merge_different_types_swaps_identities() {
    let mut items = Items::default();
    items.register_item_type(sword_type());
    items.register_item_type(stones_type(20));
    let sword = items.add_item("sword");
    let stones = items.add_items("stones", 5);
    let (new_from, new_into) = items.merge_or_swap(sword, stones).unwrap();
    // identities trade places; neither stack size changes
    assert_eq!(new_from, Some(stones));
    assert_eq!(new_into, Some(sword));
    assert_eq!(items.get_item(sword).unwrap().stack_size, 1);
    assert_eq!(items.get_item(stones).unwrap().stack_size, 5);
}

#[test]
fn merge_non_stackable_type_swaps() {
    let mut items = Items::default();
    items.register_item_type(sword_type());
    let a = items.add_item("sword");
    let b = items.add_item("sword");
    let (new_from, new_into) = items.merge_or_swap(a, b).unwrap();
    assert_eq!(new_from, Some(b));
    assert_eq!(new_into, Some(a));
    assert_eq!(items.get_item(a).unwrap().stack_size, 1);
    assert_eq!(items.get_item(b).unwrap().stack_size, 1);
}

#[test]
fn item_ids_are_never_reused() {
    let mut items = Items::default();
    items.register_item_type(stones_type(20));
    let s1 = items.add_items("stones", 5);
    let s2 = items.add_items("stones", 10);
    assert_ne!(s1, s2);
    // the merge destroys s1, but its id is not handed out again
    items.merge_or_swap(s1, s2).unwrap();
    let s3 = items.add_items("stones", 1);
    assert_ne!(s3, s1);
    assert_ne!(s3, s2);
}

#[test]
fn restore_round_trips_the_store() {
    let mut items = Items::default();
    items.register_item_type(stones_type(20));
    let s1 = items.add_items("stones", 5);
    let s2 = items.add_items("stones", 10);
    let saved = items.export_items();
    assert_eq!(saved.len(), 2);

    let mut restored = Items::default();
    restored.register_item_type(stones_type(20));
    for (id, item) in &saved {
        assert!(restored.restore_item(*id, &item.kind_name, item.stack_size));
    }
    // a saved id may appear only once
    assert!(!restored.restore_item(s1, "stones", 1));
    assert_eq!(restored.get_item(s1).unwrap().stack_size, 5);
    assert_eq!(restored.get_item(s2).unwrap().stack_size, 10);
    // fresh ids continue past every restored one
    let s3 = restored.add_items("stones", 1);
    assert_ne!(s3, s1);
    assert_ne!(s3, s2);
}

#[test]
fn inventory_export_round_trips() {
    let mut items = Items::default();
    let sword = items.add_item("sword");
    let gloves = items.add_item("gloves");
    let mut inventory = Inventory::default();
    inventory.set_max_size("box", Index::new(2, 2));
    inventory.set("box", Index::new(1, 1), sword);
    inventory.set("stash", Index::new(0, 0), gloves);

    let saved = inventory.export_collections();
    let mut restored = Inventory::default();
    for (name, max_size, entries) in &saved {
        restored.set_max_size(name, *max_size);
        for (at, id) in entries {
            restored.set(name, *at, *id);
        }
    }
    assert_eq!(restored.get("box", &Index::new(1, 1)), Some(&sword));
    assert_eq!(restored.get("stash", &Index::new(0, 0)), Some(&gloves));
    // the restored bounds still steer the insertion search
    let extra = items.add_item("sword");
    assert_eq!(restored.add("box", extra), Some(Index::new(0, 0)));
}

#[test]
fn merge_unknown_id_fails() {
    let mut items = Items::default();
    items.register_item_type(stones_type(20));
    let s1 = items.add_items("stones", 5);
    let s2 = items.add_items("stones", 15);
    assert!(items.merge_or_swap(s1, s2).is_some());
    // s1 was consumed by the merge: a second merge finds it unknown
    assert!(items.merge_or_swap(s1, s2).is_none());
}
