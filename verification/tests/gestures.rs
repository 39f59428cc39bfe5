use siminv::double_click::DoubleClick;
use siminv::hover::Hover;
use siminv::inventory::{Index, Inventory};
use siminv::item::Items;
use siminv::shift_click::ShiftClick;
use siminv::slot::{InventoryHandle, Slot};
use siminv::slot_updater::{SlotUpdater, on_slot_add, on_slot_update, propagete_inventory_changes};

#[test]
fn test_inventory() {
    let mut items = Items::default();
    let sword = items.add_item("sword");

    let mut inventory = Inventory::default();
    inventory.add("main", sword);
}

#[test]
fn inventory_set_get_remove() {
    let mut items = Items::default();
    let sword = items.add_item("sword");
    let mut inventory = Inventory::default();
    let at = Index::new(2, 3);
    assert!(inventory.get("backpack", &at).is_none());
    inventory.set("backpack", at, sword);
    assert_eq!(inventory.get("backpack", &at), Some(&sword));
    assert!(inventory.get("stash", &at).is_none());
    inventory.remove("backpack", at);
    assert!(inventory.get("backpack", &at).is_none());
}

#[test]
fn inventory_add_fills_default_row() {
    let mut items = Items::default();
    let a = items.add_item("sword");
    let b = items.add_item("sword");
    let mut inventory = Inventory::default();
    // an unconfigured collection is one unbounded row
    assert_eq!(inventory.add("main", a), Some(Index::new(0, 0)));
    assert_eq!(inventory.add("main", b), Some(Index::new(1, 0)));
}

#[test]
fn inventory_add_scans_row_major_and_fills_up() {
    let mut items = Items::default();
    let mut inventory = Inventory::default();
    inventory.set_max_size("box", Index::new(2, 2));
    let expected = [(0u32, 0u32), (1, 0), (0, 1), (1, 1)];
    for (x, y) in expected {
        let id = items.add_item("sword");
        assert_eq!(inventory.add("box", id), Some(Index::new(x, y)));
    }
    let overflow = items.add_item("sword");
    assert_eq!(inventory.add("box", overflow), None);
}

#[test]
fn inventory_add_skips_occupied_coordinates() {
    let mut items = Items::default();
    let blocker = items.add_item("sword");
    let added = items.add_item("sword");
    let mut inventory = Inventory::default();
    inventory.set_max_size("box", Index::new(2, 2));
    inventory.set("box", Index::new(0, 0), blocker);
    assert_eq!(inventory.add("box", added), Some(Index::new(1, 0)));
}

#[test]
fn take_modified_drains_log_in_order() {
    let mut items = Items::default();
    let sword = items.add_item("sword");
    let mut inventory = Inventory::default();
    inventory.set("a", Index::new(0, 0), sword);
    inventory.remove("a", Index::new(0, 0));
    inventory.set("b", Index::new(1, 2), sword);
    let log = inventory.take_modified();
    let entries: Vec<(String, (u32, u32))> =
        log.iter().map(|(c, i)| (c.clone(), (i.x, i.y))).collect();
    assert_eq!(
        entries,
        vec![
            ("a".to_owned(), (0, 0)),
            ("a".to_owned(), (0, 0)),
            ("b".to_owned(), (1, 2)),
        ]
    );
    assert!(inventory.take_modified().is_empty());
    // the store itself is untouched by the drain
    assert_eq!(inventory.get("b", &Index::new(1, 2)), Some(&sword));
}

#[test]
fn slot_update_writes_through_and_logs() {
    let mut items = Items::default();
    let sword = items.add_item("sword");
    let mut inventory = Inventory::default();
    let handle = InventoryHandle { collection: "backpack".to_owned(), index: Index::new(1, 1) };
    on_slot_update(&mut inventory, &handle, Some(sword));
    assert_eq!(inventory.get("backpack", &handle.index), Some(&sword));
    on_slot_update(&mut inventory, &handle, None);
    assert!(inventory.get("backpack", &handle.index).is_none());
    // both changes logged their coordinate for the next drain
    let log = inventory.take_modified();
    let entries: Vec<(String, (u32, u32))> =
        log.iter().map(|(c, i)| (c.clone(), (i.x, i.y))).collect();
    assert_eq!(
        entries,
        vec![("backpack".to_owned(), (1, 1)), ("backpack".to_owned(), (1, 1))]
    );
}

#[test]
fn slot_add_mirrors_store_content() {
    let mut items = Items::default();
    let sword = items.add_item("sword");
    let mut inventory = Inventory::default();
    inventory.set("backpack", Index::new(0, 0), sword);
    let mut updater = SlotUpdater::default();
    let mut slot = Slot::empty();
    let handle = InventoryHandle { collection: "backpack".to_owned(), index: Index::new(0, 0) };
    on_slot_add(&mut updater, &inventory, &mut slot, Some(&handle), 0);
    assert_eq!(slot.item, Some(sword));

    // a slot bound to a free coordinate shows nothing
    let mut other = Slot::with_item(sword);
    let free = InventoryHandle { collection: "backpack".to_owned(), index: Index::new(5, 0) };
    on_slot_add(&mut updater, &inventory, &mut other, Some(&free), 1);
    assert!(other.item.is_none());

    // a slot without a handle is left alone
    let mut unbound = Slot::empty();
    on_slot_add(&mut updater, &inventory, &mut unbound, None, 2);
    assert!(unbound.item.is_none());
}

#[test]
fn propagate_refreshes_bound_slots() {
    let mut items = Items::default();
    let sword = items.add_item("sword");
    let gloves = items.add_item("gloves");
    let mut inventory = Inventory::default();
    let mut updater = SlotUpdater::default();

    let h0 = InventoryHandle { collection: "backpack".to_owned(), index: Index::new(0, 0) };
    let h1 = InventoryHandle { collection: "backpack".to_owned(), index: Index::new(1, 0) };
    let mut s0 = Slot::empty();
    on_slot_add(&mut updater, &inventory, &mut s0, Some(&h0), 0);
    let mut s1 = Slot::empty();
    on_slot_add(&mut updater, &inventory, &mut s1, Some(&h1), 1);
    let mut slots = vec![s0, s1];

    inventory.set("backpack", Index::new(0, 0), sword);
    inventory.set("backpack", Index::new(1, 0), gloves);
    inventory.set("stash", Index::new(0, 0), gloves);

    let refreshed = propagete_inventory_changes(&mut inventory, &updater, &mut slots);
    // the two bound coordinates were refreshed; the stash one has no binding
    assert_eq!(refreshed, vec![0, 1]);
    assert_eq!(slots[0].item, Some(sword));
    assert_eq!(slots[1].item, Some(gloves));
    // the log is drained
    assert!(propagete_inventory_changes(&mut inventory, &updater, &mut slots).is_empty());
}

#[test]
fn double_click_within_window_fires_once() {
    // two clicks on the same tracked target within 100ms (window 200ms)
    // emit exactly one double-click gesture
    let mut detector = DoubleClick::default();
    let mut fired = 0;
    if detector.on_click(7).is_some() {
        fired += 1;
    }
    for _ in 0..10 {
        detector.update_time(10);
    }
    if let Some(target) = detector.on_click(7) {
        assert_eq!(target, 7);
        fired += 1;
    }
    assert_eq!(fired, 1);
    // the detector is disarmed again: a third click only re-arms
    assert!(detector.on_click(7).is_none());
}

#[test]
fn double_click_after_window_does_not_fire() {
    // two clicks 300ms apart (window 200ms) emit no gesture
    let mut detector = DoubleClick::default();
    assert!(detector.on_click(7).is_none());
    for _ in 0..30 {
        detector.update_time(10);
    }
    assert!(detector.on_click(7).is_none());
}

#[test]
fn double_click_takes_current_target() {
    let mut detector = DoubleClick::default();
    assert!(detector.on_click(1).is_none());
    detector.update_time(50);
    // the second click is this fast: it counts, whatever it targets
    assert_eq!(detector.on_click(2), Some(2));
}

#[test]
fn shift_click_follows_polled_modifier() {
    let mut detector = ShiftClick::default();
    assert!(detector.on_click(3).is_none());
    detector.detect_shift_press(true);
    assert_eq!(detector.on_click(3), Some(3));
    detector.detect_shift_press(false);
    assert!(detector.on_click(3).is_none());
}

#[test]
fn hover_fires_after_delay_and_ends_on_exit() {
    let mut hover = Hover::new(500);
    assert!(!hover.on_over(9));
    let mut fired = None;
    for _ in 0..60 {
        if let Some(target) = hover.update_time(10) {
            assert!(fired.is_none());
            fired = Some(target);
        }
    }
    assert_eq!(fired, Some(9));
    // leaving a triggered target emits the hover-end gesture
    assert_eq!(hover.on_out(9), Some(9));
    // and the detector is idle again
    assert!(hover.update_time(1000).is_none());
}

#[test]
fn hover_exit_before_delay_emits_nothing() {
    let mut hover = Hover::new(500);
    hover.on_over(9);
    hover.update_time(100);
    assert!(hover.on_out(9).is_none());
    assert!(hover.update_time(1000).is_none());
}

#[test]
fn hover_overlap_replaces_target() {
    let mut hover = Hover::new(500);
    assert!(!hover.on_over(1));
    // entering a second target while the first is tracked is an anomaly,
    // but the new target simply replaces the old one
    assert!(hover.on_over(2));
    let mut fired = None;
    for _ in 0..60 {
        if let Some(target) = hover.update_time(10) {
            fired = Some(target);
        }
    }
    assert_eq!(fired, Some(2));
}
