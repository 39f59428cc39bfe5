use siminv::auto_move::{MovePolicy, TargetSlot, on_event_move_to};
use siminv::drag_drop::resolve_drag_drop;
use siminv::grid::{GridInventoryConfig, build_grid_inventory};
use siminv::inventory::{Index, Inventory};
use siminv::item::{Items, ItemType, Tag};
use siminv::slot::{InventoryHandle, Slot};
use siminv::slot_updater::{SlotUpdater, on_slot_add, on_slot_update, propagete_inventory_changes};

fn stones_type(max_stack_size: u64) -> ItemType {
    ItemType {
        kind_name: "stones".to_owned(),
        display_name: "Stones".to_owned(),
        sprite_path: "images/stones.png".to_owned(),
        max_stack_size,
        tags: vec![Tag("material".to_owned())],
    }
}

fn sword_type() -> ItemType {
    ItemType {
        kind_name: "sword".to_owned(),
        display_name: "Sword".to_owned(),
        sprite_path: "images/sword.png".to_owned(),
        max_stack_size: 1,
        tags: vec![Tag("weapon".to_owned())],
    }
}

fn positioned(x: u32, y: u32) -> TargetSlot {
    TargetSlot { slot: Slot::empty(), position: Some(Index::new(x, y)) }
}

#[test]
fn slot_constructors() {
    let empty = Slot::empty();
    assert!(empty.item.is_none());
    assert!(empty.required_tag.is_none());

    let mut items = Items::default();
    let id = items.add_item("sword");
    let with_item = Slot::with_item(id);
    assert_eq!(with_item.item, Some(id));
    assert!(with_item.required_tag.is_none());

    let tagged = Slot::with_required_tag(Tag("weapon".to_owned()));
    assert!(tagged.item.is_none());
    assert_eq!(tagged.required_tag.as_ref().unwrap().0, "weapon");
}

#[test]
fn matching_tag_rules() {
    let weapon_tags = [Tag("weapon".to_owned()), Tag("melee".to_owned())];
    let untagged = Slot::empty();
    assert!(untagged.matching_tag(&weapon_tags));
    let weapon_slot = Slot::with_required_tag(Tag("weapon".to_owned()));
    assert!(weapon_slot.matching_tag(&weapon_tags));
    let ring_slot = Slot::with_required_tag(Tag("ring".to_owned()));
    assert!(!ring_slot.matching_tag(&weapon_tags));
    assert!(!ring_slot.matching_tag(&[]));
}

#[test]
fn auto_move_lands_row_major() {
    // a 2-row-by-2-column empty target collection: the item lands at (0,0)
    // if empty, else (1,0), else (0,1), else (1,1), in row-major scan order
    let mut items = Items::default();
    items.register_item_type(stones_type(20));

    let expected = [(0u32, 0u32), (1, 0), (0, 1), (1, 1)];
    for occupied_before in 0..4usize {
        let mut targets = vec![
            // handed over scrambled: the resolver orders by position
            positioned(1, 1),
            positioned(0, 1),
            positioned(1, 0),
            positioned(0, 0),
        ];
        let mut filled = Items::default();
        filled.register_item_type(stones_type(20));
        for k in 0..occupied_before {
            let blocker = filled.add_items("stones", 1);
            let (ex, ey) = expected[k];
            let pos = targets
                .iter()
                .position(|t| t.position == Some(Index::new(ex, ey)))
                .unwrap();
            targets[pos].slot.item = Some(blocker);
        }
        let moved = filled.add_items("stones", 5);
        let mut from = Slot::with_item(moved);
        let r = on_event_move_to(&filled, &mut from, &mut targets, MovePolicy::OnlyEmpty);
        let i = r.unwrap();
        let (ex, ey) = expected[occupied_before];
        assert_eq!(targets[i].position, Some(Index::new(ex, ey)));
        assert_eq!(targets[i].slot.item, Some(moved));
        assert!(from.item.is_none());
        let _ = items.add_item("sword");
    }
}

#[test]
fn auto_move_free_floating_first() {
    let mut items = Items::default();
    items.register_item_type(stones_type(20));
    let moved = items.add_items("stones", 5);
    let mut from = Slot::with_item(moved);
    let mut targets = vec![
        positioned(0, 0),
        TargetSlot { slot: Slot::empty(), position: None },
    ];
    let r = on_event_move_to(&items, &mut from, &mut targets, MovePolicy::OnlyEmpty);
    // the free-floating slot is scanned before all positioned slots
    assert_eq!(r, Some(1));
    assert_eq!(targets[1].slot.item, Some(moved));
}

#[test]
fn auto_move_skips_incompatible_tags() {
    let mut items = Items::default();
    items.register_item_type(stones_type(20));
    let moved = items.add_items("stones", 5);
    let mut from = Slot::with_item(moved);
    let mut targets = vec![
        TargetSlot {
            slot: Slot::with_required_tag(Tag("weapon".to_owned())),
            position: Some(Index::new(0, 0)),
        },
        TargetSlot {
            slot: Slot::with_required_tag(Tag("material".to_owned())),
            position: Some(Index::new(1, 0)),
        },
    ];
    let r = on_event_move_to(&items, &mut from, &mut targets, MovePolicy::OnlyEmpty);
    // the tagged slot at (0,0) excludes the item; (1,0) accepts it
    assert_eq!(r, Some(1));
    assert!(targets[0].slot.item.is_none());
    assert_eq!(targets[1].slot.item, Some(moved));
}

#[test]
fn auto_move_no_compatible_slot_is_noop() {
    let mut items = Items::default();
    items.register_item_type(stones_type(20));
    let moved = items.add_items("stones", 5);
    let mut from = Slot::with_item(moved);
    let mut targets = vec![TargetSlot {
        slot: Slot::with_required_tag(Tag("weapon".to_owned())),
        position: Some(Index::new(0, 0)),
    }];
    let r = on_event_move_to(&items, &mut from, &mut targets, MovePolicy::EmptyOrReplace);
    assert_eq!(r, None);
    assert_eq!(from.item, Some(moved));
    assert!(targets[0].slot.item.is_none());
}

#[test]
fn auto_move_only_empty_rejects_full_collection() {
    let mut items = Items::default();
    items.register_item_type(stones_type(20));
    let blocker = items.add_items("stones", 1);
    let moved = items.add_items("stones", 5);
    let mut from = Slot::with_item(moved);
    let mut targets = vec![TargetSlot {
        slot: Slot::with_item(blocker),
        position: Some(Index::new(0, 0)),
    }];
    let r = on_event_move_to(&items, &mut from, &mut targets, MovePolicy::OnlyEmpty);
    // the item stays put
    assert_eq!(r, None);
    assert_eq!(from.item, Some(moved));
    assert_eq!(targets[0].slot.item, Some(blocker));
}

#[test]
fn auto_move_replace_swaps_with_first_in_scan_order() {
    // a fully occupied, tag-compatible target collection: EMPTY_OR_REPLACE
    // swaps with the first compatible occupied slot in scan order, keeping
    // the total item count of the two collections unchanged
    let mut items = Items::default();
    items.register_item_type(stones_type(20));
    let a = items.add_items("stones", 1);
    let b = items.add_items("stones", 2);
    let moved = items.add_items("stones", 5);
    let mut from = Slot::with_item(moved);
    let mut targets = vec![
        TargetSlot { slot: Slot::with_item(b), position: Some(Index::new(1, 0)) },
        TargetSlot { slot: Slot::with_item(a), position: Some(Index::new(0, 0)) },
    ];
    let r = on_event_move_to(&items, &mut from, &mut targets, MovePolicy::EmptyOrReplace);
    // (0,0) comes first in scan order although it was handed over second
    assert_eq!(r, Some(1));
    assert_eq!(targets[1].slot.item, Some(moved));
    assert_eq!(from.item, Some(a));
    assert_eq!(targets[0].slot.item, Some(b));
    let count = [from.item, targets[0].slot.item, targets[1].slot.item]
        .iter()
        .filter(|i| i.is_some())
        .count();
    assert_eq!(count, 3);
}

#[test]
fn auto_move_empty_source_is_noop() {
    let items = Items::default();
    let mut from = Slot::empty();
    let mut targets = vec![positioned(0, 0)];
    let r = on_event_move_to(&items, &mut from, &mut targets, MovePolicy::EmptyOrReplace);
    assert_eq!(r, None);
    assert!(targets[0].slot.item.is_none());
}

#[test]
fn drag_drop_merges_same_type() {
    let mut items = Items::default();
    items.register_item_type(stones_type(20));
    let s1 = items.add_items("stones", 5);
    let s2 = items.add_items("stones", 17);
    let mut from = Slot::with_item(s1);
    let mut into = Slot::with_item(s2);
    assert!(resolve_drag_drop(&mut items, &mut from, &mut into));
    assert_eq!(from.item, Some(s1));
    assert_eq!(into.item, Some(s2));
    assert_eq!(items.get_item(s1).unwrap().stack_size, 2);
    assert_eq!(items.get_item(s2).unwrap().stack_size, 20);
}

#[test]
fn drag_drop_tag_mismatch_aborts() {
    let mut items = Items::default();
    items.register_item_type(sword_type());
    items.register_item_type(stones_type(20));
    let sword = items.add_item("sword");
    let stones = items.add_items("stones", 5);
    let mut from = Slot::with_item(stones);
    // the displaced sword would land in `from`, which only takes materials
    from.required_tag = Some(Tag("material".to_owned()));
    let mut into = Slot::with_item(sword);
    assert!(!resolve_drag_drop(&mut items, &mut from, &mut into));
    assert_eq!(from.item, Some(stones));
    assert_eq!(into.item, Some(sword));
}

#[test]
fn drag_drop_destination_tag_checked() {
    let mut items = Items::default();
    items.register_item_type(stones_type(20));
    let stones = items.add_items("stones", 5);
    let mut from = Slot::with_item(stones);
    let mut into = Slot::with_required_tag(Tag("weapon".to_owned()));
    assert!(!resolve_drag_drop(&mut items, &mut from, &mut into));
    assert_eq!(from.item, Some(stones));
    assert!(into.item.is_none());
}

#[test]
fn drag_drop_moves_onto_empty() {
    let mut items = Items::default();
    items.register_item_type(stones_type(20));
    let stones = items.add_items("stones", 5);
    let mut from = Slot::with_item(stones);
    let mut into = Slot::with_required_tag(Tag("material".to_owned()));
    assert!(resolve_drag_drop(&mut items, &mut from, &mut into));
    assert!(from.item.is_none());
    assert_eq!(into.item, Some(stones));
    assert_eq!(items.get_item(stones).unwrap().stack_size, 5);
}

#[test]
fn drag_drop_empty_source_is_noop() {
    let mut items = Items::default();
    items.register_item_type(stones_type(20));
    let stones = items.add_items("stones", 5);
    let mut from = Slot::empty();
    let mut into = Slot::with_item(stones);
    assert!(!resolve_drag_drop(&mut items, &mut from, &mut into));
    assert!(from.item.is_none());
    assert_eq!(into.item, Some(stones));
}

#[test]
fn full_session_flow() {
    // catalog and stores
    let mut items = Items::default();
    assert!(items.register_item_types(vec![sword_type(), stones_type(20)]));
    let mut inventory = Inventory::default();
    inventory.set_max_size("backpack", Index::new(2, 2));
    inventory.set_max_size("eq", Index::new(1, 1));
    let sword = items.add_item("sword");
    inventory.set("backpack", Index::new(0, 0), sword);

    // slots are built from the grid configs and bound to the store
    let mut updater = SlotUpdater::default();
    let mut slots: Vec<Slot> = Vec::new();
    let mut handles: Vec<InventoryHandle> = Vec::new();
    let mut collections: Vec<&str> = Vec::new();
    let backpack = build_grid_inventory(&GridInventoryConfig {
        collection: "backpack".to_owned(),
        columns: 2,
        rows: 2,
        required_tags: Vec::new(),
        blocked_indexes: Vec::new(),
    });
    let eq = build_grid_inventory(&GridInventoryConfig {
        collection: "eq".to_owned(),
        columns: 1,
        rows: 1,
        required_tags: vec![(Index::new(0, 0), Tag("weapon".to_owned()))],
        blocked_indexes: Vec::new(),
    });
    for (collection, built) in [("backpack", backpack), ("eq", eq)] {
        for (mut slot, handle) in built {
            let slot_id = slots.len();
            on_slot_add(&mut updater, &inventory, &mut slot, Some(&handle), slot_id);
            slots.push(slot);
            handles.push(handle);
            collections.push(collection);
        }
    }
    propagete_inventory_changes(&mut inventory, &updater, &mut slots);

    // the backpack slot at (0,0) mirrors the seeded sword
    let from_idx = slots.iter().position(|s| s.item == Some(sword)).unwrap();
    assert_eq!(collections[from_idx], "backpack");
    assert_eq!(handles[from_idx].index, Index::new(0, 0));

    // a double-click moves the sword into the tagged equipment slot
    let target_ids: Vec<usize> =
        (0..slots.len()).filter(|&i| collections[i] == "eq").collect();
    let mut from = std::mem::take(&mut slots[from_idx]);
    let mut targets: Vec<TargetSlot> = target_ids
        .iter()
        .map(|&i| TargetSlot {
            slot: std::mem::take(&mut slots[i]),
            position: Some(handles[i].index),
        })
        .collect();
    let moved = on_event_move_to(&items, &mut from, &mut targets, MovePolicy::EmptyOrReplace);
    for (k, target) in targets.into_iter().enumerate() {
        slots[target_ids[k]] = target.slot;
    }
    slots[from_idx] = from;
    let landed = target_ids[moved.unwrap()];
    assert_eq!(slots[landed].item, Some(sword));
    assert!(slots[from_idx].item.is_none());

    // the content changes are written through, logged, and drained back out
    // to the slots bound to the two touched coordinates
    on_slot_update(&mut inventory, &handles[from_idx], slots[from_idx].item);
    on_slot_update(&mut inventory, &handles[landed], slots[landed].item);
    assert_eq!(inventory.get("eq", &Index::new(0, 0)), Some(&sword));
    assert!(inventory.get("backpack", &Index::new(0, 0)).is_none());
    let refreshed = propagete_inventory_changes(&mut inventory, &updater, &mut slots);
    assert_eq!(refreshed, vec![from_idx, landed]);
    assert!(slots[from_idx].item.is_none());
    assert_eq!(slots[landed].item, Some(sword));
    // the drain itself logs nothing: a second drain is empty
    assert!(propagete_inventory_changes(&mut inventory, &updater, &mut slots).is_empty());
}

#[test]
fn grid_builds_unblocked_cells_with_tags() {
    let config = GridInventoryConfig {
        collection: "eq".to_owned(),
        columns: 3,
        rows: 2,
        required_tags: vec![
            (Index::new(1, 0), Tag("helmet".to_owned())),
            (Index::new(0, 1), Tag("weapon".to_owned())),
        ],
        blocked_indexes: vec![Index::new(0, 0), Index::new(2, 1)],
    };
    let slots = build_grid_inventory(&config);
    // 6 cells, 2 blocked
    assert_eq!(slots.len(), 4);
    // generation order is column by column
    let indexes: Vec<(u32, u32)> = slots.iter().map(|(_, h)| (h.index.x, h.index.y)).collect();
    assert_eq!(indexes, vec![(0, 1), (1, 0), (1, 1), (2, 0)]);
    for (slot, handle) in &slots {
        assert!(slot.item.is_none());
        assert_eq!(handle.collection, "eq");
    }
    assert_eq!(slots[0].0.required_tag.as_ref().unwrap().0, "weapon");
    assert_eq!(slots[1].0.required_tag.as_ref().unwrap().0, "helmet");
    assert!(slots[2].0.required_tag.is_none());
    assert!(slots[3].0.required_tag.is_none());
}
