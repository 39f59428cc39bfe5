//! Synchronizer: writes a slot's content change through to the inventory
//! store, and drains the store's pending-change log back out to the slots
//! bound to the touched coordinates.

use vstd::prelude::*;
use crate::inventory::{Inventory, Index, CollectionModel, spec_set, spec_remove, spec_lookup};
use crate::item::ItemId;
use crate::kv::{kv_map, distinct_keys, lemma_kv_map_domain, lemma_kv_map_index,
    lemma_kv_map_update, lemma_kv_map_push_fresh};
use crate::slot::{Slot, InventoryHandle};

verus! {

/// Registry of which live slot mirrors which inventory coordinate. A slot is
/// referred to by its position in the slot table it lives in. The registry
/// keeps at most one binding per coordinate, the last one registered:
/// re-binding a rebuilt slot replaces the old binding, so a drain refreshes
/// the one slot currently bound to each touched coordinate.
pub struct SlotUpdater {
    slot_by_inventory_handle: Vec<(InventoryHandle, usize)>,
}

spec fn binding_pairs(s: Seq<(InventoryHandle, usize)>) -> Seq<((Seq<char>, Index), usize)> {
    s.map_values(|p: (InventoryHandle, usize)| (p.0@, p.1))
}

impl View for SlotUpdater {
    type V = Map<(Seq<char>, Index), usize>;

    closed spec fn view(&self) -> Map<(Seq<char>, Index), usize> {
        kv_map(binding_pairs(self.slot_by_inventory_handle@))
    }
}

impl Default for SlotUpdater {
    fn default() -> (r: SlotUpdater)
        ensures
            r.wf(),
            r@ == Map::<(Seq<char>, Index), usize>::empty(),
    {
        SlotUpdater { slot_by_inventory_handle: Vec::new() }
    }
}

impl SlotUpdater {
    /// Well-formedness: no coordinate is bound twice.
    pub closed spec fn wf(&self) -> bool {
        distinct_keys(binding_pairs(self.slot_by_inventory_handle@))
    }

    /// Position of a coordinate's binding in the registry vector.
    fn find_pos(&self, collection: &String, index: Index) -> (r: Option<usize>)
        requires
            self.wf(),
        ensures
            match r {
                Some(p) => p < self.slot_by_inventory_handle@.len()
                    && self.slot_by_inventory_handle@[p as int].0@ == (collection@, index)
                    && self@.contains_key((collection@, index))
                    && self@[(collection@, index)] == self.slot_by_inventory_handle@[p as int].1,
                None => !self@.contains_key((collection@, index)),
            },
    {
        let ghost pairs = binding_pairs(self.slot_by_inventory_handle@);
        let mut i: usize = 0;
        while i < self.slot_by_inventory_handle.len()
            invariant
                self.wf(),
                i <= self.slot_by_inventory_handle@.len(),
                pairs == binding_pairs(self.slot_by_inventory_handle@),
                forall|j: int|
                    0 <= j < i ==> (#[trigger] self.slot_by_inventory_handle@[j]).0@ != (
                        collection@,
                        index,
                    ),
            decreases self.slot_by_inventory_handle@.len() - i,
        {
            let h = &self.slot_by_inventory_handle[i].0;
            if h.collection == *collection && h.index == index {
                proof {
                    lemma_kv_map_index(pairs, i as int);
                }
                return Some(i);
            }
            i = i + 1;
        }
        proof {
            lemma_kv_map_domain(pairs, (collection@, index));
        }
        None
    }

    /// Binds a slot to the coordinate it mirrors; a coordinate already bound
    /// is re-bound to the new slot.
    fn register(&mut self, handle: &InventoryHandle, slot_id: usize)
        requires
            old(self).wf(),
        ensures
            final(self).wf(),
            final(self)@ == old(self)@.insert(handle@, slot_id),
    {
        match self.find_pos(&handle.collection, handle.index) {
            Some(p) => {
                proof {
                    lemma_kv_map_update(
                        binding_pairs(old(self).slot_by_inventory_handle@),
                        p as int,
                        slot_id,
                    );
                }
                self.slot_by_inventory_handle[p] = (handle.clone(), slot_id);
                proof {
                    assert(binding_pairs(self.slot_by_inventory_handle@) =~= binding_pairs(
                        old(self).slot_by_inventory_handle@,
                    ).update(p as int, (handle@, slot_id)));
                }
            },
            None => {
                proof {
                    lemma_kv_map_domain(
                        binding_pairs(old(self).slot_by_inventory_handle@),
                        handle@,
                    );
                    lemma_kv_map_push_fresh(
                        binding_pairs(old(self).slot_by_inventory_handle@),
                        handle@,
                        slot_id,
                    );
                }
                self.slot_by_inventory_handle.push((handle.clone(), slot_id));
                proof {
                    assert(binding_pairs(self.slot_by_inventory_handle@) =~= binding_pairs(
                        old(self).slot_by_inventory_handle@,
                    ).push((handle@, slot_id)));
                }
            },
        }
    }
}

/// A slot was created: if it carries a handle, mirror the stored item into it
/// and register the binding so later store changes reach the slot.
pub fn on_slot_add(
    updater: &mut SlotUpdater,
    inventory: &Inventory,
    slot: &mut Slot,
    handle: Option<&InventoryHandle>,
    slot_id: usize,
)
    requires
        old(updater).wf(),
        inventory.wf(),
    ensures
        final(updater).wf(),
        final(slot).required_tag == old(slot).required_tag,
        match handle {
            None => final(updater)@ == old(updater)@ && final(slot).item == old(slot).item,
            Some(h) => final(slot).item == spec_lookup(inventory@.collections, h@.0, h@.1)
                && final(updater)@ == old(updater)@.insert(h@, slot_id),
        },
{
    let h = match handle {
        Some(h) => h,
        None => {
            return ;
        },
    };
    slot.item = match inventory.get(h.collection.as_str(), &h.index) {
        Some(id) => Some(*id),
        None => None,
    };
    updater.register(h, slot_id);
}

/// A slot's content changed: if it carries a handle, write its content
/// through to the store at that coordinate and append the coordinate to the
/// pending-change log, so the next drain refreshes every slot bound there.
pub fn on_slot_update(inventory: &mut Inventory, handle: &InventoryHandle, item: Option<ItemId>)
    requires
        old(inventory).wf(),
    ensures
        final(inventory).wf(),
        final(inventory)@.modified == old(inventory)@.modified.push((handle@.0, handle@.1)),
        final(inventory)@.collections == (match item {
            Some(id) => spec_set(old(inventory)@.collections, handle@.0, handle@.1, id),
            None => spec_remove(old(inventory)@.collections, handle@.0, handle@.1),
        }),
{
    match item {
        Some(id) => inventory.set(handle.collection.as_str(), handle.index, id),
        None => inventory.remove(handle.collection.as_str(), handle.index),
    }
}

/// One drain step: the slot table after refreshing the slot bound to one
/// logged coordinate; a coordinate with no in-range binding changes nothing.
pub open spec fn apply_change_slots(
    cs: Map<Seq<char>, CollectionModel>,
    bindings: Map<(Seq<char>, Index), usize>,
    slots: Seq<Slot>,
    entry: (Seq<char>, Index),
) -> Seq<Slot> {
    if bindings.contains_key(entry) && (bindings[entry] as int) < slots.len() {
        let sid = bindings[entry] as int;
        slots.update(
            sid,
            Slot { item: spec_lookup(cs, entry.0, entry.1), required_tag: slots[sid].required_tag },
        )
    } else {
        slots
    }
}

/// One drain step: the slots refreshed by one logged coordinate.
pub open spec fn apply_change_ids(
    bindings: Map<(Seq<char>, Index), usize>,
    slots: Seq<Slot>,
    entry: (Seq<char>, Index),
) -> Seq<usize> {
    if bindings.contains_key(entry) && (bindings[entry] as int) < slots.len() {
        seq![bindings[entry]]
    } else {
        Seq::empty()
    }
}

/// The slot table after draining the whole log, oldest entry first.
pub open spec fn spec_propagate_slots(
    cs: Map<Seq<char>, CollectionModel>,
    bindings: Map<(Seq<char>, Index), usize>,
    slots: Seq<Slot>,
    log: Seq<(Seq<char>, Index)>,
) -> Seq<Slot>
    decreases log.len(),
{
    if log.len() == 0 {
        slots
    } else {
        spec_propagate_slots(
            cs,
            bindings,
            apply_change_slots(cs, bindings, slots, log[0]),
            log.subrange(1, log.len() as int),
        )
    }
}

/// The slots refreshed by draining the whole log, in drain order.
pub open spec fn spec_propagate_ids(
    cs: Map<Seq<char>, CollectionModel>,
    bindings: Map<(Seq<char>, Index), usize>,
    slots: Seq<Slot>,
    log: Seq<(Seq<char>, Index)>,
) -> Seq<usize>
    decreases log.len(),
{
    if log.len() == 0 {
        Seq::empty()
    } else {
        apply_change_ids(bindings, slots, log[0]) + spec_propagate_ids(
            cs,
            bindings,
            apply_change_slots(cs, bindings, slots, log[0]),
            log.subrange(1, log.len() as int),
        )
    }
}

/// Draining one more logged entry applies it after the rest.
proof fn lemma_propagate_snoc(
    cs: Map<Seq<char>, CollectionModel>,
    bindings: Map<(Seq<char>, Index), usize>,
    slots: Seq<Slot>,
    log: Seq<(Seq<char>, Index)>,
    entry: (Seq<char>, Index),
)
    ensures
        spec_propagate_slots(cs, bindings, slots, log.push(entry)) == apply_change_slots(
            cs,
            bindings,
            spec_propagate_slots(cs, bindings, slots, log),
            entry,
        ),
        spec_propagate_ids(cs, bindings, slots, log.push(entry)) == spec_propagate_ids(
            cs,
            bindings,
            slots,
            log,
        ) + apply_change_ids(bindings, spec_propagate_slots(cs, bindings, slots, log), entry),
    decreases log.len(),
{
    let snoc = log.push(entry);
    if log.len() == 0 {
        assert(snoc[0] == entry);
        assert(snoc.subrange(1, snoc.len() as int) =~= Seq::<(Seq<char>, Index)>::empty());
        let slots1 = apply_change_slots(cs, bindings, slots, entry);
        assert(spec_propagate_slots(cs, bindings, slots, snoc) == spec_propagate_slots(
            cs,
            bindings,
            slots1,
            Seq::empty(),
        ));
        assert(spec_propagate_slots(cs, bindings, slots1, Seq::empty()) == slots1);
        assert(spec_propagate_slots(cs, bindings, slots, log) == slots);
        assert(spec_propagate_ids(cs, bindings, slots, snoc) == apply_change_ids(
            bindings,
            slots,
            entry,
        ) + spec_propagate_ids(cs, bindings, slots1, Seq::empty()));
        assert(spec_propagate_ids(cs, bindings, slots1, Seq::empty())
            == Seq::<usize>::empty());
        assert(spec_propagate_ids(cs, bindings, slots, log) == Seq::<usize>::empty());
        assert(spec_propagate_ids(cs, bindings, slots, snoc) =~= spec_propagate_ids(
            cs,
            bindings,
            slots,
            log,
        ) + apply_change_ids(bindings, slots, entry));
    } else {
        assert(snoc[0] == log[0]);
        let slots1 = apply_change_slots(cs, bindings, slots, log[0]);
        let rest = log.subrange(1, log.len() as int);
        assert(snoc.subrange(1, snoc.len() as int) =~= rest.push(entry));
        lemma_propagate_snoc(cs, bindings, slots1, rest, entry);
        assert(spec_propagate_ids(cs, bindings, slots, snoc) =~= spec_propagate_ids(
            cs,
            bindings,
            slots,
            log,
        ) + apply_change_ids(bindings, spec_propagate_slots(cs, bindings, slots, log), entry));
    }
}

/// Drains the store's pending-change log: for every logged coordinate with a
/// registered in-range slot binding, refreshes that slot's displayed item
/// from the store. Returns the refreshed slot positions in drain order, so
/// the caller can emit a content-changed notification for each.
pub fn propagete_inventory_changes(
    inventory: &mut Inventory,
    updater: &SlotUpdater,
    slots: &mut Vec<Slot>,
) -> (refreshed: Vec<usize>)
    requires
        old(inventory).wf(),
        updater.wf(),
    ensures
        final(inventory).wf(),
        final(inventory)@.collections == old(inventory)@.collections,
        final(inventory)@.modified == Seq::<(Seq<char>, Index)>::empty(),
        final(slots)@ == spec_propagate_slots(
            old(inventory)@.collections,
            updater@,
            old(slots)@,
            old(inventory)@.modified,
        ),
        refreshed@ == spec_propagate_ids(
            old(inventory)@.collections,
            updater@,
            old(slots)@,
            old(inventory)@.modified,
        ),
{
    let changes = inventory.take_modified();
    let ghost logv = crate::inventory::modified_view(changes@);
    let ghost cs = inventory@.collections;
    let mut refreshed: Vec<usize> = Vec::new();
    let mut i: usize = 0;
    while i < changes.len()
        invariant
            inventory.wf(),
            updater.wf(),
            i <= changes@.len(),
            logv == crate::inventory::modified_view(changes@),
            logv == old(inventory)@.modified,
            cs == inventory@.collections,
            cs == old(inventory)@.collections,
            inventory@.modified == Seq::<(Seq<char>, Index)>::empty(),
            slots@ == spec_propagate_slots(cs, updater@, old(slots)@, logv.take(i as int)),
            refreshed@ == spec_propagate_ids(cs, updater@, old(slots)@, logv.take(i as int)),
        decreases changes@.len() - i,
    {
        let ghost entry = logv[i as int];
        let ghost slots_before = slots@;
        let collection = &changes[i].0;
        let index = changes[i].1;
        match updater.find_pos(collection, index) {
            Some(p) => {
                let slot_id = updater.slot_by_inventory_handle[p].1;
                proof {
                    assert(updater@[entry] == slot_id);
                }
                if slot_id < slots.len() {
                    let value = match inventory.get(collection.as_str(), &index) {
                        Some(id) => Some(*id),
                        None => None,
                    };
                    slots[slot_id].item = value;
                    refreshed.push(slot_id);
                    proof {
                        assert(slots@ =~= apply_change_slots(cs, updater@, slots_before, entry));
                        assert(refreshed@ =~= spec_propagate_ids(
                            cs,
                            updater@,
                            old(slots)@,
                            logv.take(i as int),
                        ) + apply_change_ids(updater@, slots_before, entry));
                    }
                } else {
                    proof {
                        assert(slots@ =~= apply_change_slots(cs, updater@, slots_before, entry));
                        assert(refreshed@ =~= spec_propagate_ids(
                            cs,
                            updater@,
                            old(slots)@,
                            logv.take(i as int),
                        ) + apply_change_ids(updater@, slots_before, entry));
                    }
                }
            },
            None => {
                proof {
                    assert(slots@ =~= apply_change_slots(cs, updater@, slots_before, entry));
                    assert(refreshed@ =~= spec_propagate_ids(
                        cs,
                        updater@,
                        old(slots)@,
                        logv.take(i as int),
                    ) + apply_change_ids(updater@, slots_before, entry));
                }
            },
        }
        proof {
            assert(logv.take(i + 1 as int) =~= logv.take(i as int).push(entry));
            lemma_propagate_snoc(cs, updater@, old(slots)@, logv.take(i as int), entry);
        }
        i = i + 1;
    }
    proof {
        assert(logv.take(logv.len() as int) =~= logv);
    }
    refreshed
}

} // verus!
