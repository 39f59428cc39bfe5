//! Direct drag-and-drop resolution between two slots. This is the one path
//! that merges stacks: dropping onto an occupied slot calls `merge_or_swap`,
//! dropping onto an empty slot is a pure move.

use vstd::prelude::*;
use crate::item::{Items, ItemsModel, spec_get_item_meta, spec_merge_or_swap, merge_sum_fits,
    opt_id};
use crate::slot::{Slot, spec_matching_tag};

verus! {

/// Resolves a drop of the item of `slot_from` onto `slot_into`.
///
/// Both occupied: tag compatibility is verified in both directions (the
/// incoming item against the destination's constraint and the displaced item
/// against the source's), then the stacks merge or swap. Destination empty:
/// only the destination's constraint is checked, then the identifier moves.
/// Source empty: nothing happens. Returns whether any state changed.
pub fn resolve_drag_drop(items: &mut Items, slot_from: &mut Slot, slot_into: &mut Slot) -> (changed:
    bool)
    requires
        old(items).wf(),
        ({
            // a slot's identifier must resolve while it takes part in a drop,
            // and two same-type stacks must fit the count word when summed
            match (old(slot_from).item, old(slot_into).item) {
                (Some(f), Some(t)) => spec_get_item_meta(old(items)@, f.0) is Some
                    && spec_get_item_meta(old(items)@, t.0) is Some
                    && merge_sum_fits(old(items)@, f.0, t.0),
                (Some(f), None) => spec_get_item_meta(old(items)@, f.0) is Some,
                (None, _) => true,
            }
        }),
    ensures
        final(items).wf(),
        final(slot_from).required_tag == old(slot_from).required_tag,
        final(slot_into).required_tag == old(slot_into).required_tag,
        ({
            let unchanged = final(items)@ == old(items)@ && final(slot_from).item == old(
                slot_from,
            ).item && final(slot_into).item == old(slot_into).item;
            match (old(slot_from).item, old(slot_into).item) {
                (None, _) => !changed && unchanged,
                (Some(f), None) => {
                    let meta = spec_get_item_meta(old(items)@, f.0).unwrap();
                    if spec_matching_tag(old(slot_into)@.required_tag, meta.tags) {
                        &&& changed
                        &&& final(items)@ == old(items)@
                        &&& final(slot_from).item is None
                        &&& final(slot_into).item == Some(f)
                    } else {
                        !changed && unchanged
                    }
                },
                (Some(f), Some(t)) => {
                    let from_meta = spec_get_item_meta(old(items)@, f.0).unwrap();
                    let into_meta = spec_get_item_meta(old(items)@, t.0).unwrap();
                    let ok = spec_matching_tag(old(slot_from)@.required_tag, into_meta.tags)
                        && spec_matching_tag(old(slot_into)@.required_tag, from_meta.tags);
                    if ok {
                        let (s2, res) = spec_merge_or_swap(old(items)@, f.0, t.0);
                        &&& changed
                        &&& final(items)@ == s2
                        &&& res is Some
                        &&& opt_id(final(slot_from).item) == res.unwrap().0
                        &&& opt_id(final(slot_into).item) == res.unwrap().1
                    } else {
                        !changed && unchanged
                    }
                },
            }
        }),
{
    let from_id = match slot_from.item {
        Some(id) => id,
        None => {
            return false;
        },
    };
    match slot_into.item {
        // merge or swap the two stacks
        Some(into_id) => {
            let from_meta = items.get_item_meta(from_id).unwrap();
            let into_meta = items.get_item_meta(into_id).unwrap();

            // check that the tags are matching, in both directions
            if !slot_from.matching_tag(into_meta.tags.as_slice()) || !slot_into.matching_tag(
                from_meta.tags.as_slice(),
            ) {
                return false;
            }

            proof {
                // under the preconditions the merge cannot fail: both ids
                // resolve, and a shared type is registered
                assert(old(items)@.items.contains_key(from_id.0));
                assert(old(items)@.items.contains_key(into_id.0));
            }
            let res = items.merge_or_swap(from_id, into_id);
            let (new_from, new_into) = res.unwrap();
            slot_from.item = new_from;
            slot_into.item = new_into;
            true
        },
        // move the stack onto the empty slot
        None => {
            let from_meta = items.get_item_meta(from_id).unwrap();
            if !slot_into.matching_tag(from_meta.tags.as_slice()) {
                return false;
            }
            let moved = slot_from.item;
            slot_from.item = slot_into.item;
            slot_into.item = moved;
            true
        },
    }
}

/// Tag safety of drag-and-drop: when both slots are occupied and both
/// direction checks pass, every identifier a slot ends with belongs to an
/// item whose tags satisfy that slot's constraint.
pub proof fn lemma_drag_drop_tag_safety(
    s: ItemsModel,
    from_id: u64,
    into_id: u64,
    from_req: Option<Seq<char>>,
    into_req: Option<Seq<char>>,
)
    requires
        from_id != into_id,
        spec_get_item_meta(s, from_id) is Some,
        spec_get_item_meta(s, into_id) is Some,
        spec_matching_tag(from_req, spec_get_item_meta(s, from_id).unwrap().tags),
        spec_matching_tag(into_req, spec_get_item_meta(s, into_id).unwrap().tags),
        spec_matching_tag(from_req, spec_get_item_meta(s, into_id).unwrap().tags),
        spec_matching_tag(into_req, spec_get_item_meta(s, from_id).unwrap().tags),
    ensures
        ({
            let (s2, res) = spec_merge_or_swap(s, from_id, into_id);
            res is Some ==> {
                let (new_from, new_into) = res.unwrap();
                &&& match new_from {
                    Some(k) => spec_get_item_meta(s2, k) is Some && spec_matching_tag(
                        from_req,
                        spec_get_item_meta(s2, k).unwrap().tags,
                    ),
                    None => true,
                }
                &&& match new_into {
                    Some(k) => spec_get_item_meta(s2, k) is Some && spec_matching_tag(
                        into_req,
                        spec_get_item_meta(s2, k).unwrap().tags,
                    ),
                    None => true,
                }
            }
        }),
{
    let (s2, res) = spec_merge_or_swap(s, from_id, into_id);
    if res is Some {
        let f = s.items[from_id];
        let t = s.items[into_id];
        if f.kind_name == t.kind_name {
            // the metadata of from_id exists, so the shared type is registered
            let ty = crate::item::find_type(s.types, f.kind_name);
            assert(ty is Some);
            if ty.unwrap().max_stack_size != 1 {
                // merging keeps each surviving id's kind, so its tags and
                // with them its compatibility are those of the inputs
                assert(s2.types == s.types);
                assert(s2.items.contains_key(into_id));
                assert(s2.items[into_id].kind_name == t.kind_name);
                if s2.items.contains_key(from_id) {
                    assert(s2.items[from_id].kind_name == f.kind_name);
                }
            }
        }
    }
}

} // verus!
