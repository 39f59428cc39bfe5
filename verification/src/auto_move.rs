//! Move resolver: relocates the item of a source slot into a target
//! collection under a move policy. Target slots are scanned in a fixed
//! order: free-floating slots (no grid position) first, then positioned
//! slots row-major by `(row, column)` ascending. Auto-move never merges
//! stacks; it only exchanges whole identifiers.

use vstd::prelude::*;
use vstd::multiset::Multiset;
use vstd::seq_lib::group_to_multiset_ensures;
use crate::inventory::{Index, rm_before};
use crate::item::{ItemId, Items, Tag, spec_get_item_meta};
use crate::slot::{Slot, SlotModel, spec_matching_tag};

verus! {

/// Rule controlling whether auto-move may displace an occupied slot.
#[derive(Debug, PartialEq, Eq, Structural, Clone, Copy)]
pub enum MovePolicy {
    /// Only an empty, tag-compatible slot may receive the item.
    OnlyEmpty,
    /// Prefer an empty compatible slot; failing that, displace the item of
    /// the first compatible slot regardless of occupancy.
    EmptyOrReplace,
}

/// One slot of the target collection as the resolver sees it: the slot and
/// its grid position, if it has one.
#[derive(Debug)]
pub struct TargetSlot {
    pub slot: Slot,
    pub position: Option<Index>,
}

/// Mathematical image of a target slot.
pub ghost struct TargetSlotModel {
    pub slot: SlotModel,
    pub position: Option<Index>,
}

impl View for TargetSlot {
    type V = TargetSlotModel;

    open spec fn view(&self) -> TargetSlotModel {
        TargetSlotModel { slot: self.slot@, position: self.position }
    }
}

/// The target slots over their mathematical images.
pub open spec fn targets_view(s: Seq<TargetSlot>) -> Seq<TargetSlotModel> {
    s.map_values(|t: TargetSlot| t@)
}

/// Scan order on positions: a free-floating slot is scanned before every
/// positioned one; positioned slots go row-major.
pub open spec fn scan_before(a: Option<Index>, b: Option<Index>) -> bool {
    match (a, b) {
        (None, Some(_)) => true,
        (None, None) => false,
        (Some(_), None) => false,
        (Some(pa), Some(pb)) => rm_before(pa, pb),
    }
}

/// Target `i` is scanned strictly before target `j`: by position, with ties
/// broken by the order the slots were handed in.
pub open spec fn scanned_before(ts: Seq<TargetSlotModel>, i: int, j: int) -> bool {
    scan_before(ts[i].position, ts[j].position) || (ts[i].position == ts[j].position && i < j)
}

/// Target `i` can receive an item carrying `tags`: it must satisfy the tag
/// constraint, and be empty when `require_empty` is set.
pub open spec fn qualifies(
    t: TargetSlotModel,
    tags: Seq<Seq<char>>,
    require_empty: bool,
) -> bool {
    (require_empty ==> t.slot.item is None) && spec_matching_tag(t.slot.required_tag, tags)
}

/// Target `i` is the first qualifying slot in scan order.
pub open spec fn is_first_match(
    ts: Seq<TargetSlotModel>,
    tags: Seq<Seq<char>>,
    require_empty: bool,
    i: int,
) -> bool {
    &&& 0 <= i < ts.len()
    &&& qualifies(ts[i], tags, require_empty)
    &&& forall|j: int|
        0 <= j < ts.len() && j != i && scanned_before(ts, j, i) ==> !qualifies(
            ts[j],
            tags,
            require_empty,
        )
}

/// Which target the resolver settles on, given the moved item's tags.
pub open spec fn resolves_to(
    ts: Seq<TargetSlotModel>,
    tags: Seq<Seq<char>>,
    policy: MovePolicy,
    r: Option<int>,
) -> bool {
    match r {
        Some(i) => is_first_match(ts, tags, true, i) || (policy == MovePolicy::EmptyOrReplace
            && (forall|j: int| 0 <= j < ts.len() ==> !qualifies(ts[j], tags, true))
            && is_first_match(ts, tags, false, i)),
        None => if policy == MovePolicy::OnlyEmpty {
            forall|j: int| 0 <= j < ts.len() ==> !qualifies(ts[j], tags, true)
        } else {
            forall|j: int| 0 <= j < ts.len() ==> !qualifies(ts[j], tags, false)
        },
    }
}

/// A resolved move never ends with the target slot constrained to a tag the
/// moved item lacks: whichever slot the resolver settles on accepts the tags.
pub proof fn lemma_move_respects_target_tag(
    ts: Seq<TargetSlotModel>,
    tags: Seq<Seq<char>>,
    require_empty: bool,
    i: int,
)
    requires
        is_first_match(ts, tags, require_empty, i),
    ensures
        spec_matching_tag(ts[i].slot.required_tag, tags),
{
}

/// The slot contents over the source slot and the targets, as a multiset.
pub open spec fn held_items(from: SlotModel, ts: Seq<TargetSlotModel>) -> Multiset<
    Option<ItemId>,
> {
    ts.map_values(|t: TargetSlotModel| t.slot.item).to_multiset().insert(from.item)
}

/// Updating one position of a sequence trades its old value for the new one
/// in the sequence's multiset.
proof fn lemma_seq_to_multiset_update<A>(s: Seq<A>, i: int, v: A)
    requires
        0 <= i < s.len(),
    ensures
        s.update(i, v).to_multiset() == s.to_multiset().remove(s[i]).insert(v),
{
    broadcast use group_to_multiset_ensures;

    let t = s.update(i, v);
    assert(t.remove(i) =~= s.remove(i));
    assert(t.remove(i).to_multiset() =~= t.to_multiset().remove(t[i]));
    assert(s.remove(i).to_multiset() =~= s.to_multiset().remove(s[i]));
    assert(t.contains(v)) by {
        assert(t[i] == v);
    }
    assert(t.to_multiset().count(v) > 0);
    assert(t.to_multiset() =~= t.to_multiset().remove(v).insert(v));
    assert(t.to_multiset() =~= s.to_multiset().remove(s[i]).insert(v));
}

/// A resolved move only relocates identifiers: the multiset of slot contents
/// over the source slot and the target collection is unchanged by the
/// exchange, so an identifier held in exactly one place before is held in
/// exactly one place after, and the total item count of the two collections
/// is unchanged. The hypotheses are what `on_event_move_to` ensures of a
/// resolved move at target `i`.
pub proof fn lemma_exchange_preserves_held_items(
    from_before: SlotModel,
    ts_before: Seq<TargetSlotModel>,
    from_after: SlotModel,
    ts_after: Seq<TargetSlotModel>,
    i: int,
)
    requires
        0 <= i < ts_before.len(),
        ts_after.len() == ts_before.len(),
        from_after.item == ts_before[i].slot.item,
        ts_after[i].slot.item == from_before.item,
        forall|j: int| 0 <= j < ts_before.len() && j != i ==> ts_after[j] == ts_before[j],
    ensures
        held_items(from_after, ts_after) == held_items(from_before, ts_before),
{
    broadcast use group_to_multiset_ensures;

    let sb = ts_before.map_values(|t: TargetSlotModel| t.slot.item);
    let sa = ts_after.map_values(|t: TargetSlotModel| t.slot.item);
    assert(sa =~= sb.update(i, from_before.item));
    lemma_seq_to_multiset_update(sb, i, from_before.item);
    assert(sb.contains(sb[i]));
    assert(sb.to_multiset().count(sb[i]) > 0);
    assert(sb.to_multiset().remove(sb[i]).insert(from_before.item).insert(sb[i])
        =~= sb.to_multiset().insert(from_before.item));
    assert(held_items(from_after, ts_after) =~= held_items(from_before, ts_before));
}

/// The chosen index as a mathematical value.
pub open spec fn choice_view(r: Option<usize>) -> Option<int> {
    match r {
        None => None,
        Some(i) => Some(i as int),
    }
}

/// Scan order on positions, executably.
fn scan_before_exec(a: &Option<Index>, b: &Option<Index>) -> (r: bool)
    ensures
        r == scan_before(*a, *b),
{
    match (a, b) {
        (None, Some(_)) => true,
        (Some(pa), Some(pb)) => pa.y < pb.y || (pa.y == pb.y && pa.x < pb.x),
        _ => false,
    }
}

/// The first qualifying target in scan order, if any.
fn find_first_match(targets: &Vec<TargetSlot>, tags: &[Tag], require_empty: bool) -> (r: Option<
    usize,
>)
    ensures
        ({
            let ts = targets_view(targets@);
            let tag_views = tags@.map_values(|t: Tag| t@);
            match r {
                Some(i) => is_first_match(ts, tag_views, require_empty, i as int),
                None => forall|j: int|
                    0 <= j < ts.len() ==> !qualifies(ts[j], tag_views, require_empty),
            }
        }),
{
    let ghost ts = targets_view(targets@);
    let ghost tag_views = tags@.map_values(|t: Tag| t@);
    let mut best: Option<usize> = None;
    let mut i: usize = 0;
    while i < targets.len()
        invariant
            i <= targets@.len(),
            ts == targets_view(targets@),
            tag_views == tags@.map_values(|t: Tag| t@),
            match best {
                Some(b) => b < i && qualifies(ts[b as int], tag_views, require_empty)
                    && forall|j: int|
                        0 <= j < i && j != b && scanned_before(ts, j, b as int) ==> !qualifies(
                            ts[j],
                            tag_views,
                            require_empty,
                        ),
                None => forall|j: int|
                    0 <= j < i ==> !qualifies(ts[j], tag_views, require_empty),
            },
        decreases targets@.len() - i,
    {
        let accepts = targets[i].slot.matching_tag(tags);
        let ok = if require_empty {
            targets[i].slot.item.is_none() && accepts
        } else {
            accepts
        };
        if ok {
            match best {
                None => {
                    best = Some(i);
                },
                Some(b) => {
                    if scan_before_exec(&targets[i].position, &targets[b].position) {
                        assert(scanned_before(ts, i as int, b as int));
                        assert forall|j: int|
                            0 <= j < i + 1 && j != i && scanned_before(ts, j, i as int)
                            implies !qualifies(ts[j], tag_views, require_empty) by {
                            if j == b {
                                assert(!scanned_before(ts, b as int, i as int));
                            } else {
                                if scanned_before(ts, j, b as int) {
                                } else {
                                    assert(scanned_before(ts, b as int, j));
                                    assert(scanned_before(ts, b as int, i as int));
                                    assert(false);
                                }
                            }
                        }
                        best = Some(i);
                    } else {
                        assert(!scanned_before(ts, i as int, b as int));
                    }
                },
            }
        }
        i = i + 1;
    }
    best
}

/// Exchanges the item identifiers of the source slot and target `i`.
fn exchange_items(from_slot: &mut Slot, targets: &mut Vec<TargetSlot>, i: usize)
    requires
        i < old(targets)@.len(),
    ensures
        final(targets)@.len() == old(targets)@.len(),
        final(from_slot).item == old(targets)@[i as int].slot.item,
        final(from_slot).required_tag == old(from_slot).required_tag,
        final(targets)@[i as int].slot.item == old(from_slot).item,
        final(targets)@[i as int].slot.required_tag == old(targets)@[i as int].slot.required_tag,
        final(targets)@[i as int].position == old(targets)@[i as int].position,
        forall|j: int|
            0 <= j < old(targets)@.len() && j != i ==> final(targets)@[j] == old(targets)@[j],
{
    let moved = from_slot.item;
    from_slot.item = targets[i].slot.item;
    targets[i].slot.item = moved;
}

/// Moves the item of the source slot to the target collection: the first
/// empty compatible slot in scan order receives it; with no empty compatible
/// slot, policy `EmptyOrReplace` instead swaps with the first compatible
/// slot, displacing its item back into the source slot. Returns the index of
/// the exchanged target, so the caller can emit a content-changed
/// notification for both slots; `None` means nothing changed.
pub fn on_event_move_to(
    items: &Items,
    from_slot: &mut Slot,
    targets: &mut Vec<TargetSlot>,
    policy: MovePolicy,
) -> (r: Option<usize>)
    requires
        items.wf(),
    ensures
        ({
            let ts = targets_view(old(targets)@);
            let unchanged = *final(from_slot) == *old(from_slot) && final(targets)@ == old(
                targets,
            )@;
            match old(from_slot).item {
                None => r is None && unchanged,
                Some(id) => match spec_get_item_meta(items@, id.0) {
                    None => r is None && unchanged,
                    Some(meta) => {
                        &&& resolves_to(ts, meta.tags, policy, choice_view(r))
                        &&& match r {
                            None => unchanged,
                            Some(i) => {
                                &&& i < old(targets)@.len()
                                &&& final(targets)@.len() == old(targets)@.len()
                                &&& final(from_slot).item == ts[i as int].slot.item
                                &&& final(from_slot).required_tag == old(from_slot).required_tag
                                &&& final(targets)@[i as int].slot.item == old(from_slot).item
                                &&& final(targets)@[i as int].slot.required_tag == old(
                                    targets,
                                )@[i as int].slot.required_tag
                                &&& final(targets)@[i as int].position == old(
                                    targets,
                                )@[i as int].position
                                &&& forall|j: int|
                                    0 <= j < old(targets)@.len() && j != i ==> final(targets)@[j]
                                        == old(targets)@[j]
                            },
                        }
                    },
                },
            }
        }),
{
    // if there is no item in the slot, ignore the event
    let from_item_id = match from_slot.item {
        Some(id) => id,
        None => {
            return None;
        },
    };
    let meta = match items.get_item_meta(from_item_id) {
        Some(m) => m,
        None => {
            return None;
        },
    };

    let empty_choice = find_first_match(targets, meta.tags.as_slice(), true);
    match empty_choice {
        Some(i) => {
            exchange_items(from_slot, targets, i);
            Some(i)
        },
        None => {
            // no empty slot matches the tag; maybe replace an occupied one
            match policy {
                MovePolicy::OnlyEmpty => None,
                MovePolicy::EmptyOrReplace => {
                    match find_first_match(targets, meta.tags.as_slice(), false) {
                        Some(i) => {
                            exchange_items(from_slot, targets, i);
                            Some(i)
                        },
                        None => None,
                    }
                },
            }
        },
    }
}

} // verus!
