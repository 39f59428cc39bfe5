//! Grid construction: which cells of a grid inventory get slots, with which
//! required tags, bound to which inventory handles. Drawing the cells is the
//! renderer's business; this computes the slot descriptors it draws.

use vstd::prelude::*;
use crate::inventory::Index;
use crate::item::Tag;
use crate::slot::{Slot, SlotModel, InventoryHandle};

verus! {

/// Source and shape of a displayed grid: the collection it mirrors, its size
/// in cells, per-cell tag requirements, and cells that get no slot at all.
pub struct GridInventoryConfig {
    pub collection: String,
    pub columns: u32,
    pub rows: u32,
    pub required_tags: Vec<(Index, Tag)>,
    /// indexes that are not to be displayed as slots
    pub blocked_indexes: Vec<Index>,
}

/// The tag requirements over plain values.
pub open spec fn tags_list_view(tags: Seq<(Index, Tag)>) -> Seq<(Index, Seq<char>)> {
    tags.map_values(|p: (Index, Tag)| (p.0, p.1@))
}

/// The first tag listed for a coordinate, if any.
pub open spec fn tag_lookup(tags: Seq<(Index, Seq<char>)>, idx: Index) -> Option<Seq<char>>
    decreases tags.len(),
{
    if tags.len() == 0 {
        None
    } else if tags[0].0 == idx {
        Some(tags[0].1)
    } else {
        tag_lookup(tags.subrange(1, tags.len() as int), idx)
    }
}

/// Is the coordinate in the list?
pub open spec fn index_listed(blocked: Seq<Index>, idx: Index) -> bool {
    exists|i: int| 0 <= i < blocked.len() && blocked[i] == idx
}

/// The slot descriptors of rows `0 .. rows` of one column, top to bottom.
pub open spec fn spec_grid_column(
    collection: Seq<char>,
    tags: Seq<(Index, Seq<char>)>,
    blocked: Seq<Index>,
    x: u32,
    rows: u32,
) -> Seq<(SlotModel, (Seq<char>, Index))>
    decreases rows,
{
    if rows == 0 {
        Seq::empty()
    } else {
        let prev = spec_grid_column(collection, tags, blocked, x, (rows - 1) as u32);
        let idx = Index { x, y: (rows - 1) as u32 };
        if index_listed(blocked, idx) {
            prev
        } else {
            prev.push(
                (SlotModel { item: None, required_tag: tag_lookup(tags, idx) }, (collection, idx)),
            )
        }
    }
}

/// The slot descriptors of the whole grid, column by column.
pub open spec fn spec_grid_slots(
    collection: Seq<char>,
    tags: Seq<(Index, Seq<char>)>,
    blocked: Seq<Index>,
    columns: u32,
    rows: u32,
) -> Seq<(SlotModel, (Seq<char>, Index))>
    decreases columns,
{
    if columns == 0 {
        Seq::empty()
    } else {
        spec_grid_slots(collection, tags, blocked, (columns - 1) as u32, rows) + spec_grid_column(
            collection,
            tags,
            blocked,
            (columns - 1) as u32,
            rows,
        )
    }
}

/// The built descriptors over plain values.
pub open spec fn grid_view(s: Seq<(Slot, InventoryHandle)>) -> Seq<
    (SlotModel, (Seq<char>, Index)),
> {
    s.map_values(|p: (Slot, InventoryHandle)| (p.0@, p.1@))
}

/// Is the coordinate in the list, executably.
fn is_listed(blocked: &Vec<Index>, idx: Index) -> (r: bool)
    ensures
        r == index_listed(blocked@, idx),
{
    let mut i: usize = 0;
    while i < blocked.len()
        invariant
            i <= blocked@.len(),
            forall|j: int| 0 <= j < i ==> blocked@[j] != idx,
        decreases blocked@.len() - i,
    {
        if blocked[i] == idx {
            return true;
        }
        i = i + 1;
    }
    false
}

/// The first tag listed for a coordinate, executably.
fn tag_for(tags: &Vec<(Index, Tag)>, idx: Index) -> (r: Option<Tag>)
    ensures
        match r {
            Some(t) => tag_lookup(tags_list_view(tags@), idx) == Some(t@),
            None => tag_lookup(tags_list_view(tags@), idx) is None,
        },
{
    let ghost tv = tags_list_view(tags@);
    let mut i: usize = 0;
    while i < tags.len()
        invariant
            i <= tags@.len(),
            tv == tags_list_view(tags@),
            forall|j: int| 0 <= j < i ==> (#[trigger] tv[j]).0 != idx,
        decreases tags@.len() - i,
    {
        if tags[i].0 == idx {
            proof {
                lemma_tag_lookup_present(tv, idx, i as int);
            }
            return Some(tags[i].1.clone());
        }
        i = i + 1;
    }
    proof {
        lemma_tag_lookup_absent(tv, idx);
    }
    None
}

/// The first listed pair decides the lookup.
proof fn lemma_tag_lookup_present(tags: Seq<(Index, Seq<char>)>, idx: Index, i: int)
    requires
        0 <= i < tags.len(),
        tags[i].0 == idx,
        forall|j: int| 0 <= j < i ==> tags[j].0 != idx,
    ensures
        tag_lookup(tags, idx) == Some(tags[i].1),
    decreases tags.len(),
{
    if i > 0 {
        let rest = tags.subrange(1, tags.len() as int);
        assert(forall|j: int| 0 <= j < rest.len() ==> rest[j] == tags[j + 1]);
        lemma_tag_lookup_present(rest, idx, i - 1);
    }
}

/// A coordinate no pair lists has no tag.
proof fn lemma_tag_lookup_absent(tags: Seq<(Index, Seq<char>)>, idx: Index)
    requires
        forall|j: int| 0 <= j < tags.len() ==> (#[trigger] tags[j]).0 != idx,
    ensures
        tag_lookup(tags, idx) is None,
    decreases tags.len(),
{
    if tags.len() > 0 {
        let rest = tags.subrange(1, tags.len() as int);
        assert(forall|j: int| 0 <= j < rest.len() ==> rest[j] == tags[j + 1]);
        lemma_tag_lookup_absent(rest, idx);
    }
}

/// Computes the slot descriptors of a grid inventory: one slot per unblocked
/// cell, generated column by column, each slot carrying the cell's required
/// tag and a handle binding it to the collection at its coordinate.
pub fn build_grid_inventory(config: &GridInventoryConfig) -> (r: Vec<(Slot, InventoryHandle)>)
    ensures
        grid_view(r@) == spec_grid_slots(
            config.collection@,
            tags_list_view(config.required_tags@),
            config.blocked_indexes@,
            config.columns,
            config.rows,
        ),
{
    let ghost collection = config.collection@;
    let ghost tv = tags_list_view(config.required_tags@);
    let ghost bv = config.blocked_indexes@;
    let mut out: Vec<(Slot, InventoryHandle)> = Vec::new();
    let mut x: u32 = 0;
    proof {
        assert(grid_view(out@) =~= spec_grid_slots(collection, tv, bv, 0, config.rows));
    }
    while x < config.columns
        invariant
            x <= config.columns,
            collection == config.collection@,
            tv == tags_list_view(config.required_tags@),
            bv == config.blocked_indexes@,
            grid_view(out@) == spec_grid_slots(collection, tv, bv, x, config.rows),
        decreases config.columns - x,
    {
        let mut y: u32 = 0;
        proof {
            assert(grid_view(out@) =~= spec_grid_slots(collection, tv, bv, x, config.rows)
                + spec_grid_column(collection, tv, bv, x, 0));
        }
        while y < config.rows
            invariant
                x < config.columns,
                y <= config.rows,
                collection == config.collection@,
                tv == tags_list_view(config.required_tags@),
                bv == config.blocked_indexes@,
                grid_view(out@) == spec_grid_slots(collection, tv, bv, x, config.rows)
                    + spec_grid_column(collection, tv, bv, x, y),
            decreases config.rows - y,
        {
            let idx = Index { x, y };
            let ghost before = grid_view(out@);
            if !is_listed(&config.blocked_indexes, idx) {
                let tag = tag_for(&config.required_tags, idx);
                out.push(
                    (
                        Slot { item: None, required_tag: tag },
                        InventoryHandle { collection: config.collection.clone(), index: idx },
                    ),
                );
                proof {
                    assert(grid_view(out@) =~= before.push(
                        (
                            SlotModel { item: None, required_tag: tag_lookup(tv, idx) },
                            (collection, idx),
                        ),
                    ));
                    assert(spec_grid_column(collection, tv, bv, x, (y + 1) as u32)
                        == spec_grid_column(collection, tv, bv, x, y).push(
                        (
                            SlotModel { item: None, required_tag: tag_lookup(tv, idx) },
                            (collection, idx),
                        ),
                    ));
                    assert(grid_view(out@) =~= spec_grid_slots(collection, tv, bv, x, config.rows)
                        + spec_grid_column(collection, tv, bv, x, (y + 1) as u32));
                }
            } else {
                proof {
                    assert(spec_grid_column(collection, tv, bv, x, (y + 1) as u32)
                        == spec_grid_column(collection, tv, bv, x, y));
                }
            }
            y = y + 1;
        }
        x = x + 1;
    }
    out
}

} // verus!
