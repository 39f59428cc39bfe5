//! Inventory store: named collections mapping a 2D grid coordinate to an
//! item identifier, each with a bounding size for the insertion search, plus
//! a pending-change log of touched coordinates.

use vstd::prelude::*;
use crate::item::ItemId;
use crate::kv::{kv_map, distinct_keys, lemma_kv_map_domain, lemma_kv_map_index,
    lemma_kv_map_update, lemma_kv_map_remove, lemma_kv_map_push_fresh};

verus! {

/// 2D coordinate inside a collection: column `x`, row `y`.
#[derive(Debug, PartialEq, Eq, Structural, Clone, Copy, Hash)]
pub struct Index {
    pub x: u32,
    pub y: u32,
}

impl Index {
    pub fn new(x: u32, y: u32) -> (r: Index)
        ensures
            r == (Index { x, y }),
    {
        Index { x, y }
    }
}

/// One named collection: coordinate/item entries plus the bounding size used
/// by the insertion search.
struct InventoryCollection {
    by_index: Vec<(Index, ItemId)>,
    max_size: Index,
}

/// Mathematical image of one collection.
pub ghost struct CollectionModel {
    pub by_index: Map<Index, ItemId>,
    pub max_size: Index,
}

impl View for InventoryCollection {
    type V = CollectionModel;

    closed spec fn view(&self) -> CollectionModel {
        CollectionModel { by_index: kv_map(self.by_index@), max_size: self.max_size }
    }
}

/// A collection that was never configured: unbounded single row.
pub open spec fn default_collection_model() -> CollectionModel {
    CollectionModel { by_index: Map::empty(), max_size: Index { x: u32::MAX, y: 1 } }
}

/// Row-major order: `a` is scanned strictly before `b`.
pub open spec fn rm_before(a: Index, b: Index) -> bool {
    a.y < b.y || (a.y == b.y && a.x < b.x)
}

/// The coordinate lies inside the bounding size.
pub open spec fn in_bounds(i: Index, max: Index) -> bool {
    i.x < max.x && i.y < max.y
}

/// `idx` is the first free coordinate of the collection in row-major order.
pub open spec fn is_first_free(c: CollectionModel, idx: Index) -> bool {
    &&& in_bounds(idx, c.max_size)
    &&& !c.by_index.contains_key(idx)
    &&& forall|j: Index|
        #[trigger] in_bounds(j, c.max_size) && rm_before(j, idx) ==> c.by_index.contains_key(j)
}

/// Every in-bounds coordinate of the collection is occupied.
pub open spec fn is_full(c: CollectionModel) -> bool {
    forall|j: Index| #[trigger] in_bounds(j, c.max_size) ==> c.by_index.contains_key(j)
}

/// Writing an item at a coordinate, creating the collection if absent.
pub open spec fn spec_set(
    cs: Map<Seq<char>, CollectionModel>,
    name: Seq<char>,
    index: Index,
    item: ItemId,
) -> Map<Seq<char>, CollectionModel> {
    let c = if cs.contains_key(name) {
        cs[name]
    } else {
        default_collection_model()
    };
    cs.insert(name, CollectionModel { by_index: c.by_index.insert(index, item), ..c })
}

/// Clearing a coordinate; a missing collection stays missing.
pub open spec fn spec_remove(
    cs: Map<Seq<char>, CollectionModel>,
    name: Seq<char>,
    index: Index,
) -> Map<Seq<char>, CollectionModel> {
    if cs.contains_key(name) {
        cs.insert(name, CollectionModel { by_index: cs[name].by_index.remove(index), ..cs[name] })
    } else {
        cs
    }
}

/// The item at a coordinate of a named collection, if any.
pub open spec fn spec_lookup(
    cs: Map<Seq<char>, CollectionModel>,
    name: Seq<char>,
    index: Index,
) -> Option<ItemId> {
    if cs.contains_key(name) && cs[name].by_index.contains_key(index) {
        Some(cs[name].by_index[index])
    } else {
        None
    }
}

/// Exported collections over plain values: name, entry map and bounds.
pub open spec fn export_view(r: Seq<(String, Index, Vec<(Index, ItemId)>)>) -> Seq<
    (Seq<char>, CollectionModel),
> {
    r.map_values(
        |e: (String, Index, Vec<(Index, ItemId)>)|
            (e.0@, CollectionModel { by_index: kv_map(e.2@), max_size: e.1 }),
    )
}

/// Mathematical image of the whole inventory store.
pub ghost struct InventoryModel {
    /// The collections by name.
    pub collections: Map<Seq<char>, CollectionModel>,
    /// Coordinates touched since the last drain, oldest first.
    pub modified: Seq<(Seq<char>, Index)>,
}

/// Named collections addressed by 2D coordinate, with a pending-change log.
pub struct Inventory {
    collections_by_name: Vec<(String, InventoryCollection)>,
    // a list of indexes that should be propagated back to bound slots
    modified: Vec<(String, Index)>,
}

spec fn collections_pairs(s: Seq<(String, InventoryCollection)>) -> Seq<
    (Seq<char>, CollectionModel),
> {
    s.map_values(|p: (String, InventoryCollection)| (p.0@, p.1@))
}

/// The change-log entries over plain values.
pub open spec fn modified_view(s: Seq<(String, Index)>) -> Seq<(Seq<char>, Index)> {
    s.map_values(|p: (String, Index)| (p.0@, p.1))
}

impl View for Inventory {
    type V = InventoryModel;

    closed spec fn view(&self) -> InventoryModel {
        InventoryModel {
            collections: kv_map(collections_pairs(self.collections_by_name@)),
            modified: modified_view(self.modified@),
        }
    }
}

/// Position of a coordinate among the entries of one collection.
fn find_index_pos(v: &Vec<(Index, ItemId)>, index: Index) -> (r: Option<usize>)
    requires
        distinct_keys(v@),
    ensures
        match r {
            Some(p) => p < v@.len() && v@[p as int].0 == index && kv_map(v@).contains_key(index)
                && kv_map(v@)[index] == v@[p as int].1,
            None => !kv_map(v@).contains_key(index),
        },
{
    let mut i: usize = 0;
    while i < v.len()
        invariant
            distinct_keys(v@),
            i <= v@.len(),
            forall|j: int| 0 <= j < i ==> (#[trigger] v@[j]).0 != index,
        decreases v@.len() - i,
    {
        if v[i].0 == index {
            proof {
                lemma_kv_map_index(v@, i as int);
            }
            return Some(i);
        }
        i = i + 1;
    }
    proof {
        lemma_kv_map_domain(v@, index);
    }
    None
}

/// The first free coordinate of the collection in row-major order, if any.
fn first_free_index(c: &InventoryCollection) -> (r: Option<Index>)
    requires
        distinct_keys(c.by_index@),
    ensures
        match r {
            Some(idx) => is_first_free(c@, idx),
            None => is_full(c@),
        },
{
    let max = c.max_size;
    let mut y: u32 = 0;
    while y < max.y
        invariant
            distinct_keys(c.by_index@),
            y <= max.y,
            max == c@.max_size,
            forall|j: Index|
                #[trigger] in_bounds(j, c@.max_size) && j.y < y ==> c@.by_index.contains_key(j),
        decreases max.y - y,
    {
        let mut x: u32 = 0;
        while x < max.x
            invariant
                distinct_keys(c.by_index@),
                y < max.y,
                x <= max.x,
                max == c@.max_size,
                forall|j: Index|
                    #[trigger] in_bounds(j, c@.max_size) && (j.y < y || (j.y == y && j.x < x))
                        ==> c@.by_index.contains_key(j),
            decreases max.x - x,
        {
            let idx = Index { x, y };
            if find_index_pos(&c.by_index, idx).is_none() {
                assert(in_bounds(idx, c@.max_size));
                assert forall|j: Index| in_bounds(j, c@.max_size) && rm_before(j, idx)
                    implies c@.by_index.contains_key(j) by {
                    assert(in_bounds(j, c@.max_size));
                }
                return Some(idx);
            }
            x = x + 1;
        }
        y = y + 1;
    }
    None
}

impl Inventory {
    /// Well-formedness: collection names never repeat and no collection lists
    /// a coordinate twice.
    pub closed spec fn wf(&self) -> bool {
        &&& distinct_keys(collections_pairs(self.collections_by_name@))
        &&& forall|i: int|
            0 <= i < self.collections_by_name@.len() ==> distinct_keys(
                (#[trigger] self.collections_by_name@[i]).1.by_index@,
            )
    }

    /// Position of a collection in the store vector.
    fn find_collection_index(&self, collection: &String) -> (r: Option<usize>)
        requires
            self.wf(),
        ensures
            match r {
                Some(i) => i < self.collections_by_name@.len()
                    && self.collections_by_name@[i as int].0@ == collection@
                    && self@.collections.contains_key(collection@)
                    && self@.collections[collection@] == self.collections_by_name@[i as int].1@,
                None => !self@.collections.contains_key(collection@),
            },
    {
        let ghost pairs = collections_pairs(self.collections_by_name@);
        let mut i: usize = 0;
        while i < self.collections_by_name.len()
            invariant
                self.wf(),
                i <= self.collections_by_name@.len(),
                pairs == collections_pairs(self.collections_by_name@),
                forall|j: int|
                    0 <= j < i ==> (#[trigger] self.collections_by_name@[j]).0@ != collection@,
            decreases self.collections_by_name@.len() - i,
        {
            if self.collections_by_name[i].0 == *collection {
                proof {
                    lemma_kv_map_index(pairs, i as int);
                }
                return Some(i);
            }
            i = i + 1;
        }
        proof {
            lemma_kv_map_domain(pairs, collection@);
        }
        None
    }

    /// Position of the collection, created with the default bounds if absent.
    fn ensure_collection(&mut self, collection: &String) -> (r: usize)
        requires
            old(self).wf(),
        ensures
            final(self).wf(),
            r < final(self).collections_by_name@.len(),
            final(self).collections_by_name@[r as int].0@ == collection@,
            final(self)@.modified == old(self)@.modified,
            final(self)@.collections == (if old(self)@.collections.contains_key(collection@) {
                old(self)@.collections
            } else {
                old(self)@.collections.insert(collection@, default_collection_model())
            }),
            final(self)@.collections.contains_key(collection@),
            final(self)@.collections[collection@] == final(self).collections_by_name@[
                r as int
            ].1@,
    {
        match self.find_collection_index(collection) {
            Some(i) => i,
            None => {
                proof {
                    lemma_kv_map_domain(collections_pairs(self.collections_by_name@), collection@);
                    lemma_kv_map_push_fresh(
                        collections_pairs(self.collections_by_name@),
                        collection@,
                        default_collection_model(),
                    );
                }
                let c = InventoryCollection {
                    by_index: Vec::new(),
                    max_size: Index { x: u32::MAX, y: 1 },
                };
                self.collections_by_name.push((collection.clone(), c));
                proof {
                    assert(collections_pairs(self.collections_by_name@) =~= collections_pairs(
                        old(self).collections_by_name@,
                    ).push((collection@, default_collection_model())));
                    lemma_kv_map_index(
                        collections_pairs(self.collections_by_name@),
                        self.collections_by_name@.len() - 1,
                    );
                }
                self.collections_by_name.len() - 1
            },
        }
    }

    /// Reads the item at a coordinate; `None` for an unknown collection or a
    /// free coordinate.
    pub fn get(&self, collection: &str, index: &Index) -> (r: Option<&ItemId>)
        requires
            self.wf(),
        ensures
            match r {
                Some(id) => spec_lookup(self@.collections, collection@, *index) == Some(*id),
                None => spec_lookup(self@.collections, collection@, *index) is None,
            },
    {
        let owned = collection.to_owned();
        match self.find_collection_index(&owned) {
            Some(i) => {
                match find_index_pos(&self.collections_by_name[i].1.by_index, *index) {
                    Some(p) => Some(&self.collections_by_name[i].1.by_index[p].1),
                    None => None,
                }
            },
            None => None,
        }
    }

    /// Writes an item at a coordinate; the logging half lives in `set`.
    fn set_unregistered(&mut self, collection: &str, index: Index, item: ItemId)
        requires
            old(self).wf(),
        ensures
            final(self).wf(),
            final(self)@.collections == spec_set(old(self)@.collections, collection@, index, item),
            final(self)@.modified == old(self)@.modified,
    {
        let owned = collection.to_owned();
        let i = self.ensure_collection(&owned);
        let ghost mid = *self;
        let pos = find_index_pos(&self.collections_by_name[i].1.by_index, index);
        match pos {
            Some(p) => {
                proof {
                    lemma_kv_map_update(
                        mid.collections_by_name@[i as int].1.by_index@,
                        p as int,
                        item,
                    );
                }
                self.collections_by_name[i].1.by_index[p] = (index, item);
            },
            None => {
                proof {
                    lemma_kv_map_domain(mid.collections_by_name@[i as int].1.by_index@, index);
                    lemma_kv_map_push_fresh(
                        mid.collections_by_name@[i as int].1.by_index@,
                        index,
                        item,
                    );
                }
                self.collections_by_name[i].1.by_index.push((index, item));
            },
        }
        proof {
            let entry = self.collections_by_name@[i as int];
            assert(collections_pairs(self.collections_by_name@) =~= collections_pairs(
                mid.collections_by_name@,
            ).update(i as int, (collection@, entry.1@)));
            lemma_kv_map_update(
                collections_pairs(mid.collections_by_name@),
                i as int,
                entry.1@,
            );
        }
    }

    /// Writes an item at a coordinate and logs the coordinate for the
    /// synchronizer's next drain.
    pub fn set(&mut self, collection: &str, index: Index, item: ItemId)
        requires
            old(self).wf(),
        ensures
            final(self).wf(),
            final(self)@.collections == spec_set(old(self)@.collections, collection@, index, item),
            final(self)@.modified == old(self)@.modified.push((collection@, index)),
    {
        self.set_unregistered(collection, index, item);
        self.modified.push((collection.to_owned(), index));
        proof {
            assert(modified_view(self.modified@) =~= old(self)@.modified.push(
                (collection@, index),
            ));
        }
    }

    /// Clears a coordinate; the logging half lives in `remove`.
    fn remove_unregistered(&mut self, collection: &str, index: Index)
        requires
            old(self).wf(),
        ensures
            final(self).wf(),
            final(self)@.collections == spec_remove(old(self)@.collections, collection@, index),
            final(self)@.modified == old(self)@.modified,
    {
        let owned = collection.to_owned();
        let i = match self.find_collection_index(&owned) {
            Some(i) => i,
            None => {
                return ;
            },
        };
        let pos = find_index_pos(&self.collections_by_name[i].1.by_index, index);
        match pos {
            Some(p) => {
                proof {
                    lemma_kv_map_remove(
                        old(self).collections_by_name@[i as int].1.by_index@,
                        p as int,
                    );
                }
                self.collections_by_name[i].1.by_index.remove(p);
                proof {
                    let entry = self.collections_by_name@[i as int];
                    assert(collections_pairs(self.collections_by_name@) =~= collections_pairs(
                        old(self).collections_by_name@,
                    ).update(i as int, (collection@, entry.1@)));
                    lemma_kv_map_update(
                        collections_pairs(old(self).collections_by_name@),
                        i as int,
                        entry.1@,
                    );
                }
            },
            None => {
                proof {
                    let c = old(self)@.collections[collection@];
                    assert(c.by_index.remove(index) =~= c.by_index);
                    assert(spec_remove(old(self)@.collections, collection@, index)
                        =~= old(self)@.collections);
                }
            },
        }
    }

    /// Clears a coordinate and logs it for the synchronizer's next drain.
    pub fn remove(&mut self, collection: &str, index: Index)
        requires
            old(self).wf(),
        ensures
            final(self).wf(),
            final(self)@.collections == spec_remove(old(self)@.collections, collection@, index),
            final(self)@.modified == old(self)@.modified.push((collection@, index)),
    {
        self.remove_unregistered(collection, index);
        self.modified.push((collection.to_owned(), index));
        proof {
            assert(modified_view(self.modified@) =~= old(self)@.modified.push(
                (collection@, index),
            ));
        }
    }

    /// Sets the bounding size used by the insertion search, creating the
    /// collection if absent.
    pub fn set_max_size(&mut self, collection: &str, max_size: Index)
        requires
            old(self).wf(),
        ensures
            final(self).wf(),
            final(self)@.modified == old(self)@.modified,
            final(self)@.collections == ({
                let c = if old(self)@.collections.contains_key(collection@) {
                    old(self)@.collections[collection@]
                } else {
                    default_collection_model()
                };
                old(self)@.collections.insert(
                    collection@,
                    CollectionModel { max_size: max_size, ..c },
                )
            }),
    {
        let owned = collection.to_owned();
        let i = self.ensure_collection(&owned);
        let ghost mid = *self;
        self.collections_by_name[i].1.max_size = max_size;
        proof {
            let entry = self.collections_by_name@[i as int];
            assert(collections_pairs(self.collections_by_name@) =~= collections_pairs(
                mid.collections_by_name@,
            ).update(i as int, (collection@, entry.1@)));
            lemma_kv_map_update(
                collections_pairs(mid.collections_by_name@),
                i as int,
                entry.1@,
            );
        }
    }

    /// Inserts an item at the first free coordinate of the collection in
    /// row-major order, logging the coordinate; `None` when the collection is
    /// full. The collection is created with the default bounds if absent.
    pub fn add(&mut self, collection: &str, item: ItemId) -> (r: Option<Index>)
        requires
            old(self).wf(),
        ensures
            final(self).wf(),
            ({
                let cs0 = old(self)@.collections;
                let c0 = if cs0.contains_key(collection@) {
                    cs0[collection@]
                } else {
                    default_collection_model()
                };
                match r {
                    Some(idx) => is_first_free(c0, idx)
                        && final(self)@.collections == spec_set(cs0, collection@, idx, item)
                        && final(self)@.modified == old(self)@.modified.push((collection@, idx)),
                    None => is_full(c0)
                        && final(self)@.collections == (if cs0.contains_key(collection@) {
                            cs0
                        } else {
                            cs0.insert(collection@, default_collection_model())
                        })
                        && final(self)@.modified == old(self)@.modified,
                }
            }),
    {
        let owned = collection.to_owned();
        let i = self.ensure_collection(&owned);
        let free = first_free_index(&self.collections_by_name[i].1);
        match free {
            Some(idx) => {
                self.set(collection, idx, item);
                Some(idx)
            },
            None => None,
        }
    }

    /// The collections as plain tuples of name, bounding size and entries,
    /// for the persistence boundary. The pending-change log is transient and
    /// not part of the saved state; a saved store is restored by replaying
    /// `set_max_size` and `set` over a fresh store.
    pub fn export_collections(&self) -> (r: Vec<(String, Index, Vec<(Index, ItemId)>)>)
        requires
            self.wf(),
        ensures
            distinct_keys(export_view(r@)),
            kv_map(export_view(r@)) == self@.collections,
    {
        let mut out: Vec<(String, Index, Vec<(Index, ItemId)>)> = Vec::new();
        let mut i: usize = 0;
        while i < self.collections_by_name.len()
            invariant
                self.wf(),
                i <= self.collections_by_name@.len(),
                export_view(out@) == collections_pairs(self.collections_by_name@).take(i as int),
            decreases self.collections_by_name@.len() - i,
        {
            let name = self.collections_by_name[i].0.clone();
            let max_size = self.collections_by_name[i].1.max_size;
            let mut entries: Vec<(Index, ItemId)> = Vec::new();
            let mut j: usize = 0;
            while j < self.collections_by_name[i].1.by_index.len()
                invariant
                    i < self.collections_by_name@.len(),
                    j <= self.collections_by_name@[i as int].1.by_index@.len(),
                    entries@ == self.collections_by_name@[i as int].1.by_index@.take(j as int),
                decreases self.collections_by_name@[i as int].1.by_index@.len() - j,
            {
                entries.push(self.collections_by_name[i].1.by_index[j]);
                proof {
                    assert(entries@ =~= self.collections_by_name@[i as int].1.by_index@.take(
                        j + 1 as int,
                    ));
                }
                j = j + 1;
            }
            proof {
                assert(entries@ =~= self.collections_by_name@[i as int].1.by_index@);
            }
            let ghost pushed = (name, max_size, entries);
            let ghost out_before = out@;
            out.push((name, max_size, entries));
            proof {
                assert(out@ == out_before.push(pushed));
                assert(pushed.0@ == self.collections_by_name@[i as int].0@);
                assert(kv_map(pushed.2@) == kv_map(
                    self.collections_by_name@[i as int].1.by_index@,
                ));
                assert(pushed.1 == self.collections_by_name@[i as int].1.max_size);
                let pairs = collections_pairs(self.collections_by_name@);
                assert(export_view(out_before).len() == out_before.len());
                assert(out_before.len() == i as int);
                assert(out@.len() == i + 1);
                assert forall|k: int| 0 <= k < i + 1 implies export_view(out@)[k] == pairs.take(
                    i + 1 as int,
                )[k] by {
                    if k < i {
                        assert(out@[k] == out_before[k]);
                        assert(export_view(out_before)[k] == pairs.take(i as int)[k]);
                    } else {
                        assert(out@[k] == pushed);
                    }
                }
                assert(export_view(out@) =~= pairs.take(i + 1 as int));
            }
            i = i + 1;
        }
        proof {
            assert(collections_pairs(self.collections_by_name@).take(
                self.collections_by_name@.len() as int,
            ) =~= collections_pairs(self.collections_by_name@));
        }
        out
    }

    /// Hands out the pending-change log, oldest entry first, and clears it.
    pub fn take_modified(&mut self) -> (r: Vec<(String, Index)>)
        requires
            old(self).wf(),
        ensures
            final(self).wf(),
            final(self)@.collections == old(self)@.collections,
            final(self)@.modified == Seq::<(Seq<char>, Index)>::empty(),
            modified_view(r@) == old(self)@.modified,
    {
        let mut result: Vec<(String, Index)> = Vec::new();
        core::mem::swap(&mut self.modified, &mut result);
        proof {
            assert(modified_view(self.modified@) =~= Seq::<(Seq<char>, Index)>::empty());
        }
        result
    }
}

impl Default for Inventory {
    fn default() -> (r: Inventory)
        ensures
            r.wf(),
            r@.collections == Map::<Seq<char>, CollectionModel>::empty(),
            r@.modified == Seq::<(Seq<char>, Index)>::empty(),
    {
        let r = Inventory { collections_by_name: Vec::new(), modified: Vec::new() };
        proof {
            assert(modified_view(r.modified@) =~= Seq::<(Seq<char>, Index)>::empty());
        }
        r
    }
}

} // verus!
