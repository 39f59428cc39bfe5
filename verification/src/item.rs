//! Item catalog and item store: item type definitions, live item instances
//! with their stack counts, and the stacking arithmetic of `merge_or_swap`.

use vstd::prelude::*;
use vstd::std_specs::convert::FromSpec;
use crate::kv::{kv_map, distinct_keys, lemma_kv_map_domain, lemma_kv_map_index,
    lemma_kv_map_update, lemma_kv_map_remove, lemma_kv_map_push_fresh};

verus! {

/// Opaque compatibility label attached to item types and optionally required
/// by a slot. Equality is exact string match.
#[derive(Debug)]
pub struct Tag(pub String);

impl View for Tag {
    type V = Seq<char>;

    open spec fn view(&self) -> Seq<char> {
        self.0@
    }
}

impl Clone for Tag {
    fn clone(&self) -> (r: Tag)
        ensures
            r == *self,
    {
        Tag(self.0.clone())
    }
}

/// Identifier of a registered item type, handed out by a monotone counter.
#[derive(Debug, PartialEq, Eq, Structural, Clone, Copy, Hash)]
pub struct ItemTypeId(pub u64);

impl From<u64> for ItemTypeId {
    fn from(value: u64) -> (r: ItemTypeId) {
        ItemTypeId(value)
    }
}

impl vstd::std_specs::convert::FromSpecImpl<u64> for ItemTypeId {
    open spec fn obeys_from_spec() -> bool {
        true
    }

    open spec fn from_spec(v: u64) -> ItemTypeId {
        ItemTypeId(v)
    }
}

/// Identifier of a live item instance, handed out by a monotone counter and
/// never reused within a process lifetime.
#[derive(Debug, PartialEq, Eq, Structural, Clone, Copy, Hash)]
pub struct ItemId(pub u64);

impl From<u64> for ItemId {
    fn from(value: u64) -> (r: ItemId) {
        ItemId(value)
    }
}

impl vstd::std_specs::convert::FromSpecImpl<u64> for ItemId {
    open spec fn obeys_from_spec() -> bool {
        true
    }

    open spec fn from_spec(v: u64) -> ItemId {
        ItemId(v)
    }
}

/// An item type definition. Immutable once registered.
#[derive(Debug)]
pub struct ItemType {
    /// Unique kind_name that identifies this item type.
    pub kind_name: String,
    /// Display name of the item.
    pub display_name: String,
    /// Sprite path.
    pub sprite_path: String,
    /// Max quantity of items stacked in a single spot of the inventory.
    pub max_stack_size: u64,
    /// Compatibility tags.
    pub tags: Vec<Tag>,
}

/// Mathematical image of an item type definition.
pub ghost struct ItemTypeModel {
    pub kind_name: Seq<char>,
    pub display_name: Seq<char>,
    pub sprite_path: Seq<char>,
    pub max_stack_size: u64,
    pub tags: Seq<Seq<char>>,
}

impl View for ItemType {
    type V = ItemTypeModel;

    open spec fn view(&self) -> ItemTypeModel {
        ItemTypeModel {
            kind_name: self.kind_name@,
            display_name: self.display_name@,
            sprite_path: self.sprite_path@,
            max_stack_size: self.max_stack_size,
            tags: self.tags@.map_values(|t: Tag| t@),
        }
    }
}

/// A live item instance: a stack of `stack_size` items of one type.
#[derive(Debug)]
pub struct Item {
    /// Unique kind_name that identifies this item's type.
    pub kind_name: String,
    pub stack_size: u64,
}

/// Mathematical image of an item instance.
pub ghost struct ItemModel {
    pub kind_name: Seq<char>,
    pub stack_size: u64,
}

impl View for Item {
    type V = ItemModel;

    open spec fn view(&self) -> ItemModel {
        ItemModel { kind_name: self.kind_name@, stack_size: self.stack_size }
    }
}

/// Generates identifiers used at runtime: a per-kind monotone counter.
pub struct IdFactory<I> {
    current_id: u64,
    id_type: core::marker::PhantomData<I>,
}

impl<I> View for IdFactory<I> {
    type V = u64;

    closed spec fn view(&self) -> u64 {
        self.current_id
    }
}

impl<I> Default for IdFactory<I> {
    fn default() -> (r: Self)
        ensures
            r@ == 0,
    {
        IdFactory { current_id: 0, id_type: core::marker::PhantomData }
    }
}

impl<I> IdFactory<I> {
    /// Moves the counter past a value restored from a saved state, so that
    /// freshly generated identifiers never collide with restored ones.
    pub fn advance_past(&mut self, value: u64)
        requires
            value < u64::MAX,
        ensures
            final(self)@ == (if old(self)@ > value {
                old(self)@
            } else {
                (value + 1) as u64
            }),
    {
        if self.current_id <= value {
            self.current_id = value + 1;
        }
    }
}

impl<I: From<u64>> IdFactory<I> {
    /// Hands out the current counter value and advances the counter.
    pub fn next_id(&mut self) -> (r: I)
        requires
            old(self)@ < u64::MAX,
        ensures
            final(self)@ == old(self)@ + 1,
            I::obeys_from_spec() ==> r == I::from_spec(old(self)@),
    {
        let result = self.current_id;
        self.current_id = self.current_id + 1;
        result.into()
    }
}

/// The pairs of a store vector as key/value pairs over plain values.
pub open spec fn items_pairs(s: Seq<(ItemId, Item)>) -> Seq<(u64, ItemModel)> {
    s.map_values(|p: (ItemId, Item)| (p.0.0, p.1@))
}

/// No two registered types carry the same name.
pub open spec fn kind_names_distinct(types: Seq<ItemTypeModel>) -> bool {
    forall|i: int, j: int|
        0 <= i < j < types.len() ==> types[i].kind_name != types[j].kind_name
}

/// The first registered type with the given name, front to back.
pub open spec fn find_type(types: Seq<ItemTypeModel>, name: Seq<char>) -> Option<ItemTypeModel>
    decreases types.len(),
{
    if types.len() == 0 {
        None
    } else if types[0].kind_name == name {
        Some(types[0])
    } else {
        find_type(types.subrange(1, types.len() as int), name)
    }
}

/// A name is absent from the catalog exactly when no type carries it.
pub proof fn lemma_find_type_absent(types: Seq<ItemTypeModel>, name: Seq<char>)
    ensures
        find_type(types, name) is None <==> forall|i: int|
            0 <= i < types.len() ==> types[i].kind_name != name,
    decreases types.len(),
{
    if types.len() > 0 {
        let rest = types.subrange(1, types.len() as int);
        lemma_find_type_absent(rest, name);
        assert(forall|i: int| 0 <= i < rest.len() ==> rest[i] == types[i + 1]);
        if types[0].kind_name != name && (forall|i: int|
            0 <= i < rest.len() ==> rest[i].kind_name != name) {
            assert forall|i: int| 0 <= i < types.len() implies types[i].kind_name != name by {
                if i > 0 {
                    assert(rest[i - 1] == types[i]);
                }
            }
        }
    }
}

/// The first match decides the catalog lookup.
pub proof fn lemma_find_type_present(types: Seq<ItemTypeModel>, name: Seq<char>, i: int)
    requires
        0 <= i < types.len(),
        types[i].kind_name == name,
        forall|j: int| 0 <= j < i ==> types[j].kind_name != name,
    ensures
        find_type(types, name) == Some(types[i]),
    decreases types.len(),
{
    if i > 0 {
        let rest = types.subrange(1, types.len() as int);
        assert(forall|j: int| 0 <= j < rest.len() ==> rest[j] == types[j + 1]);
        lemma_find_type_present(rest, name, i - 1);
    }
}

/// A lookup in a concatenated catalog reads the front part first.
pub proof fn lemma_find_type_append(a: Seq<ItemTypeModel>, b: Seq<ItemTypeModel>, name: Seq<char>)
    ensures
        find_type(a + b, name) == (if find_type(a, name) is Some {
            find_type(a, name)
        } else {
            find_type(b, name)
        }),
    decreases a.len(),
{
    if a.len() == 0 {
        assert(a + b =~= b);
    } else {
        assert((a + b)[0] == a[0]);
        assert((a + b).subrange(1, (a + b).len() as int) =~= a.subrange(1, a.len() as int) + b);
        lemma_find_type_append(a.subrange(1, a.len() as int), b, name);
    }
}

/// The type definitions over their mathematical images.
pub open spec fn types_views(s: Seq<ItemType>) -> Seq<ItemTypeModel> {
    s.map_values(|t: ItemType| t@)
}

/// A batch of definitions can join a catalog: no name repeats within the
/// batch, and none is registered already.
pub open spec fn batch_names_fresh(existing: Seq<ItemTypeModel>, defs: Seq<ItemTypeModel>) -> bool {
    &&& kind_names_distinct(defs)
    &&& forall|i: int|
        0 <= i < defs.len() ==> find_type(existing, (#[trigger] defs[i]).kind_name) is None
}

/// Read-only join of one item instance with its type definition.
#[derive(Debug)]
pub struct ItemMeta {
    pub kind_name: String,
    pub display_name: String,
    pub sprite_path: String,
    pub stack_size: u64,
    pub max_stack_size: u64,
    pub tags: Vec<Tag>,
}

/// Mathematical image of an `ItemMeta`.
pub ghost struct ItemMetaModel {
    pub kind_name: Seq<char>,
    pub display_name: Seq<char>,
    pub sprite_path: Seq<char>,
    pub stack_size: u64,
    pub max_stack_size: u64,
    pub tags: Seq<Seq<char>>,
}

impl View for ItemMeta {
    type V = ItemMetaModel;

    open spec fn view(&self) -> ItemMetaModel {
        ItemMetaModel {
            kind_name: self.kind_name@,
            display_name: self.display_name@,
            sprite_path: self.sprite_path@,
            stack_size: self.stack_size,
            max_stack_size: self.max_stack_size,
            tags: self.tags@.map_values(|t: Tag| t@),
        }
    }
}

/// Clones a tag list element by element.
fn clone_tags(tags: &Vec<Tag>) -> (r: Vec<Tag>)
    ensures
        r@ == tags@,
{
    let mut out: Vec<Tag> = Vec::new();
    let mut i: usize = 0;
    while i < tags.len()
        invariant
            i <= tags@.len(),
            out@ == tags@.subrange(0, i as int),
        decreases tags@.len() - i,
    {
        out.push(tags[i].clone());
        proof {
            assert(out@ =~= tags@.subrange(0, i + 1 as int));
        }
        i = i + 1;
    }
    proof {
        assert(out@ =~= tags@);
    }
    out
}

/// Mathematical image of the whole catalog-and-store state.
pub ghost struct ItemsModel {
    /// Registered type definitions, in registration order; the position of a
    /// definition is the value of its `ItemTypeId`.
    pub types: Seq<ItemTypeModel>,
    /// Live item instances by the value of their `ItemId`.
    pub items: Map<u64, ItemModel>,
    pub next_type_id: u64,
    pub next_item_id: u64,
}

/// Owns all item type definitions and all live item instances.
pub struct Items {
    item_type_ids: IdFactory<ItemTypeId>,
    item_ids: IdFactory<ItemId>,
    item_types: Vec<ItemType>,
    items: Vec<(ItemId, Item)>,
}

impl View for Items {
    type V = ItemsModel;

    closed spec fn view(&self) -> ItemsModel {
        ItemsModel {
            types: self.item_types@.map_values(|t: ItemType| t@),
            items: kv_map(items_pairs(self.items@)),
            next_type_id: self.item_type_ids@,
            next_item_id: self.item_ids@,
        }
    }
}

impl Items {
    /// Well-formedness: ids are unique and below the counters, type ids are
    /// registration positions, and type names never repeat.
    pub closed spec fn wf(&self) -> bool {
        &&& distinct_keys(items_pairs(self.items@))
        &&& forall|i: int|
            0 <= i < self.items@.len() ==> (#[trigger] self.items@[i]).0.0 < self.item_ids@
        &&& self.item_types@.len() == self.item_type_ids@
        &&& kind_names_distinct(self@.types)
    }

    /// Position of the item with this id in the store vector.
    fn find_item_index(&self, id: ItemId) -> (r: Option<usize>)
        requires
            self.wf(),
        ensures
            match r {
                Some(i) => i < self.items@.len() && self.items@[i as int].0 == id
                    && self@.items.contains_key(id.0)
                    && self@.items[id.0] == self.items@[i as int].1@,
                None => !self@.items.contains_key(id.0),
            },
    {
        let ghost pairs = items_pairs(self.items@);
        let mut i: usize = 0;
        while i < self.items.len()
            invariant
                self.wf(),
                i <= self.items@.len(),
                pairs == items_pairs(self.items@),
                forall|j: int| 0 <= j < i ==> (#[trigger] self.items@[j]).0 != id,
            decreases self.items@.len() - i,
        {
            if self.items[i].0 == id {
                proof {
                    lemma_kv_map_index(pairs, i as int);
                }
                return Some(i);
            }
            i = i + 1;
        }
        proof {
            lemma_kv_map_domain(pairs, id.0);
        }
        None
    }

    /// Position of the type definition with this name in the catalog vector.
    fn find_type_index(&self, kind_name: &String) -> (r: Option<usize>)
        requires
            self.wf(),
        ensures
            match r {
                Some(i) => i < self.item_types@.len()
                    && find_type(self@.types, kind_name@) == Some(self.item_types@[i as int]@),
                None => find_type(self@.types, kind_name@) is None,
            },
    {
        let mut i: usize = 0;
        while i < self.item_types.len()
            invariant
                self.wf(),
                i <= self.item_types@.len(),
                forall|j: int|
                    0 <= j < i ==> (#[trigger] self.item_types@[j])@.kind_name != kind_name@,
            decreases self.item_types@.len() - i,
        {
            if self.item_types[i].kind_name == *kind_name {
                proof {
                    lemma_find_type_present(self@.types, kind_name@, i as int);
                }
                return Some(i);
            }
            i = i + 1;
        }
        proof {
            lemma_find_type_absent(self@.types, kind_name@);
        }
        None
    }

    /// Registers a type definition; rejects a duplicate `kind_name`, leaving
    /// the catalog unchanged.
    pub fn register_item_type(&mut self, item_type: ItemType) -> (r: Option<ItemTypeId>)
        requires
            old(self).wf(),
            old(self)@.next_type_id < u64::MAX,
        ensures
            final(self).wf(),
            final(self)@.items == old(self)@.items,
            final(self)@.next_item_id == old(self)@.next_item_id,
            match r {
                Some(id) => find_type(old(self)@.types, item_type@.kind_name) is None
                    && id == ItemTypeId(old(self)@.next_type_id)
                    && final(self)@.types == old(self)@.types.push(item_type@)
                    && final(self)@.next_type_id == old(self)@.next_type_id + 1,
                None => find_type(old(self)@.types, item_type@.kind_name) is Some
                    && final(self)@ == old(self)@,
            },
    {
        if self.find_type_index(&item_type.kind_name).is_some() {
            return None;
        }
        proof {
            lemma_find_type_absent(self@.types, item_type@.kind_name);
        }
        let id: ItemTypeId = self.item_type_ids.next_id();
        self.item_types.push(item_type);
        proof {
            assert(self@.types =~= old(self)@.types.push(item_type@));
            assert(items_pairs(self.items@) == items_pairs(old(self).items@));
        }
        Some(id)
    }

    /// Registers a whole catalog, all definitions or none: if any name
    /// repeats, within the batch or against an already registered type, the
    /// catalog is left unchanged and `false` comes back. Startup treats that
    /// as fatal; no partial catalog is ever accepted.
    pub fn register_item_types(&mut self, item_types: Vec<ItemType>) -> (ok: bool)
        requires
            old(self).wf(),
            old(self)@.next_type_id + item_types@.len() <= u64::MAX,
        ensures
            final(self).wf(),
            final(self)@.items == old(self)@.items,
            final(self)@.next_item_id == old(self)@.next_item_id,
            ok <==> batch_names_fresh(old(self)@.types, types_views(item_types@)),
            ok ==> final(self)@.types == old(self)@.types + types_views(item_types@)
                && final(self)@.next_type_id == old(self)@.next_type_id + item_types@.len(),
            !ok ==> final(self)@ == old(self)@,
    {
        let ghost defs = types_views(item_types@);

        // validate the whole batch before touching the catalog
        let mut i: usize = 0;
        while i < item_types.len()
            invariant
                self.wf(),
                self == old(self),
                i <= item_types@.len(),
                defs == types_views(item_types@),
                forall|k: int|
                    0 <= k < i ==> find_type(self@.types, (#[trigger] defs[k]).kind_name) is None,
                forall|k: int, l: int| 0 <= k < l < i ==> defs[k].kind_name != defs[l].kind_name,
            decreases item_types@.len() - i,
        {
            if self.find_type_index(&item_types[i].kind_name).is_some() {
                proof {
                    assert(defs[i as int] == item_types@[i as int]@);
                    assert(!batch_names_fresh(old(self)@.types, defs));
                }
                return false;
            }
            let mut j: usize = 0;
            while j < i
                invariant
                    self.wf(),
                    self == old(self),
                    i < item_types@.len(),
                    j <= i,
                    defs == types_views(item_types@),
                    forall|k: int| 0 <= k < j ==> (#[trigger] defs[k]).kind_name != defs[
                        i as int
                    ].kind_name,
                decreases i - j,
            {
                if item_types[j].kind_name == item_types[i].kind_name {
                    proof {
                        assert(defs[j as int] == item_types@[j as int]@);
                        assert(defs[i as int] == item_types@[i as int]@);
                        assert(defs[j as int].kind_name == defs[i as int].kind_name);
                        assert(!kind_names_distinct(defs));
                    }
                    return false;
                }
                j = j + 1;
            }
            i = i + 1;
        }

        // insert the batch, front to back
        let mut remaining = item_types;
        let ghost mut inserted: int = 0;
        while remaining.len() > 0
            invariant
                self.wf(),
                defs == types_views(item_types@),
                batch_names_fresh(old(self)@.types, defs),
                0 <= inserted,
                inserted + remaining@.len() == item_types@.len(),
                remaining@ =~= item_types@.subrange(inserted, item_types@.len() as int),
                self@.types == old(self)@.types + defs.take(inserted),
                self@.next_type_id == old(self)@.next_type_id + inserted,
                self@.items == old(self)@.items,
                self@.next_item_id == old(self)@.next_item_id,
                old(self)@.next_type_id + item_types@.len() <= u64::MAX,
            decreases remaining@.len(),
        {
            let def = remaining.remove(0);
            proof {
                assert(def@ == defs[inserted]);
                lemma_find_type_append(old(self)@.types, defs.take(inserted), def@.kind_name);
                lemma_find_type_absent(defs.take(inserted), def@.kind_name);
                assert(find_type(self@.types, def@.kind_name) is None);
            }
            let r = self.register_item_type(def);
            proof {
                assert(r is Some);
                assert(self@.types =~= old(self)@.types + defs.take(inserted + 1));
                assert(remaining@ =~= item_types@.subrange(inserted + 1, item_types@.len() as int));
                inserted = inserted + 1;
            }
        }
        proof {
            assert(defs.take(item_types@.len() as int) =~= defs);
        }
        true
    }

    /// Allocates one new item with stack count 1.
    pub fn add_item(&mut self, kind_name: &str) -> (r: ItemId)
        requires
            old(self).wf(),
            old(self)@.next_item_id < u64::MAX,
        ensures
            final(self).wf(),
            r == ItemId(old(self)@.next_item_id),
            !old(self)@.items.contains_key(r.0),
            final(self)@.items == old(self)@.items.insert(
                r.0,
                ItemModel { kind_name: kind_name@, stack_size: 1 },
            ),
            final(self)@.types == old(self)@.types,
            final(self)@.next_type_id == old(self)@.next_type_id,
            final(self)@.next_item_id == old(self)@.next_item_id + 1,
    {
        self.add_items(kind_name, 1)
    }

    /// Allocates one new item with the given stack count. The count is not
    /// checked against the type's `max_stack_size`, and the name is not
    /// checked against the catalog: callers may seed over-stacked or
    /// yet-unregistered items on purpose.
    pub fn add_items(&mut self, kind_name: &str, count: u64) -> (r: ItemId)
        requires
            old(self).wf(),
            old(self)@.next_item_id < u64::MAX,
        ensures
            final(self).wf(),
            r == ItemId(old(self)@.next_item_id),
            !old(self)@.items.contains_key(r.0),
            final(self)@.items == old(self)@.items.insert(
                r.0,
                ItemModel { kind_name: kind_name@, stack_size: count },
            ),
            final(self)@.types == old(self)@.types,
            final(self)@.next_type_id == old(self)@.next_type_id,
            final(self)@.next_item_id == old(self)@.next_item_id + 1,
    {
        let item = Item { kind_name: kind_name.to_owned(), stack_size: count };
        let id: ItemId = self.item_ids.next_id();
        proof {
            // every live id sits below the counter, so the handed-out id is
            // not live yet
            lemma_kv_map_domain(items_pairs(old(self).items@), id.0);
            lemma_kv_map_push_fresh(
                items_pairs(old(self).items@),
                id.0,
                ItemModel { kind_name: kind_name@, stack_size: count },
            );
        }
        self.items.push((id, item));
        proof {
            assert(items_pairs(self.items@) =~= items_pairs(old(self).items@).push(
                (id.0, ItemModel { kind_name: kind_name@, stack_size: count }),
            ));
        }
        id
    }

    /// Looks up a type definition by its unique name.
    pub fn get_item_type_with_type_name(&self, kind_name: &str) -> (r: Option<&ItemType>)
        requires
            self.wf(),
        ensures
            match r {
                Some(t) => find_type(self@.types, kind_name@) == Some(t@),
                None => find_type(self@.types, kind_name@) is None,
            },
    {
        let owned = kind_name.to_owned();
        match self.find_type_index(&owned) {
            Some(i) => Some(&self.item_types[i]),
            None => None,
        }
    }

    /// Read-only join of an item instance with its type definition; `None`
    /// when the id is unknown (a merged-away id resolves to `None`, it does
    /// not fault) or when the item's type is not registered.
    pub fn get_item_meta(&self, id: ItemId) -> (r: Option<ItemMeta>)
        requires
            self.wf(),
        ensures
            match r {
                Some(meta) => spec_get_item_meta(self@, id.0) == Some(meta@),
                None => spec_get_item_meta(self@, id.0) is None,
            },
    {
        let item_idx = match self.find_item_index(id) {
            Some(i) => i,
            None => return None,
        };
        let item = &self.items[item_idx].1;
        let ty_idx = match self.find_type_index(&item.kind_name) {
            Some(i) => i,
            None => return None,
        };
        let ty = &self.item_types[ty_idx];
        Some(ItemMeta {
            kind_name: item.kind_name.clone(),
            display_name: ty.display_name.clone(),
            sprite_path: ty.sprite_path.clone(),
            stack_size: item.stack_size,
            max_stack_size: ty.max_stack_size,
            tags: clone_tags(&ty.tags),
        })
    }

    /// Replaces the entry at position `i` with the same id and name but a new
    /// stack count.
    fn set_stack_size(&mut self, i: usize, size: u64)
        requires
            old(self).wf(),
            i < old(self).items@.len(),
        ensures
            final(self).wf(),
            final(self).items@ == old(self).items@.update(
                i as int,
                (old(self).items@[i as int].0, (Item {
                    kind_name: old(self).items@[i as int].1.kind_name,
                    stack_size: size,
                })),
            ),
            final(self)@.items == old(self)@.items.insert(
                old(self).items@[i as int].0.0,
                (ItemModel {
                    kind_name: old(self).items@[i as int].1@.kind_name,
                    stack_size: size,
                }),
            ),
            final(self)@.types == old(self)@.types,
            final(self)@.next_type_id == old(self)@.next_type_id,
            final(self)@.next_item_id == old(self)@.next_item_id,
    {
        let id = self.items[i].0;
        let name = self.items[i].1.kind_name.clone();
        self.items[i] = (id, Item { kind_name: name, stack_size: size });
        proof {
            let m = ItemModel { kind_name: old(self).items@[i as int].1@.kind_name, stack_size: size };
            assert(items_pairs(self.items@) =~= items_pairs(old(self).items@).update(
                i as int,
                (id.0, m),
            ));
            lemma_kv_map_update(items_pairs(old(self).items@), i as int, m);
        }
    }

    /// Removes the entry at position `i` from the store.
    fn remove_item_at(&mut self, i: usize)
        requires
            old(self).wf(),
            i < old(self).items@.len(),
        ensures
            final(self).wf(),
            final(self)@.items == old(self)@.items.remove(old(self).items@[i as int].0.0),
            final(self)@.types == old(self)@.types,
            final(self)@.next_type_id == old(self)@.next_type_id,
            final(self)@.next_item_id == old(self)@.next_item_id,
    {
        self.items.remove(i);
        proof {
            assert(items_pairs(self.items@) =~= items_pairs(old(self).items@).remove(i as int));
            lemma_kv_map_remove(items_pairs(old(self).items@), i as int);
        }
    }

    /// Core stacking algorithm, used by direct drag-and-drop.
    ///
    /// Items of different types, and items of a non-stackable type, trade
    /// identities; same-type stackable items merge into `into_id`, with any
    /// overflow left in `item_id` and a fully consumed source destroyed.
    /// Returns `None`, changing nothing, when either id is unknown or the
    /// shared type of two same-type items is not registered.
    pub fn merge_or_swap(&mut self, item_id: ItemId, into_id: ItemId) -> (r: Option<
        (Option<ItemId>, Option<ItemId>),
    >)
        requires
            old(self).wf(),
            merge_sum_fits(old(self)@, item_id.0, into_id.0),
        ensures
            final(self).wf(),
            final(self)@ == spec_merge_or_swap(old(self)@, item_id.0, into_id.0).0,
            opt_pair_ids(r) == spec_merge_or_swap(old(self)@, item_id.0, into_id.0).1,
    {
        let fi = match self.find_item_index(item_id) {
            Some(i) => i,
            None => return None,
        };
        let ti = match self.find_item_index(into_id) {
            Some(i) => i,
            None => return None,
        };

        // if they are of different types, just swap them
        if self.items[fi].1.kind_name != self.items[ti].1.kind_name {
            return Some((Some(into_id), Some(item_id)));
        }

        let ty_idx = match self.find_type_index(&self.items[fi].1.kind_name) {
            Some(i) => i,
            None => return None,
        };
        let max = self.item_types[ty_idx].max_stack_size;

        // a non-stackable type never merges: swap
        if max == 1 {
            return Some((Some(into_id), Some(item_id)));
        }

        let from_size = self.items[fi].1.stack_size;
        let into_size = self.items[ti].1.stack_size;
        let total = from_size + into_size;

        if total > max {
            // into holds a full stack, the overflow remains in the source
            self.set_stack_size(ti, max);
            self.set_stack_size(fi, total - max);
            Some((Some(item_id), Some(into_id)))
        } else {
            // the source is fully consumed into the destination
            self.set_stack_size(ti, total);
            self.remove_item_at(fi);
            Some((None, Some(into_id)))
        }
    }

    /// The live items as plain pairs, for the persistence boundary. The
    /// pending catalog is static configuration and is not part of the saved
    /// state.
    pub fn export_items(&self) -> (r: Vec<(ItemId, Item)>)
        requires
            self.wf(),
        ensures
            distinct_keys(items_pairs(r@)),
            kv_map(items_pairs(r@)) == self@.items,
    {
        let mut out: Vec<(ItemId, Item)> = Vec::new();
        let mut i: usize = 0;
        while i < self.items.len()
            invariant
                self.wf(),
                i <= self.items@.len(),
                out@ == self.items@.subrange(0, i as int),
            decreases self.items@.len() - i,
        {
            let id = self.items[i].0;
            let item = Item {
                kind_name: self.items[i].1.kind_name.clone(),
                stack_size: self.items[i].1.stack_size,
            };
            out.push((id, item));
            proof {
                assert(out@ =~= self.items@.subrange(0, i + 1 as int));
            }
            i = i + 1;
        }
        proof {
            assert(out@ =~= self.items@);
        }
        out
    }

    /// Restores one saved item under its saved id, advancing the id counter
    /// past it; an id already live is rejected and nothing changes.
    pub fn restore_item(&mut self, id: ItemId, kind_name: &str, stack_size: u64) -> (ok: bool)
        requires
            old(self).wf(),
            id.0 < u64::MAX,
        ensures
            final(self).wf(),
            final(self)@.types == old(self)@.types,
            final(self)@.next_type_id == old(self)@.next_type_id,
            ok <==> !old(self)@.items.contains_key(id.0),
            ok ==> final(self)@.items == old(self)@.items.insert(
                id.0,
                ItemModel { kind_name: kind_name@, stack_size },
            ) && final(self)@.next_item_id == (if old(self)@.next_item_id > id.0 {
                old(self)@.next_item_id
            } else {
                (id.0 + 1) as u64
            }),
            !ok ==> final(self)@ == old(self)@,
    {
        if self.find_item_index(id).is_some() {
            return false;
        }
        self.item_ids.advance_past(id.0);
        let item = Item { kind_name: kind_name.to_owned(), stack_size };
        proof {
            lemma_kv_map_domain(items_pairs(self.items@), id.0);
            lemma_kv_map_push_fresh(
                items_pairs(self.items@),
                id.0,
                ItemModel { kind_name: kind_name@, stack_size },
            );
        }
        self.items.push((id, item));
        proof {
            assert(items_pairs(self.items@) =~= items_pairs(old(self).items@).push(
                (id.0, ItemModel { kind_name: kind_name@, stack_size }),
            ));
        }
        true
    }

    /// Looks up a live item instance; `None` for an unknown or consumed id.
    pub fn get_item(&self, id: ItemId) -> (r: Option<&Item>)
        requires
            self.wf(),
        ensures
            match r {
                Some(item) => self@.items.contains_key(id.0) && item@ == self@.items[id.0],
                None => !self@.items.contains_key(id.0),
            },
    {
        match self.find_item_index(id) {
            Some(i) => Some(&self.items[i].1),
            None => None,
        }
    }
}

/// What `get_item_meta` returns, as a function of the store alone.
pub open spec fn spec_get_item_meta(s: ItemsModel, id: u64) -> Option<ItemMetaModel> {
    if !s.items.contains_key(id) {
        None
    } else {
        match find_type(s.types, s.items[id].kind_name) {
            None => None,
            Some(ty) => Some(
                ItemMetaModel {
                    kind_name: s.items[id].kind_name,
                    display_name: ty.display_name,
                    sprite_path: ty.sprite_path,
                    stack_size: s.items[id].stack_size,
                    max_stack_size: ty.max_stack_size,
                    tags: ty.tags,
                },
            ),
        }
    }
}

/// The id values inside a `merge_or_swap` result.
pub open spec fn opt_id(o: Option<ItemId>) -> Option<u64> {
    match o {
        None => None,
        Some(i) => Some(i.0),
    }
}

/// The id values inside a `merge_or_swap` result pair.
pub open spec fn opt_pair_ids(r: Option<(Option<ItemId>, Option<ItemId>)>) -> Option<
    (Option<u64>, Option<u64>),
> {
    match r {
        None => None,
        Some((a, b)) => Some((opt_id(a), opt_id(b))),
    }
}

/// Where `merge_or_swap` would sum two stack counts — two live items of one
/// registered, stackable type — the sum must fit the machine word that holds
/// a count; this is the one bound the function asks of its callers. Swaps
/// (different types, or a non-stackable type) do no arithmetic.
pub open spec fn merge_sum_fits(s: ItemsModel, from: u64, into: u64) -> bool {
    (s.items.contains_key(from) && s.items.contains_key(into)
        && s.items[from].kind_name == s.items[into].kind_name
        && (match find_type(s.types, s.items[from].kind_name) {
            Some(ty) => ty.max_stack_size != 1,
            None => false,
        })) ==> s.items[from].stack_size + s.items[into].stack_size <= u64::MAX
}

/// What `merge_or_swap` does to the store and returns, as a function of the
/// store alone: the new store paired with the result.
pub open spec fn spec_merge_or_swap(s: ItemsModel, from: u64, into: u64) -> (
    ItemsModel,
    Option<(Option<u64>, Option<u64>)>,
) {
    if !s.items.contains_key(from) || !s.items.contains_key(into) {
        (s, None)
    } else {
        let f = s.items[from];
        let t = s.items[into];
        if f.kind_name != t.kind_name {
            (s, Some((Some(into), Some(from))))
        } else {
            match find_type(s.types, f.kind_name) {
                None => (s, None),
                Some(ty) => {
                    if ty.max_stack_size == 1 {
                        (s, Some((Some(into), Some(from))))
                    } else {
                        let total = f.stack_size + t.stack_size;
                        let max = ty.max_stack_size as int;
                        if total > max {
                            (
                                ItemsModel {
                                    items: s.items.insert(
                                        into,
                                        ItemModel {
                                            kind_name: t.kind_name,
                                            stack_size: ty.max_stack_size,
                                        },
                                    ).insert(
                                        from,
                                        ItemModel {
                                            kind_name: f.kind_name,
                                            stack_size: (total - max) as u64,
                                        },
                                    ),
                                    ..s
                                },
                                Some((Some(from), Some(into))),
                            )
                        } else {
                            (
                                ItemsModel {
                                    items: s.items.insert(
                                        into,
                                        ItemModel {
                                            kind_name: t.kind_name,
                                            stack_size: total as u64,
                                        },
                                    ).remove(from),
                                    ..s
                                },
                                Some((None, Some(into))),
                            )
                        }
                    }
                }
            }
        }
    }
}

/// The stack quantity an id stands for; a destroyed id stands for 0.
pub open spec fn stack_size_of(items: Map<u64, ItemModel>, id: u64) -> int {
    if items.contains_key(id) {
        items[id].stack_size as int
    } else {
        0
    }
}

/// Merging two distinct same-type stacks of a registered type conserves the
/// total stack quantity, and neither resulting stack exceeds the type's
/// `max_stack_size`, provided neither input stack exceeded it.
pub proof fn lemma_merge_or_swap_conserves(s: ItemsModel, from: u64, into: u64)
    requires
        from != into,
        s.items.contains_key(from),
        s.items.contains_key(into),
        s.items[from].kind_name == s.items[into].kind_name,
        find_type(s.types, s.items[from].kind_name) is Some,
        s.items[from].stack_size <= find_type(
            s.types,
            s.items[from].kind_name,
        ).unwrap().max_stack_size,
        s.items[into].stack_size <= find_type(
            s.types,
            s.items[from].kind_name,
        ).unwrap().max_stack_size,
    ensures
        ({
            let (s2, r) = spec_merge_or_swap(s, from, into);
            let m = find_type(s.types, s.items[from].kind_name).unwrap().max_stack_size;
            &&& r is Some
            &&& stack_size_of(s2.items, from) + stack_size_of(s2.items, into)
                == s.items[from].stack_size + s.items[into].stack_size
            &&& stack_size_of(s2.items, from) <= m
            &&& stack_size_of(s2.items, into) <= m
        }),
{
}

/// Merging items of different types always swaps the two identities and
/// never changes either stack size.
pub proof fn lemma_merge_or_swap_different_kinds(s: ItemsModel, from: u64, into: u64)
    requires
        s.items.contains_key(from),
        s.items.contains_key(into),
        s.items[from].kind_name != s.items[into].kind_name,
    ensures
        ({
            let (s2, r) = spec_merge_or_swap(s, from, into);
            s2 == s && r == Some((Some(into), Some(from)))
        }),
{
}

/// Reading the metadata of the same id twice from the same unmodified store
/// gives identical results: the result is a function of the store alone.
pub proof fn lemma_get_item_meta_idempotent(
    s: ItemsModel,
    id: u64,
    first: Option<ItemMetaModel>,
    second: Option<ItemMetaModel>,
)
    requires
        first == spec_get_item_meta(s, id),
        second == spec_get_item_meta(s, id),
    ensures
        first == second,
{
}

impl Default for Items {
    fn default() -> (r: Items)
        ensures
            r.wf(),
            r@.types == Seq::<ItemTypeModel>::empty(),
            r@.items == Map::<u64, ItemModel>::empty(),
            r@.next_type_id == 0,
            r@.next_item_id == 0,
    {
        Items {
            item_type_ids: Default::default(),
            item_ids: Default::default(),
            item_types: Vec::new(),
            items: Vec::new(),
        }
    }
}

} // verus!
