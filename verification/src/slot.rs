//! Slot: presentation-facing binding of one position to an optional item and
//! an optional required tag constraint. The slot is the unit a gesture acts
//! upon; the stack count lives on the item, not on the slot.

use vstd::prelude::*;
use crate::inventory::Index;
use crate::item::{ItemId, Tag};

verus! {

/// Does a tag list contain this tag (exact string match)?
pub open spec fn tags_contain(tags: Seq<Seq<char>>, tag: Seq<char>) -> bool {
    exists|i: int| 0 <= i < tags.len() && tags[i] == tag
}

/// Is an item carrying these tags accepted under this constraint?
pub open spec fn spec_matching_tag(required: Option<Seq<char>>, tags: Seq<Seq<char>>) -> bool {
    match required {
        None => true,
        Some(t) => tags_contain(tags, t),
    }
}

/// A slot holds at most one item identifier and may constrain which items it
/// accepts by a required tag.
#[derive(Debug)]
pub struct Slot {
    pub item: Option<ItemId>,
    pub required_tag: Option<Tag>,
}

/// Mathematical image of a slot.
pub ghost struct SlotModel {
    pub item: Option<ItemId>,
    pub required_tag: Option<Seq<char>>,
}

impl View for Slot {
    type V = SlotModel;

    open spec fn view(&self) -> SlotModel {
        SlotModel {
            item: self.item,
            required_tag: match self.required_tag {
                None => None,
                Some(t) => Some(t@),
            },
        }
    }
}

impl Default for Slot {
    fn default() -> (r: Slot)
        ensures
            r@ == (SlotModel { item: None, required_tag: None }),
    {
        Slot { item: None, required_tag: None }
    }
}

impl Slot {
    /// A slot holding nothing, accepting anything.
    pub fn empty() -> (r: Slot)
        ensures
            r@ == (SlotModel { item: None, required_tag: None }),
    {
        Slot::default()
    }

    /// A slot holding the given item, accepting anything.
    pub fn with_item(item: ItemId) -> (r: Slot)
        ensures
            r@ == (SlotModel { item: Some(item), required_tag: None }),
    {
        Slot { item: Some(item), required_tag: None }
    }

    /// An empty slot that only accepts items carrying the given tag.
    pub fn with_required_tag(tag: Tag) -> (r: Slot)
        ensures
            r@ == (SlotModel { item: None, required_tag: Some(tag@) }),
    {
        Slot { item: None, required_tag: Some(tag) }
    }

    /// Does this slot accept an item carrying these tags? True when the slot
    /// requires no tag, or when its required tag is in the list.
    pub fn matching_tag(&self, tags: &[Tag]) -> (r: bool)
        ensures
            r == spec_matching_tag(self@.required_tag, tags@.map_values(|t: Tag| t@)),
    {
        match &self.required_tag {
            None => true,
            Some(tag) => {
                let ghost tag_views = tags@.map_values(|t: Tag| t@);
                let mut i: usize = 0;
                while i < tags.len()
                    invariant
                        i <= tags@.len(),
                        tag_views == tags@.map_values(|t: Tag| t@),
                        self@.required_tag == Some(tag@),
                        forall|j: int| 0 <= j < i ==> tag_views[j] != tag@,
                    decreases tags@.len() - i,
                {
                    if tags[i].0 == tag.0 {
                        assert(tag_views[i as int] == tag@);
                        return true;
                    }
                    i = i + 1;
                }
                false
            },
        }
    }
}

/// Binds a slot to a position in a named inventory collection; this indirect
/// key is the only persistent identity a slot's content maps to.
#[derive(Debug)]
pub struct InventoryHandle {
    pub collection: String,
    pub index: Index,
}

impl View for InventoryHandle {
    type V = (Seq<char>, Index);

    open spec fn view(&self) -> (Seq<char>, Index) {
        (self.collection@, self.index)
    }
}

impl Clone for InventoryHandle {
    fn clone(&self) -> (r: InventoryHandle)
        ensures
            r == *self,
    {
        InventoryHandle { collection: self.collection.clone(), index: self.index }
    }
}

} // verus!
