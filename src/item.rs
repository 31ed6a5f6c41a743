use vstd::prelude::*;

verus! {

/// Stable identity of an item, assigned once for its lifetime.
#[derive(Clone, Copy, Debug, PartialEq, Eq, Hash, Structural)]
pub struct ItemId(pub u64);

/// Runtime tag of an item's concrete content type.
#[derive(Clone, Copy, Debug, PartialEq, Eq, Hash, Structural)]
pub struct ItemKind(pub u64);

/// A target that can hold the window's input focus.
#[derive(Clone, Copy, Debug, PartialEq, Eq, Hash, Structural)]
pub struct FocusHandle(pub u64);

/// Events an item emits to the pane that holds it.
#[derive(Clone, Copy, Debug, PartialEq, Eq, Hash, Structural)]
pub enum ItemEvent {
    /// The item's tab label is stale and must be rendered again.
    UpdateTab,
}

/// Type-erased handle to an item: its identity, the tag of its concrete
/// type and its focus target. Copies of a handle refer to the same item.
#[derive(Clone, Copy, Debug, PartialEq, Eq, Structural)]
pub struct ItemHandle {
    pub id: ItemId,
    pub kind: ItemKind,
    pub focus: FocusHandle,
}

/// What a tab's label is rendered from.
#[derive(Clone, Copy, Debug, PartialEq, Eq, Structural)]
pub struct TabContentParams {
    pub detail: Option<usize>,
    pub selected: bool,
    pub preview: bool,
}

impl ItemHandle {
    pub fn new(id: ItemId, kind: ItemKind, focus: FocusHandle) -> (r: ItemHandle)
        ensures
            r.id == id,
            r.kind == kind,
            r.focus == focus,
    {
        ItemHandle { id, kind, focus }
    }

    pub fn item_id(&self) -> (r: ItemId)
        ensures
            r == self.id,
    {
        self.id
    }

    pub fn focus_handle(&self) -> (r: FocusHandle)
        ensures
            r == self.focus,
    {
        self.focus
    }

    /// The handle narrowed to content type `kind`, if the item is of that type.
    pub open spec fn spec_downcast(self, kind: ItemKind) -> Option<ItemHandle> {
        if self.kind == kind {
            Some(self)
        } else {
            None
        }
    }

    pub fn downcast(&self, kind: ItemKind) -> (r: Option<ItemHandle>)
        ensures
            r == self.spec_downcast(kind),
    {
        if self.kind == kind {
            Some(*self)
        } else {
            None
        }
    }
}

/// `items[i]` is the first item of content type `kind`.
pub open spec fn first_of_kind(items: Seq<ItemHandle>, kind: ItemKind, i: int) -> bool {
    &&& 0 <= i < items.len()
    &&& items[i].kind == kind
    &&& forall|j: int| 0 <= j < i ==> items[j].kind != kind
}

/// The first of `items` that downcasts to content type `kind`.
pub fn find_of_kind(items: &Vec<ItemHandle>, kind: ItemKind) -> (r: Option<ItemHandle>)
    ensures
        match r {
            Some(h) => exists|i: int| first_of_kind(items@, kind, i) && items@[i] == h,
            None => forall|j: int| 0 <= j < items@.len() ==> items@[j].kind != kind,
        },
{
    let mut i: usize = 0;
    while i < items.len()
        invariant
            i <= items.len(),
            forall|j: int| 0 <= j < i ==> items@[j].kind != kind,
        decreases items.len() - i,
    {
        if let Some(h) = items[i].downcast(kind) {
            assert(first_of_kind(items@, kind, i as int));
            return Some(h);
        }
        i += 1;
    }
    None
}

/// Downcasting a handle built for content type `kind` to `kind` gives back a
/// handle with the same identity; downcasting it to any other type gives
/// nothing.
pub proof fn lemma_downcast_round_trip(id: ItemId, kind: ItemKind, other: ItemKind, focus: FocusHandle)
    requires
        other != kind,
    ensures
        (ItemHandle { id, kind, focus }).spec_downcast(kind) is Some,
        (ItemHandle { id, kind, focus }).spec_downcast(kind).unwrap().id == id,
        (ItemHandle { id, kind, focus }).spec_downcast(other) is None,
{
}

} // verus!
