use vstd::prelude::*;

use crate::item::ItemHandle;
use crate::pane::Pane;
use crate::pane_group::PaneId;

verus! {

/// An observer in the status bar: told about the active pane's active item.
pub trait StatusItemView {
    fn set_active_pane_item(&mut self, active_pane_item: Option<ItemHandle>);
}

/// Names a status-bar view.
#[derive(Clone, Copy, Debug, PartialEq, Eq, Hash, Structural)]
pub struct StatusItemId(pub u64);

/// A registered observer and the active item it was last told about.
#[derive(Clone, Copy, Debug, PartialEq, Eq, Structural)]
pub struct StatusItem {
    pub view: StatusItemId,
    pub active_pane_item: Option<ItemHandle>,
}

impl StatusItemView for StatusItem {
    fn set_active_pane_item(&mut self, active_pane_item: Option<ItemHandle>) {
        self.active_pane_item = active_pane_item;
    }
}

/// Every observer of `items` was last told `item`.
pub open spec fn all_told(items: Seq<StatusItem>, item: Option<ItemHandle>) -> bool {
    forall|i: int| 0 <= i < items.len() ==> items[i].active_pane_item == item
}

/// `items` with every observer told `item`, order and views kept.
pub open spec fn told(items: Seq<StatusItem>, item: Option<ItemHandle>) -> Seq<StatusItem> {
    items.map_values(|s: StatusItem| StatusItem { active_pane_item: item, ..s })
}

/// Tells each of `items` about `item`.
fn tell_all(items: &Vec<StatusItem>, item: Option<ItemHandle>) -> (r: Vec<StatusItem>)
    ensures
        r@ == told(items@, item),
{
    let mut out: Vec<StatusItem> = Vec::new();
    let mut i: usize = 0;
    while i < items.len()
        invariant
            i <= items.len(),
            out@ == told(items@.subrange(0, i as int), item),
        decreases items.len() - i,
    {
        let mut s = items[i];
        s.active_pane_item = item;
        out.push(s);
        assert(told(items@.subrange(0, i + 1), item) =~= told(items@.subrange(0, i as int), item).push(s));
        i += 1;
    }
    assert(items@.subrange(0, items@.len() as int) =~= items@);
    out
}

/// Observers laid out on the left and on the right of the status bar, kept
/// informed of the active pane's active item.
pub struct StatusBar {
    pub left_items: Vec<StatusItem>,
    pub right_items: Vec<StatusItem>,
    pub active_pane: PaneId,
}

impl StatusBar {
    pub fn new(active_pane: PaneId) -> (r: StatusBar)
        ensures
            r.left_items@.len() == 0,
            r.right_items@.len() == 0,
            r.active_pane == active_pane,
    {
        StatusBar { left_items: Vec::new(), right_items: Vec::new(), active_pane }
    }

    /// Adds `view` on the left; it is told the active item of `active_pane`
    /// right away, so a late observer is never stale.
    pub fn add_left_item(&mut self, view: StatusItemId, active_pane: &Pane)
        ensures
            final(self).left_items@ == old(self).left_items@.push(
                StatusItem { view, active_pane_item: active_pane@.active_item() },
            ),
            final(self).right_items@ == old(self).right_items@,
            final(self).active_pane == old(self).active_pane,
    {
        let active_pane_item = active_pane.active_item();
        self.left_items.push(StatusItem { view, active_pane_item });
    }

    /// Adds `view` on the right; it is told the active item of `active_pane`
    /// right away.
    pub fn add_right_item(&mut self, view: StatusItemId, active_pane: &Pane)
        ensures
            final(self).right_items@ == old(self).right_items@.push(
                StatusItem { view, active_pane_item: active_pane@.active_item() },
            ),
            final(self).left_items@ == old(self).left_items@,
            final(self).active_pane == old(self).active_pane,
    {
        let active_pane_item = active_pane.active_item();
        self.right_items.push(StatusItem { view, active_pane_item });
    }

    /// Tells every observer that the active pane is now `pane`, with active
    /// item `item`.
    pub fn set_active_pane_item(&mut self, pane: PaneId, item: Option<ItemHandle>)
        ensures
            final(self).left_items@ == told(old(self).left_items@, item),
            final(self).right_items@ == told(old(self).right_items@, item),
            final(self).active_pane == pane,
    {
        self.left_items = tell_all(&self.left_items, item);
        self.right_items = tell_all(&self.right_items, item);
        self.active_pane = pane;
    }

    /// The right-hand observers in the order they are laid out: the first
    /// added ends up rightmost.
    pub fn right_items_in_layout_order(&self) -> (r: Vec<StatusItem>)
        ensures
            r@ == self.right_items@.reverse(),
    {
        let mut out: Vec<StatusItem> = Vec::new();
        let mut i: usize = self.right_items.len();
        while i > 0
            invariant
                i <= self.right_items.len(),
                out@ == self.right_items@.subrange(i as int, self.right_items@.len() as int).reverse(),
            decreases i,
        {
            i -= 1;
            out.push(self.right_items[i]);
            assert(self.right_items@.subrange(i as int, self.right_items@.len() as int).reverse()
                =~= self.right_items@.subrange(i + 1, self.right_items@.len() as int).reverse().push(
                self.right_items@[i as int],
            ));
        }
        assert(self.right_items@.subrange(0, self.right_items@.len() as int) =~= self.right_items@);
        out
    }
}

} // verus!
