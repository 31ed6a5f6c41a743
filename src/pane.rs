use vstd::prelude::*;

use crate::item::{FocusHandle, ItemHandle, ItemId, TabContentParams};

verus! {

/// Window-wide state that every pane of a workspace shares: the focus target
/// that holds input focus, and the counter that timestamps activations.
#[derive(Clone, Copy, Debug, PartialEq, Eq, Structural)]
pub struct WindowContext {
    pub focused: Option<FocusHandle>,
    pub next_activation_timestamp: u64,
}

/// The timestamp that follows `t`; the counter wraps like an atomic add.
pub open spec fn next_tick(t: u64) -> u64 {
    if t == u64::MAX {
        0
    } else {
        (t + 1) as u64
    }
}

impl WindowContext {
    pub fn new() -> (r: WindowContext)
        ensures
            r.focused is None,
            r.next_activation_timestamp == 0,
    {
        WindowContext { focused: None, next_activation_timestamp: 0 }
    }

    /// Moves input focus to `handle`.
    pub fn focus(&mut self, handle: FocusHandle)
        ensures
            *final(self) == (WindowContext { focused: Some(handle), ..*old(self) }),
    {
        self.focused = Some(handle);
    }

    /// Hands out the current timestamp and advances the counter.
    pub fn next_timestamp(&mut self) -> (r: u64)
        ensures
            r == old(self).next_activation_timestamp,
            *final(self) == (WindowContext {
                next_activation_timestamp: next_tick(old(self).next_activation_timestamp),
                ..*old(self)
            }),
    {
        let t = self.next_activation_timestamp;
        self.next_activation_timestamp = if t == u64::MAX {
            0
        } else {
            t + 1
        };
        t
    }
}

/// An action that activates the tab at the given index.
#[derive(Clone, Copy, Debug, PartialEq, Eq, Structural)]
pub struct ActivateItem(pub usize);

/// One record of the activation history: which item, and when.
#[derive(Clone, Copy, Debug, PartialEq, Eq, Structural)]
pub struct ActivationHistoryEntry {
    pub entity_id: ItemId,
    pub timestamp: u64,
}

/// Where a tab stands in the tab bar.
#[derive(Clone, Copy, Debug, PartialEq, Eq)]
pub enum TabPosition {
    First,
    Middle(core::cmp::Ordering),
    Last,
}

/// A pane's contents as the contracts speak of them.
pub struct PaneState {
    pub focus_handle: FocusHandle,
    pub items: Seq<ItemHandle>,
    pub preview_item_id: Option<ItemId>,
    pub active_item_index: int,
    pub activation_history: Seq<ActivationHistoryEntry>,
}

pub open spec fn contains_id(items: Seq<ItemHandle>, id: ItemId) -> bool {
    exists|i: int| 0 <= i < items.len() && items[i].id == id
}

pub open spec fn ids_distinct(items: Seq<ItemHandle>) -> bool {
    forall|i: int, j: int| 0 <= i < j < items.len() ==> items[i].id != items[j].id
}

pub open spec fn history_distinct(h: Seq<ActivationHistoryEntry>) -> bool {
    forall|i: int, j: int| 0 <= i < j < h.len() ==> h[i].entity_id != h[j].entity_id
}

/// The index of the item with identity `id`; meaningful where one exists.
pub open spec fn index_of_id(items: Seq<ItemHandle>, id: ItemId) -> int {
    choose|i: int| 0 <= i < items.len() && items[i].id == id
}

/// The history with the entry for `id` taken out.
pub open spec fn without_id(h: Seq<ActivationHistoryEntry>, id: ItemId) -> Seq<ActivationHistoryEntry>
    decreases h.len(),
{
    if h.len() == 0 {
        h
    } else {
        let rest = without_id(h.drop_last(), id);
        if h.last().entity_id == id {
            rest
        } else {
            rest.push(h.last())
        }
    }
}

/// The history with entries popped off its end until the last one names an
/// item of `items`, or until it is empty.
pub open spec fn prune_stale(h: Seq<ActivationHistoryEntry>, items: Seq<ItemHandle>) -> Seq<
    ActivationHistoryEntry,
>
    decreases h.len(),
{
    if h.len() == 0 {
        h
    } else if contains_id(items, h.last().entity_id) {
        h
    } else {
        prune_stale(h.drop_last(), items)
    }
}

impl PaneState {
    /// No two items and no two history entries share an identity, and the
    /// active index points at an item (or is zero when there is none).
    pub open spec fn wf(self) -> bool {
        &&& ids_distinct(self.items)
        &&& history_distinct(self.activation_history)
        &&& (self.items.len() > 0 ==> 0 <= self.active_item_index < self.items.len())
        &&& (self.items.len() == 0 ==> self.active_item_index == 0)
    }

    pub open spec fn active_item(self) -> Option<ItemHandle> {
        if 0 <= self.active_item_index < self.items.len() {
            Some(self.items[self.active_item_index])
        } else {
            None
        }
    }

    /// The pane's own focus target holds focus, or its active item's does.
    pub open spec fn has_focus(self, focused: Option<FocusHandle>) -> bool {
        focused == Some(self.focus_handle) || (self.active_item() is Some && focused == Some(
            self.active_item().unwrap().focus,
        ))
    }

    /// State after activating the item at `index`.
    pub open spec fn after_activate(self, cx: WindowContext, index: int, focus_item: bool) -> (
        PaneState,
        WindowContext,
    ) {
        let item = self.items[index];
        (
            PaneState {
                active_item_index: index,
                activation_history: without_id(self.activation_history, item.id).push(
                    ActivationHistoryEntry {
                        entity_id: item.id,
                        timestamp: cx.next_activation_timestamp,
                    },
                ),
                ..self
            },
            WindowContext {
                focused: if focus_item {
                    Some(item.focus)
                } else {
                    cx.focused
                },
                next_activation_timestamp: next_tick(cx.next_activation_timestamp),
            },
        )
    }

    /// Where `add_item` inserts: the destination, or right after the active
    /// item, at most at the end.
    pub open spec fn insertion_index(self, destination_index: Option<usize>) -> int {
        let wanted = match destination_index {
            Some(d) => d as int,
            None => self.active_item_index + 1,
        };
        if wanted < self.items.len() {
            wanted
        } else {
            self.items.len() as int
        }
    }

    /// The history entries that survive the removal of the item at `index`:
    /// its own entry is dropped, then stale entries are popped off the end
    /// until the last one names an item still held.
    pub open spec fn pruned_history(self, index: int) -> Seq<ActivationHistoryEntry> {
        prune_stale(without_id(self.activation_history, self.items[index].id), self.items)
    }

    /// The item (an index into the items before the removal) that becomes
    /// active when `remove_item` removes the active item at `index` from a
    /// pane of two or more items: the most recently activated item still
    /// held, else the left neighbour (the right one when `index` is 0).
    pub open spec fn reselection_target(self, index: int) -> int {
        let pruned = self.pruned_history(index);
        if pruned.len() > 0 {
            index_of_id(self.items, pruned.last().entity_id)
        } else if index > 0 {
            index - 1
        } else {
            1
        }
    }

    /// State after removing the item at `index`. When it was the active item
    /// of a pane that still holds others, the reselection target is activated
    /// among the remaining items (focused when the pane is being activated or
    /// holds focus); when it was the only item, the pane itself takes focus
    /// in that case.
    pub open spec fn after_remove(self, cx: WindowContext, index: int, activate_pane: bool) -> (
        PaneState,
        WindowContext,
    ) {
        let items = self.items.remove(index);
        if index == self.active_item_index {
            let pruned = self.pruned_history(index);
            let popped = if pruned.len() > 0 {
                pruned.drop_last()
            } else {
                pruned
            };
            let should_activate = activate_pane || self.has_focus(cx.focused);
            let base = PaneState {
                items,
                activation_history: popped,
                active_item_index: 0,
                ..self
            };
            if self.items.len() == 1 {
                (
                    base,
                    if should_activate {
                        WindowContext { focused: Some(self.focus_handle), ..cx }
                    } else {
                        cx
                    },
                )
            } else {
                let target = self.reselection_target(index);
                let new_index = if target < index {
                    target
                } else {
                    target - 1
                };
                base.after_activate(cx, new_index, should_activate)
            }
        } else {
            (
                PaneState {
                    items,
                    activation_history: without_id(self.activation_history, self.items[index].id),
                    active_item_index: if index < self.active_item_index {
                        self.active_item_index - 1
                    } else {
                        self.active_item_index
                    },
                    ..self
                },
                cx,
            )
        }
    }

    /// State after removing, one after another, the items with the first `n`
    /// identities of `ids`, each looked up again by identity first; an
    /// identity the pane no longer holds is skipped.
    pub open spec fn after_remove_ids(self, cx: WindowContext, ids: Seq<ItemId>, n: int) -> (
        PaneState,
        WindowContext,
    )
        decreases n,
    {
        if n <= 0 || n > ids.len() {
            (self, cx)
        } else {
            let (s, c) = self.after_remove_ids(cx, ids, n - 1);
            if contains_id(s.items, ids[n - 1]) {
                s.after_remove(c, index_of_id(s.items, ids[n - 1]), false)
            } else {
                (s, c)
            }
        }
    }

    /// State after adding `item` to a pane that does not hold it yet.
    pub open spec fn after_add(
        self,
        cx: WindowContext,
        item: ItemHandle,
        focus_item: bool,
        destination_index: Option<usize>,
    ) -> (PaneState, WindowContext) {
        let ix = self.insertion_index(destination_index);
        PaneState { items: self.items.insert(ix, item), ..self }.after_activate(cx, ix, focus_item)
    }
}

/// In every well-formed pane state, which is every state that `Pane`'s
/// operations reach: the active index points at an item whenever there is
/// one, and the activation history never names one identity twice.
pub proof fn lemma_pane_invariants(state: PaneState)
    requires
        state.wf(),
    ensures
        state.items.len() > 0 ==> 0 <= state.active_item_index < state.items.len(),
        forall|i: int, j: int|
            0 <= i < j < state.activation_history.len() ==> state.activation_history[i].entity_id
                != state.activation_history[j].entity_id,
{
}

/// A tab container: its items in tab order, which one is active, and the
/// order in which they were last activated.
pub struct Pane {
    focus_handle: FocusHandle,
    items: Vec<ItemHandle>,
    preview_item_id: Option<ItemId>,
    active_item_index: usize,
    activation_history: Vec<ActivationHistoryEntry>,
}

impl View for Pane {
    type V = PaneState;

    closed spec fn view(&self) -> PaneState {
        PaneState {
            focus_handle: self.focus_handle,
            items: self.items@,
            preview_item_id: self.preview_item_id,
            active_item_index: self.active_item_index as int,
            activation_history: self.activation_history@,
        }
    }
}

proof fn lemma_without_id(h: Seq<ActivationHistoryEntry>, id: ItemId)
    ensures
        without_id(h, id).len() <= h.len(),
        forall|k: int|
            0 <= k < without_id(h, id).len() ==> (#[trigger] without_id(h, id)[k]).entity_id
                != id,
        forall|k: int|
            0 <= k < without_id(h, id).len() ==> h.contains(#[trigger] without_id(h, id)[k]),
        history_distinct(h) ==> history_distinct(without_id(h, id)),
    decreases h.len(),
{
    if h.len() > 0 {
        lemma_without_id(h.drop_last(), id);
        let rest = without_id(h.drop_last(), id);
        assert forall|k: int| 0 <= k < rest.len() implies h.contains(#[trigger] rest[k]) by {
            assert(h.drop_last().contains(rest[k]));
            let m = choose|m: int| 0 <= m < h.drop_last().len() && h.drop_last()[m] == rest[k];
            assert(h[m] == rest[k]);
        }
        if h.last().entity_id != id {
            let r = rest.push(h.last());
            assert(h[h.len() - 1] == h.last());
            if history_distinct(h) {
                assert forall|k: int| 0 <= k < rest.len() implies (#[trigger] rest[k]).entity_id
                    != h.last().entity_id by {
                    let m = choose|m: int| 0 <= m < h.drop_last().len() && h.drop_last()[m] == rest[k];
                    assert(h[m] == rest[k]);
                }
            }
        }
    }
}

/// `h` with the entry for `id` taken out, order kept.
fn without_entry(h: &Vec<ActivationHistoryEntry>, id: ItemId) -> (r: Vec<ActivationHistoryEntry>)
    ensures
        r@ == without_id(h@, id),
{
    let mut kept: Vec<ActivationHistoryEntry> = Vec::new();
    let mut i: usize = 0;
    while i < h.len()
        invariant
            i <= h.len(),
            kept@ == without_id(h@.subrange(0, i as int), id),
        decreases h.len() - i,
    {
        let e = h[i];
        assert(h@.subrange(0, i + 1).drop_last() =~= h@.subrange(0, i as int));
        if e.entity_id != id {
            kept.push(e);
        }
        i += 1;
    }
    assert(h@.subrange(0, h.len() as int) =~= h@);
    kept
}

/// The index of the item whose identity is `id`, if any.
fn index_for_id(items: &Vec<ItemHandle>, id: ItemId) -> (r: Option<usize>)
    ensures
        match r {
            Some(i) => i < items@.len() && items@[i as int].id == id && forall|j: int|
                0 <= j < i ==> items@[j].id != id,
            None => !contains_id(items@, id),
        },
{
    let mut i: usize = 0;
    while i < items.len()
        invariant
            i <= items.len(),
            forall|j: int| 0 <= j < i ==> items@[j].id != id,
        decreases items.len() - i,
    {
        if items[i].id == id {
            return Some(i);
        }
        i += 1;
    }
    None
}

proof fn lemma_index_of_id(items: Seq<ItemHandle>, i: int)
    requires
        ids_distinct(items),
        0 <= i < items.len(),
    ensures
        index_of_id(items, items[i].id) == i,
{
    let c = index_of_id(items, items[i].id);
    assert(0 <= c < items.len() && items[c].id == items[i].id);
}

proof fn lemma_prune_stale(h: Seq<ActivationHistoryEntry>, items: Seq<ItemHandle>)
    ensures
        prune_stale(h, items).len() <= h.len(),
        prune_stale(h, items) =~= h.subrange(0, prune_stale(h, items).len() as int),
        prune_stale(h, items).len() > 0 ==> contains_id(
            items,
            prune_stale(h, items).last().entity_id,
        ),
    decreases h.len(),
{
    if h.len() > 0 && !contains_id(items, h.last().entity_id) {
        lemma_prune_stale(h.drop_last(), items);
    }
}

/// Pops history entries until the last popped one names an item of `items`;
/// returns that item's index.
fn pop_to_present(history: &mut Vec<ActivationHistoryEntry>, items: &Vec<ItemHandle>) -> (r: Option<
    usize,
>)
    requires
        ids_distinct(items@),
    ensures
        ({
            let pruned = prune_stale(old(history)@, items@);
            &&& pruned.len() > 0 ==> final(history)@ == pruned.drop_last() && r == Some(
                index_of_id(items@, pruned.last().entity_id) as usize,
            )
            &&& pruned.len() == 0 ==> final(history)@ == pruned && r is None
        }),
{
    loop
        invariant
            ids_distinct(items@),
            prune_stale(history@, items@) == prune_stale(old(history)@, items@),
        decreases history@.len(),
    {
        let ghost before = history@;
        match history.pop() {
            None => {
                return None;
            },
            Some(entry) => {
                assert(before.drop_last() =~= history@);
                match index_for_id(items, entry.entity_id) {
                    Some(ix) => {
                        proof {
                            lemma_index_of_id(items@, ix as int);
                        }
                        return Some(ix);
                    },
                    None => {},
                }
            },
        }
    }
}

/// The items of `items` whose identity is not among `closed`, order kept.
pub open spec fn kept_items(items: Seq<ItemHandle>, closed: Seq<ItemId>) -> Seq<ItemHandle> {
    items.filter(|h: ItemHandle| !closed.contains(h.id))
}

proof fn lemma_filter_agree(s: Seq<ItemHandle>, p: spec_fn(ItemHandle) -> bool, q: spec_fn(ItemHandle) -> bool)
    requires
        forall|i: int| 0 <= i < s.len() ==> p(s[i]) == q(s[i]),
    ensures
        s.filter(p) == s.filter(q),
    decreases s.len(),
{
    reveal(Seq::filter);
    if s.len() > 0 {
        lemma_filter_agree(s.drop_last(), p, q);
        assert(p(s[s.len() - 1]) == q(s[s.len() - 1]));
    }
}

proof fn lemma_filter_all(s: Seq<ItemHandle>, p: spec_fn(ItemHandle) -> bool)
    requires
        forall|i: int| 0 <= i < s.len() ==> p(s[i]),
    ensures
        s.filter(p) == s,
    decreases s.len(),
{
    reveal(Seq::filter);
    if s.len() > 0 {
        lemma_filter_all(s.drop_last(), p);
        assert(p(s[s.len() - 1]));
        assert(s.drop_last().push(s.last()) =~= s);
    }
}

proof fn lemma_filter_compose(s: Seq<ItemHandle>, p: spec_fn(ItemHandle) -> bool, q: spec_fn(ItemHandle) -> bool)
    ensures
        s.filter(p).filter(q) == s.filter(|e: ItemHandle| p(e) && q(e)),
    decreases s.len(),
{
    reveal(Seq::filter);
    if s.len() > 0 {
        lemma_filter_compose(s.drop_last(), p, q);
        let pq = |e: ItemHandle| p(e) && q(e);
        if p(s.last()) {
            assert(s.filter(p) == s.drop_last().filter(p).push(s.last()));
            assert(s.filter(p).drop_last() =~= s.drop_last().filter(p));
        }
    }
}

proof fn lemma_filter_remove(c: Seq<ItemHandle>, ix: int)
    requires
        ids_distinct(c),
        0 <= ix < c.len(),
    ensures
        c.filter(|h: ItemHandle| h.id != c[ix].id) == c.remove(ix),
{
    let x = c[ix].id;
    let p = |h: ItemHandle| h.id != x;
    let a = c.subrange(0, ix);
    let m = seq![c[ix]];
    let b = c.subrange(ix + 1, c.len() as int);
    assert(c =~= a + m + b);
    Seq::filter_distributes_over_add(a + m, b, p);
    Seq::filter_distributes_over_add(a, m, p);
    lemma_filter_all(a, p);
    lemma_filter_all(b, p);
    reveal(Seq::filter);
    assert(m.drop_last() =~= Seq::<ItemHandle>::empty());
    assert(Seq::<ItemHandle>::empty().filter(p) =~= Seq::<ItemHandle>::empty());
    assert(m.last() == c[ix] && !p(c[ix]));
    assert(m.filter(p) =~= Seq::<ItemHandle>::empty());
    assert(c.remove(ix) =~= a + b);
}

/// Pushing `x` adds exactly `x` to what a sequence of identities contains.
proof fn lemma_push_contains(closed: Seq<ItemId>, x: ItemId, y: ItemId)
    ensures
        closed.push(x).contains(y) <==> (closed.contains(y) || y == x),
{
    if closed.contains(y) {
        let k = choose|k: int| 0 <= k < closed.len() && closed[k] == y;
        assert(closed.push(x)[k] == y);
    }
    if y == x {
        assert(closed.push(x)[closed.len() as int] == y);
    }
    if closed.push(x).contains(y) && y != x {
        let k = choose|k: int| 0 <= k < closed.len() + 1 && closed.push(x)[k] == y;
        assert(closed[k] == y);
    }
}

impl Pane {
    /// An empty pane with its own focus target.
    pub fn new(focus_handle: FocusHandle) -> (r: Pane)
        ensures
            r@ == (PaneState {
                focus_handle,
                items: Seq::empty(),
                preview_item_id: None,
                active_item_index: 0,
                activation_history: Seq::empty(),
            }),
            r@.wf(),
    {
        Pane {
            focus_handle,
            items: Vec::new(),
            preview_item_id: None,
            active_item_index: 0,
            activation_history: Vec::new(),
        }
    }

    pub fn focus_handle(&self) -> (r: FocusHandle)
        ensures
            r == self@.focus_handle,
    {
        self.focus_handle
    }

    pub fn active_item(&self) -> (r: Option<ItemHandle>)
        ensures
            r == self@.active_item(),
    {
        if self.active_item_index < self.items.len() {
            Some(self.items[self.active_item_index])
        } else {
            None
        }
    }

    pub fn items(&self) -> (r: &Vec<ItemHandle>)
        ensures
            r@ == self@.items,
    {
        &self.items
    }

    pub fn active_item_index(&self) -> (r: usize)
        ensures
            r == self@.active_item_index,
    {
        self.active_item_index
    }

    pub fn activation_history(&self) -> (r: &Vec<ActivationHistoryEntry>)
        ensures
            r@ == self@.activation_history,
    {
        &self.activation_history
    }

    pub fn preview_item_id(&self) -> (r: Option<ItemId>)
        ensures
            r == self@.preview_item_id,
    {
        self.preview_item_id
    }

    /// The index of the item with the same identity as `item`, if the pane
    /// holds one.
    pub fn index_for_item(&self, item: &ItemHandle) -> (r: Option<usize>)
        requires
            self@.wf(),
        ensures
            match r {
                Some(i) => i < self@.items.len() && self@.items[i as int].id == item.id && i
                    == index_of_id(self@.items, item.id),
                None => !contains_id(self@.items, item.id),
            },
    {
        let r = index_for_id(&self.items, item.id);
        if let Some(i) = r {
            proof {
                lemma_index_of_id(self@.items, i as int);
            }
        }
        r
    }

    /// Moves input focus to the pane's own focus target.
    pub fn focus(&self, cx: &mut WindowContext)
        ensures
            *final(cx) == (WindowContext { focused: Some(self@.focus_handle), ..*old(cx) }),
    {
        cx.focus(self.focus_handle);
    }

    /// Moves input focus to the active item, if there is one.
    pub fn focus_active_item(&self, cx: &mut WindowContext)
        ensures
            match self@.active_item() {
                Some(item) => *final(cx) == (WindowContext { focused: Some(item.focus), ..*old(cx) }),
                None => *final(cx) == *old(cx),
            },
    {
        if let Some(active_item) = self.active_item() {
            cx.focus(active_item.focus);
        }
    }

    /// Whether the pane holds focus: its own focus target does, or its
    /// active item's does (an item just activated may not be wired into the
    /// pane's focus tree yet).
    pub fn has_focus(&self, cx: &WindowContext) -> (r: bool)
        ensures
            r == self@.has_focus(cx.focused),
    {
        let own = match cx.focused {
            Some(f) => f == self.focus_handle,
            None => false,
        };
        if own {
            return true;
        }
        match (self.active_item(), cx.focused) {
            (Some(item), Some(f)) => item.focus == f,
            _ => false,
        }
    }

    /// Makes the item at `index` the active one and records the activation;
    /// does nothing when `index` is out of range. Whether the pane itself
    /// becomes the workspace's active pane is the workspace's concern.
    pub fn activate_item(
        &mut self,
        index: usize,
        activate_pane: bool,
        focus_item: bool,
        cx: &mut WindowContext,
    )
        requires
            old(self)@.wf(),
        ensures
            final(self)@.wf(),
            index < old(self)@.items.len() ==> (final(self)@, *final(cx)) == old(
                self,
            )@.after_activate(*old(cx), index as int, focus_item),
            index >= old(self)@.items.len() ==> final(self)@ == old(self)@ && *final(cx) == *old(
                cx,
            ),
    {
        if index < self.items.len() {
            self.active_item_index = index;
            if focus_item {
                self.focus_active_item(cx);
            }
            let id = self.items[index].id;
            proof {
                lemma_without_id(self.activation_history@, id);
            }
            self.activation_history = without_entry(&self.activation_history, id);
            let timestamp = cx.next_timestamp();
            self.activation_history.push(ActivationHistoryEntry { entity_id: id, timestamp });
            proof {
                let h = self.activation_history@;
                assert forall|i: int, j: int| 0 <= i < j < h.len() implies h[i].entity_id
                    != h[j].entity_id by {
                    if j == h.len() - 1 {
                        assert(h[i] == h.drop_last()[i]);
                    }
                }
            }
        }
    }

    /// Inserts `item` after the active item (or at `destination_index`,
    /// clamped to the end) and activates it. A pane never holds two items
    /// with one identity: adding one it already holds does nothing.
    pub fn add_item(
        &mut self,
        item: ItemHandle,
        activate_pane: bool,
        focus_item: bool,
        destination_index: Option<usize>,
        cx: &mut WindowContext,
    )
        requires
            old(self)@.wf(),
        ensures
            final(self)@.wf(),
            contains_id(old(self)@.items, item.id) ==> final(self)@ == old(self)@ && *final(cx)
                == *old(cx),
            !contains_id(old(self)@.items, item.id) ==> (final(self)@, *final(cx)) == old(
                self,
            )@.after_add(*old(cx), item, focus_item, destination_index),
    {
        if index_for_id(&self.items, item.id).is_some() {
            return;
        }
        let len = self.items.len();
        let wanted = match destination_index {
            Some(d) => d,
            None => if self.active_item_index < len {
                self.active_item_index + 1
            } else {
                len
            },
        };
        let insertion_index = if wanted < len {
            wanted
        } else {
            len
        };
        let ghost before = self@;
        self.items.insert(insertion_index, item);
        proof {
            let items = self.items@;
            assert forall|i: int, j: int| 0 <= i < j < items.len() implies items[i].id
                != items[j].id by {
                if i == insertion_index {
                    assert(items[j] == before.items[j - 1]);
                } else if j == insertion_index {
                    assert(items[i] == before.items[i]);
                } else if i < insertion_index {
                    if j < insertion_index {
                        assert(items[j] == before.items[j]);
                    } else {
                        assert(items[j] == before.items[j - 1]);
                    }
                    assert(items[i] == before.items[i]);
                } else {
                    assert(items[i] == before.items[i - 1]);
                    assert(items[j] == before.items[j - 1]);
                }
            }
            assert(self@ == PaneState { items: before.items.insert(insertion_index as int, item), ..before });
        }
        self.activate_item(insertion_index, activate_pane, focus_item, cx);
    }

    /// Removes the item at `index`; does nothing when `index` is out of range.
    /// Its history entry is dropped and never comes back. When it was the
    /// active item, the most recently activated item still held becomes
    /// active (stale entries are popped on the way), else its left neighbour.
    /// A pane left empty stays alive: taking it out of its group is the
    /// caller's decision.
    #[verifier::rlimit(40)]
    pub fn remove_item(
        &mut self,
        index: usize,
        activate_pane: bool,
        close_pane_if_empty: bool,
        cx: &mut WindowContext,
    )
        requires
            old(self)@.wf(),
        ensures
            final(self)@.wf(),
            index < old(self)@.items.len() ==> (final(self)@, *final(cx)) == old(
                self,
            )@.after_remove(*old(cx), index as int, activate_pane),
            index < old(self)@.items.len() ==> final(self)@.items == old(self)@.items.remove(
                index as int,
            ),
            index < old(self)@.items.len() ==> forall|k: int|
                0 <= k < final(self)@.activation_history.len() ==> (
                #[trigger] final(self)@.activation_history[k]).entity_id != old(
                    self,
                )@.items[index as int].id,
            index < old(self)@.items.len() && index == old(self)@.active_item_index && old(
                self,
            )@.items.len() > 1 ==> final(self)@.active_item() == Some(
                old(self)@.items[old(self)@.reselection_target(index as int)],
            ),
            index >= old(self)@.items.len() ==> final(self)@ == old(self)@ && *final(cx) == *old(
                cx,
            ),
    {
        if index >= self.items.len() {
            return;
        }
        let ghost before = self@;
        let removed = self.items[index].id;
        proof {
            lemma_without_id(self.activation_history@, removed);
        }
        self.activation_history = without_entry(&self.activation_history, removed);
        if index == self.active_item_index {
            let ghost w = self.activation_history@;
            proof {
                lemma_prune_stale(w, self.items@);
            }
            let should_activate = activate_pane || self.has_focus(cx);
            let found = pop_to_present(&mut self.activation_history, &self.items);
            let ghost pruned = prune_stale(w, before.items);
            proof {
                let h = self.activation_history@;
                assert forall|i: int, j: int| 0 <= i < j < h.len() implies h[i].entity_id
                    != h[j].entity_id by {
                    assert(h[i] == w[i] && h[j] == w[j]);
                }
                assert forall|k: int| 0 <= k < h.len() implies (#[trigger] h[k]).entity_id
                    != removed by {
                    assert(h[k] == w[k]);
                }
                if pruned.len() > 0 {
                    assert(pruned.last() == w[pruned.len() - 1]);
                }
            }
            let len = self.items.len();
            self.items.remove(index);
            self.active_item_index = 0;
            proof {
                let items = self.items@;
                assert forall|i: int, j: int| 0 <= i < j < items.len() implies items[i].id
                    != items[j].id by {
                    if j < index {
                        assert(items[i] == before.items[i] && items[j] == before.items[j]);
                    } else if i < index {
                        assert(items[i] == before.items[i] && items[j] == before.items[j + 1]);
                    } else {
                        assert(items[i] == before.items[i + 1] && items[j] == before.items[j + 1]);
                    }
                }
            }
            if len == 1 {
                if should_activate {
                    cx.focus(self.focus_handle);
                }
            } else {
                let new_index = match found {
                    Some(t) => {
                        proof {
                            let x = pruned.last().entity_id;
                            let c = index_of_id(before.items, x);
                            assert(0 <= c < before.items.len() && before.items[c].id == x);
                        }
                        if t < index {
                            t
                        } else {
                            t - 1
                        }
                    },
                    None => if index > 0 {
                        index - 1
                    } else {
                        0
                    },
                };
                let ghost mid = self@;
                self.activate_item(new_index, should_activate, should_activate, cx);
                proof {
                    let h = self@.activation_history;
                    let rid = mid.items[new_index as int].id;
                    assert(rid != removed);
                    lemma_without_id(mid.activation_history, rid);
                    assert forall|k: int| 0 <= k < h.len() implies (#[trigger] h[k]).entity_id
                        != removed by {
                        if k < h.len() - 1 {
                            let e = h[k];
                            assert(e == without_id(mid.activation_history, rid)[k]);
                            assert(mid.activation_history.contains(e));
                        }
                    }
                }
            }
        } else {
            self.items.remove(index);
            if index < self.active_item_index {
                self.active_item_index -= 1;
            }
            proof {
                let items = self.items@;
                assert forall|i: int, j: int| 0 <= i < j < items.len() implies items[i].id
                    != items[j].id by {
                    if j < index {
                        assert(items[i] == before.items[i] && items[j] == before.items[j]);
                    } else if i < index {
                        assert(items[i] == before.items[i] && items[j] == before.items[j + 1]);
                    } else {
                        assert(items[i] == before.items[i + 1] && items[j] == before.items[j + 1]);
                    }
                }
            }
        }
    }

    /// Removes, one after another, each item whose identity is in `ids`,
    /// looking each one up again by identity first: an item that has moved is
    /// still found, one that is already gone is skipped.
    pub fn remove_items_by_id(&mut self, ids: &Vec<ItemId>, cx: &mut WindowContext)
        requires
            old(self)@.wf(),
        ensures
            final(self)@.wf(),
            (final(self)@, *final(cx)) == old(self)@.after_remove_ids(
                *old(cx),
                ids@,
                ids@.len() as int,
            ),
            final(self)@.items == kept_items(old(self)@.items, ids@),
    {
        let ghost start = self@.items;
        proof {
            lemma_filter_all(start, |h: ItemHandle| !ids@.subrange(0, 0).contains(h.id));
        }
        let mut k: usize = 0;
        while k < ids.len()
            invariant
                k <= ids.len(),
                self@.wf(),
                (self@, *cx) == old(self)@.after_remove_ids(*old(cx), ids@, k as int),
                start == old(self)@.items,
                self@.items == kept_items(start, ids@.subrange(0, k as int)),
            decreases ids.len() - k,
        {
            let x = ids[k];
            let ghost cur = self@.items;
            let ghost closed = ids@.subrange(0, k as int);
            let ghost p = |h: ItemHandle| !closed.contains(h.id);
            let ghost q = |h: ItemHandle| h.id != x;
            proof {
                assert(ids@.subrange(0, k + 1) =~= closed.push(x));
                assert forall|i: int| 0 <= i < start.len() implies (!closed.push(x).contains(
                    start[i].id,
                )) == (p(start[i]) && q(start[i])) by {
                    lemma_push_contains(closed, x, start[i].id);
                }
                lemma_filter_agree(
                    start,
                    |h: ItemHandle| !closed.push(x).contains(h.id),
                    |e: ItemHandle| p(e) && q(e),
                );
                lemma_filter_compose(start, p, q);
            }
            match index_for_id(&self.items, x) {
                Some(ix) => {
                    proof {
                        lemma_filter_remove(cur, ix as int);
                        lemma_index_of_id(cur, ix as int);
                    }
                    self.remove_item(ix, false, true, cx);
                },
                None => {
                    proof {
                        lemma_filter_all(cur, q);
                    }
                },
            }
            k += 1;
        }
        proof {
            assert(ids@.subrange(0, ids@.len() as int) =~= ids@);
        }
    }

    /// Closes every item whose identity `should_close` picks, in two phases:
    /// first the identities are gathered, then each is looked up again and
    /// removed (see `remove_items_by_id`). Returns the gathered identities.
    pub fn close_items<F: Fn(ItemId) -> bool>(&mut self, should_close: F, cx: &mut WindowContext) -> (closed: Vec<ItemId>)
        requires
            old(self)@.wf(),
            forall|id: ItemId| should_close.requires((id,)),
        ensures
            final(self)@.wf(),
            final(self)@.items == kept_items(old(self)@.items, closed@),
            forall|k: int| 0 <= k < closed@.len() ==> contains_id(old(self)@.items, closed@[k])
                && should_close.ensures((closed@[k],), true),
            forall|i: int|
                0 <= i < old(self)@.items.len() && !closed@.contains(old(self)@.items[i].id)
                    ==> should_close.ensures((old(self)@.items[i].id,), false),
            forall|a: int, b: int| 0 <= a < b < closed@.len() ==> closed@[a] != closed@[b],
            (final(self)@, *final(cx)) == old(self)@.after_remove_ids(
                *old(cx),
                closed@,
                closed@.len() as int,
            ),
    {
        let mut closed: Vec<ItemId> = Vec::new();
        let mut i: usize = 0;
        while i < self.items.len()
            invariant
                i <= self.items.len(),
                self@ == old(self)@,
                forall|id: ItemId| should_close.requires((id,)),
                self@.wf(),
                forall|k: int| 0 <= k < closed@.len() ==> contains_id(self@.items, closed@[k])
                    && should_close.ensures((closed@[k],), true),
                forall|k: int|
                    0 <= k < closed@.len() ==> exists|j: int|
                        0 <= j < i && self@.items[j].id == #[trigger] closed@[k],
                forall|a: int, b: int| 0 <= a < b < closed@.len() ==> closed@[a] != closed@[b],
                forall|j: int|
                    0 <= j < i && !closed@.contains(self@.items[j].id) ==> should_close.ensures(
                        (self@.items[j].id,),
                        false,
                    ),
            decreases self.items.len() - i,
        {
            let id = self.items[i].id;
            let ghost before = closed@;
            if should_close(id) {
                closed.push(id);
                proof {
                    assert(closed@[closed@.len() - 1] == id);
                    assert forall|a: int, b: int| 0 <= a < b < closed@.len() implies closed@[a]
                        != closed@[b] by {
                        if b == closed@.len() - 1 {
                            assert(closed@[a] == before[a]);
                            let j = choose|j: int| 0 <= j < i && self@.items[j].id == before[a];
                        }
                    }
                    assert forall|k: int| 0 <= k < closed@.len() implies exists|j: int|
                        0 <= j < i + 1 && self@.items[j].id == #[trigger] closed@[k] by {
                        if k < closed@.len() - 1 {
                            assert(closed@[k] == before[k]);
                            let j = choose|j: int| 0 <= j < i && self@.items[j].id == before[k];
                            assert(self@.items[j].id == closed@[k]);
                        } else {
                            assert(self@.items[i as int].id == closed@[k]);
                        }
                    }
                    assert forall|j: int| 0 <= j < i && !closed@.contains(self@.items[j].id) implies should_close.ensures(
                        (self@.items[j].id,),
                        false,
                    ) by {
                        lemma_push_contains(before, id, self@.items[j].id);
                    }
                }
            }
            i += 1;
        }
        self.remove_items_by_id(&closed, cx);
        closed
    }

    /// Closes the item with identity `id`, if the pane holds it.
    pub fn close_item_by_id(&mut self, id: ItemId, cx: &mut WindowContext)
        requires
            old(self)@.wf(),
        ensures
            final(self)@.wf(),
            final(self)@.items == old(self)@.items.filter(|h: ItemHandle| h.id != id),
            (final(self)@, *final(cx)) == old(self)@.after_remove_ids(*old(cx), seq![id], 1),
    {
        let is_target = move |view_id: ItemId| -> (r: bool)
            ensures
                r == (view_id == id),
        { view_id == id };
        let closed = self.close_items(is_target, cx);
        proof {
            let items = old(self)@.items;
            assert forall|i: int| 0 <= i < items.len() implies (!closed@.contains(items[i].id))
                == (items[i].id != id) by {
                if closed@.contains(items[i].id) {
                    let k = choose|k: int| 0 <= k < closed@.len() && closed@[k] == items[i].id;
                    assert(closed@[k] == items[i].id);
                }
            }
            lemma_filter_agree(
                items,
                |h: ItemHandle| !closed@.contains(h.id),
                |h: ItemHandle| h.id != id,
            );
            let start = old(self)@;
            let one = seq![id];
            assert(one[0] == id);
            if contains_id(items, id) {
                let i = choose|i: int| 0 <= i < items.len() && items[i].id == id;
                assert(closed@.contains(items[i].id));
                let k = choose|k: int| 0 <= k < closed@.len() && closed@[k] == id;
                assert(closed@.len() == 1) by {
                    if closed@.len() > 1 {
                        let other = if k == 0 {
                            1int
                        } else {
                            0int
                        };
                        assert(closed@[other] == id);
                    }
                }
                assert(closed@ =~= one);
            } else {
                assert(closed@.len() == 0) by {
                    if closed@.len() > 0 {
                        assert(closed@[0] == id);
                        assert(contains_id(items, closed@[0]));
                    }
                }
                assert(start.after_remove_ids(*old(cx), one, 0) == (start, *old(cx)));
            }
        }
    }

    /// Where the tab at `ix` stands: first, last, or in the middle, ordered
    /// against the active tab.
    pub fn tab_position(&self, ix: usize) -> (r: TabPosition)
        requires
            ix < self@.items.len(),
        ensures
            r == tab_position_of(ix as int, self@.items.len() as int, self@.active_item_index),
    {
        if ix == 0 {
            TabPosition::First
        } else if ix == self.items.len() - 1 {
            TabPosition::Last
        } else if ix < self.active_item_index {
            TabPosition::Middle(core::cmp::Ordering::Less)
        } else if ix == self.active_item_index {
            TabPosition::Middle(core::cmp::Ordering::Equal)
        } else {
            TabPosition::Middle(core::cmp::Ordering::Greater)
        }
    }

    /// What the label of the tab at `ix` is rendered from.
    pub fn tab_content_params(&self, ix: usize, detail: usize) -> (r: TabContentParams)
        requires
            ix < self@.items.len(),
        ensures
            r.detail == Some(detail),
            r.selected == (ix == self@.active_item_index),
            r.preview == (self@.preview_item_id == Some(self@.items[ix as int].id)),
    {
        let id = self.items[ix].id;
        let preview = match self.preview_item_id {
            Some(p) => p == id,
            None => false,
        };
        TabContentParams { detail: Some(detail), selected: ix == self.active_item_index, preview }
    }
}

pub open spec fn tab_position_of(ix: int, len: int, active: int) -> TabPosition {
    if ix == 0 {
        TabPosition::First
    } else if ix == len - 1 {
        TabPosition::Last
    } else if ix < active {
        TabPosition::Middle(core::cmp::Ordering::Less)
    } else if ix == active {
        TabPosition::Middle(core::cmp::Ordering::Equal)
    } else {
        TabPosition::Middle(core::cmp::Ordering::Greater)
    }
}

/// The detail level of each tab's label; no two tabs need telling apart
/// yet, so every detail is zero.
pub fn tab_details(items: &Vec<ItemHandle>) -> (r: Vec<usize>)
    ensures
        r@.len() == items@.len(),
        forall|i: int| 0 <= i < r@.len() ==> r@[i] == 0,
{
    let mut details: Vec<usize> = Vec::new();
    let mut i: usize = 0;
    while i < items.len()
        invariant
            i <= items.len(),
            details@.len() == i,
            forall|k: int| 0 <= k < details@.len() ==> details@[k] == 0,
        decreases items.len() - i,
    {
        details.push(0);
        i += 1;
    }
    details
}

} // verus!
