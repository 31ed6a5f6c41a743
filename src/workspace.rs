use vstd::prelude::*;

use crate::item::{find_of_kind, first_of_kind, FocusHandle, ItemHandle, ItemId, ItemKind};
use crate::pane::{contains_id, index_of_id, Pane, PaneState, WindowContext};
use crate::pane_group::{member_panes, PaneGroup, PaneId};
use crate::status_bar::{all_told, told, StatusBar, StatusItem, StatusItemId};

verus! {

/// An action that activates the pane at the given index.
#[derive(Clone, Copy, Debug, PartialEq, Eq, Structural)]
pub struct ActivatePane(pub usize);

/// Names a type of action.
#[derive(Clone, Copy, Debug, PartialEq, Eq, Hash, Structural)]
pub struct ActionKind(pub u64);

/// Names a registered callback.
#[derive(Clone, Copy, Debug, PartialEq, Eq, Hash, Structural)]
pub struct HandlerId(pub u64);

/// One entry of the dispatch table: an action type and its callback.
#[derive(Clone, Copy, Debug, PartialEq, Eq, Structural)]
pub struct ActionHandler {
    pub action: ActionKind,
    pub handler: HandlerId,
}

pub open spec fn action_registered(handlers: Seq<ActionHandler>, action: ActionKind) -> bool {
    exists|i: int| 0 <= i < handlers.len() && handlers[i].action == action
}

/// The dispatch table after registering `handler` for `action`: appended
/// when the action type is new, unchanged when it is already registered.
pub open spec fn with_action(handlers: Seq<ActionHandler>, action: ActionKind, handler: HandlerId) -> Seq<
    ActionHandler,
> {
    if action_registered(handlers, action) {
        handlers
    } else {
        handlers.push(ActionHandler { action, handler })
    }
}

/// Registering an action type a second time, with any callback, leaves the
/// dispatch table as registering it once did.
pub proof fn lemma_register_action_idempotent(
    handlers: Seq<ActionHandler>,
    action: ActionKind,
    first: HandlerId,
    second: HandlerId,
)
    ensures
        with_action(with_action(handlers, action, first), action, second) == with_action(
            handlers,
            action,
            first,
        ),
{
    let once = with_action(handlers, action, first);
    if !action_registered(handlers, action) {
        assert(once[handlers.len() as int].action == action);
    }
}

/// A workspace's contents as the contracts speak of them.
pub struct WorkspaceState {
    pub actions: Seq<ActionHandler>,
    pub active_pane: int,
    pub panes: Seq<PaneState>,
    pub center_panes: Seq<PaneId>,
    pub left_items: Seq<StatusItem>,
    pub right_items: Seq<StatusItem>,
    pub cx: WindowContext,
}

/// The index of the first pane that holds an item with identity `id`.
pub open spec fn first_pane_holding(panes: Seq<PaneState>, id: ItemId, p: int) -> bool {
    &&& 0 <= p < panes.len()
    &&& contains_id(panes[p].items, id)
    &&& forall|q: int| 0 <= q < p ==> !contains_id(panes[q].items, id)
}

/// `after` is `before` with pane `p` replaced by `next` and the window
/// context by `next_cx`, the status observers told the new active item, and
/// nothing else changed.
pub open spec fn pane_replaced(
    before: WorkspaceState,
    after: WorkspaceState,
    p: int,
    next: PaneState,
    next_cx: WindowContext,
) -> bool {
    &&& after.panes == before.panes.update(p, next)
    &&& after.cx == next_cx
    &&& after.actions == before.actions
    &&& after.active_pane == before.active_pane
    &&& after.center_panes == before.center_panes
    &&& after.left_items == told(before.left_items, after.active_pane_item())
    &&& after.right_items == told(before.right_items, after.active_pane_item())
}

proof fn lemma_pane_replaced_wf(
    before: WorkspaceState,
    after: WorkspaceState,
    p: int,
    next: PaneState,
    next_cx: WindowContext,
)
    requires
        before.wf(),
        0 <= p < before.panes.len(),
        next.wf(),
        pane_replaced(before, after, p, next, next_cx),
    ensures
        after.wf(),
{
    assert forall|q: int| 0 <= q < after.panes.len() implies (#[trigger] after.panes[q]).wf() by {
        if q != p {
            assert(after.panes[q] == before.panes[q]);
        }
    }
    assert forall|i: int| 0 <= i < after.center_panes.len() implies (
    #[trigger] after.center_panes[i]).0 < after.panes.len() by {
        assert(after.center_panes[i] == before.center_panes[i]);
    }
}

proof fn lemma_told_again(items: Seq<StatusItem>, item: Option<ItemHandle>)
    requires
        all_told(items, item),
    ensures
        told(items, item) == items,
{
    assert(told(items, item) =~= items);
}

/// `after` is `before` with the item of identity `id` activated, and
/// focused, in the first pane that holds it, and every status observer told
/// the active pane's active item.
pub open spec fn item_activated(before: WorkspaceState, after: WorkspaceState, id: ItemId) -> bool {
    exists|p: int|
        first_pane_holding(before.panes, id, p) && ({
            let pane = before.panes[p];
            let (next, next_cx) = pane.after_activate(before.cx, index_of_id(pane.items, id), true);
            &&& after.panes == before.panes.update(p, next)
            &&& after.cx == next_cx
            &&& after.actions == before.actions
            &&& after.active_pane == before.active_pane
            &&& after.center_panes == before.center_panes
            &&& after.left_items == told(before.left_items, after.active_pane_item())
            &&& after.right_items == told(before.right_items, after.active_pane_item())
        })
}

impl WorkspaceState {
    pub open spec fn active_pane_item(self) -> Option<crate::item::ItemHandle> {
        self.panes[self.active_pane].active_item()
    }

    /// The active pane exists, every pane is well formed, and every status
    /// observer was last told the active pane's active item.
    pub open spec fn wf(self) -> bool {
        &&& 0 <= self.active_pane < self.panes.len()
        &&& forall|p: int| 0 <= p < self.panes.len() ==> (#[trigger] self.panes[p]).wf()
        &&& forall|i: int| 0 <= i < self.center_panes.len() ==> (#[trigger] self.center_panes[i]).0
            < self.panes.len()
        &&& all_told(self.left_items, self.active_pane_item())
        &&& all_told(self.right_items, self.active_pane_item())
    }
}

/// A window's workspace: its panes and their split tree, the active pane,
/// the action dispatch table, the status bar and the window's focus state.
pub struct Workspace {
    workspace_actions: Vec<ActionHandler>,
    active_pane: PaneId,
    panes: Vec<Pane>,
    center: PaneGroup,
    status_bar: StatusBar,
    cx: WindowContext,
}

impl View for Workspace {
    type V = WorkspaceState;

    closed spec fn view(&self) -> WorkspaceState {
        WorkspaceState {
            actions: self.workspace_actions@,
            active_pane: self.active_pane.0 as int,
            panes: self.panes@.map_values(|p: Pane| p@),
            center_panes: member_panes(self.center.root),
            left_items: self.status_bar.left_items@,
            right_items: self.status_bar.right_items@,
            cx: self.cx,
        }
    }
}

impl Workspace {
    closed spec fn inner_wf(&self) -> bool {
        &&& self.status_bar.active_pane == self.active_pane
    }

    pub closed spec fn well_formed(&self) -> bool {
        self@.wf() && self.inner_wf()
    }

    /// A workspace with one empty pane, which holds focus.
    pub fn new(pane_focus: FocusHandle) -> (r: Workspace)
        ensures
            r.well_formed(),
            r@.panes.len() == 1,
            r@.active_pane == 0,
            r@.panes[0] == (PaneState {
                focus_handle: pane_focus,
                items: Seq::empty(),
                preview_item_id: None,
                active_item_index: 0,
                activation_history: Seq::empty(),
            }),
            r@.center_panes == seq![PaneId(0)],
            r@.actions.len() == 0,
            r@.left_items.len() == 0,
            r@.right_items.len() == 0,
            r@.cx.focused == Some(pane_focus),
    {
        let center_pane = Pane::new(pane_focus);
        let mut cx = WindowContext::new();
        center_pane.focus(&mut cx);
        let mut panes: Vec<Pane> = Vec::new();
        panes.push(center_pane);
        let r = Workspace {
            workspace_actions: Vec::new(),
            active_pane: PaneId(0),
            panes,
            center: PaneGroup::new(PaneId(0)),
            status_bar: StatusBar::new(PaneId(0)),
            cx,
        };
        assert(r@.panes[0] == center_pane@);
        r
    }

    pub fn active_pane(&self) -> (r: PaneId)
        ensures
            r.0 == self@.active_pane,
    {
        self.active_pane
    }

    pub fn pane_count(&self) -> (r: usize)
        ensures
            r == self@.panes.len(),
    {
        self.panes.len()
    }

    pub fn pane(&self, pane: PaneId) -> (r: &Pane)
        requires
            pane.0 < self@.panes.len(),
        ensures
            r@ == self@.panes[pane.0 as int],
    {
        &self.panes[pane.0]
    }

    pub fn status_bar(&self) -> (r: &StatusBar)
        ensures
            r.left_items@ == self@.left_items,
            r.right_items@ == self@.right_items,
    {
        &self.status_bar
    }

    pub fn window_context(&self) -> (r: WindowContext)
        ensures
            r == self@.cx,
    {
        self.cx
    }

    /// Tells the status bar the active pane's current active item.
    fn notify_status_bar(&mut self)
        requires
            old(self)@.active_pane >= 0 && old(self)@.active_pane < old(self)@.panes.len(),
        ensures
            final(self)@ == (WorkspaceState {
                left_items: told(old(self)@.left_items, old(self)@.active_pane_item()),
                right_items: told(old(self)@.right_items, old(self)@.active_pane_item()),
                ..old(self)@
            }),
            final(self).status_bar.active_pane == old(self).active_pane,
            all_told(final(self)@.left_items, final(self)@.active_pane_item()),
            all_told(final(self)@.right_items, final(self)@.active_pane_item()),
    {
        let item = self.panes[self.active_pane.0].active_item();
        self.status_bar.set_active_pane_item(self.active_pane, item);
    }

    /// Brings the item with `item`'s identity to the front in the first pane
    /// that holds it. Returns whether one was found; when none was, nothing
    /// changes.
    pub fn activate_item(&mut self, item: &ItemHandle) -> (r: bool)
        requires
            old(self).well_formed(),
        ensures
            final(self).well_formed(),
            r == exists|p: int| 0 <= p < old(self)@.panes.len() && contains_id(
                old(self)@.panes[p].items,
                item.id,
            ),
            !r ==> final(self)@ == old(self)@,
            r ==> item_activated(old(self)@, final(self)@, item.id),
    {
        let mut p: usize = 0;
        while p < self.panes.len()
            invariant
                p <= self.panes.len(),
                *self == *old(self),
                self.well_formed(),
                forall|q: int| 0 <= q < p ==> !contains_id(self@.panes[q].items, item.id),
            decreases self.panes.len() - p,
        {
            proof {
                assert(self@.panes[p as int] == self.panes@[p as int]@);
                assert(self@.panes[p as int].wf());
            }
            match self.panes[p].index_for_item(item) {
                Some(ix) => {
                    let ghost old_view = self@;
                    self.panes[p].activate_item(ix, true, true, &mut self.cx);
                    proof {
                        assert(self@.panes =~= old_view.panes.update(p as int, self.panes@[p as int]@));
                        assert(first_pane_holding(old_view.panes, item.id, p as int));
                    }
                    self.notify_status_bar();
                    proof {
                        assert forall|q: int| 0 <= q < self@.panes.len() implies (
                        #[trigger] self@.panes[q]).wf() by {
                            if q != p {
                                assert(self@.panes[q] == old_view.panes[q]);
                            }
                        }
                        assert forall|i: int| 0 <= i < self@.center_panes.len() implies (
                        #[trigger] self@.center_panes[i]).0 < self@.panes.len() by {
                            assert(self@.center_panes[i] == old_view.center_panes[i]);
                        }
                    }
                    return true;
                },
                None => {},
            }
            p += 1;
        }
        false
    }

    /// Registers `handler` for action type `action`. Handlers apply in
    /// registration order; registering a type that already has a handler
    /// changes nothing.
    pub fn register_action(&mut self, action: ActionKind, handler: HandlerId)
        requires
            old(self).well_formed(),
        ensures
            final(self).well_formed(),
            final(self)@ == (WorkspaceState {
                actions: with_action(old(self)@.actions, action, handler),
                ..old(self)@
            }),
    {
        let mut i: usize = 0;
        while i < self.workspace_actions.len()
            invariant
                i <= self.workspace_actions.len(),
                *self == *old(self),
                self.well_formed(),
                forall|k: int| 0 <= k < i ==> self.workspace_actions@[k].action != action,
            decreases self.workspace_actions.len() - i,
        {
            if self.workspace_actions[i].action == action {
                return;
            }
            i += 1;
        }
        self.workspace_actions.push(ActionHandler { action, handler });
    }

    /// The callback registered for action type `action`, if any.
    pub fn handler_for(&self, action: ActionKind) -> (r: Option<HandlerId>)
        ensures
            match r {
                Some(h) => self@.actions.contains(ActionHandler { action, handler: h }),
                None => !action_registered(self@.actions, action),
            },
    {
        let mut i: usize = 0;
        while i < self.workspace_actions.len()
            invariant
                i <= self.workspace_actions.len(),
                forall|k: int| 0 <= k < i ==> self.workspace_actions@[k].action != action,
            decreases self.workspace_actions.len() - i,
        {
            let entry = self.workspace_actions[i];
            if entry.action == action {
                assert(self@.actions[i as int] == entry);
                return Some(entry.handler);
            }
            i += 1;
        }
        None
    }

    /// Adds `item` to pane `pane` (see `Pane::add_item`), activating and
    /// focusing it.
    pub fn add_item(&mut self, pane: PaneId, item: ItemHandle, destination_index: Option<usize>)
        requires
            old(self).well_formed(),
            pane.0 < old(self)@.panes.len(),
        ensures
            final(self).well_formed(),
            ({
                let before = old(self)@.panes[pane.0 as int];
                let (next, next_cx) = if contains_id(before.items, item.id) {
                    (before, old(self)@.cx)
                } else {
                    before.after_add(old(self)@.cx, item, true, destination_index)
                };
                pane_replaced(old(self)@, final(self)@, pane.0 as int, next, next_cx)
            }),
    {
        let ghost before = self@;
        proof {
            assert(before.panes[pane.0 as int] == self.panes@[pane.0 as int]@);
        }
        self.panes[pane.0].add_item(item, true, true, destination_index, &mut self.cx);
        let ghost next = self.panes@[pane.0 as int]@;
        assert(self@.panes =~= before.panes.update(pane.0 as int, next));
        self.notify_status_bar();
        proof {
            lemma_pane_replaced_wf(before, self@, pane.0 as int, next, self.cx);
        }
    }

    /// Adds `item` to the active pane (see `add_item`).
    pub fn add_item_to_active_pane(&mut self, item: ItemHandle, destination_index: Option<usize>)
        requires
            old(self).well_formed(),
        ensures
            final(self).well_formed(),
            ({
                let p = old(self)@.active_pane;
                let before = old(self)@.panes[p];
                let (next, next_cx) = if contains_id(before.items, item.id) {
                    (before, old(self)@.cx)
                } else {
                    before.after_add(old(self)@.cx, item, true, destination_index)
                };
                pane_replaced(old(self)@, final(self)@, p, next, next_cx)
            }),
    {
        let pane = self.active_pane;
        self.add_item(pane, item, destination_index);
    }

    /// Removes the item at `index` of pane `pane` (see `Pane::remove_item`).
    pub fn remove_item(&mut self, pane: PaneId, index: usize, activate_pane: bool)
        requires
            old(self).well_formed(),
            pane.0 < old(self)@.panes.len(),
        ensures
            final(self).well_formed(),
            ({
                let before = old(self)@.panes[pane.0 as int];
                let (next, next_cx) = if index < before.items.len() {
                    before.after_remove(old(self)@.cx, index as int, activate_pane)
                } else {
                    (before, old(self)@.cx)
                };
                pane_replaced(old(self)@, final(self)@, pane.0 as int, next, next_cx)
            }),
    {
        let ghost before = self@;
        proof {
            assert(before.panes[pane.0 as int] == self.panes@[pane.0 as int]@);
        }
        self.panes[pane.0].remove_item(index, activate_pane, true, &mut self.cx);
        let ghost next = self.panes@[pane.0 as int]@;
        assert(self@.panes =~= before.panes.update(pane.0 as int, next));
        self.notify_status_bar();
        proof {
            lemma_pane_replaced_wf(before, self@, pane.0 as int, next, self.cx);
        }
    }

    /// Closes the item with identity `id` in pane `pane`, if it is there.
    pub fn close_item_by_id(&mut self, pane: PaneId, id: ItemId)
        requires
            old(self).well_formed(),
            pane.0 < old(self)@.panes.len(),
        ensures
            final(self).well_formed(),
            final(self)@.panes[pane.0 as int].items == old(self)@.panes[pane.0 as int].items.filter(
                |h: ItemHandle| h.id != id,
            ),
            ({
                let (next, next_cx) = old(self)@.panes[pane.0 as int].after_remove_ids(
                    old(self)@.cx,
                    seq![id],
                    1,
                );
                pane_replaced(old(self)@, final(self)@, pane.0 as int, next, next_cx)
            }),
    {
        let ghost before = self@;
        proof {
            assert(before.panes[pane.0 as int] == self.panes@[pane.0 as int]@);
        }
        self.panes[pane.0].close_item_by_id(id, &mut self.cx);
        let ghost next = self.panes@[pane.0 as int]@;
        assert(self@.panes =~= before.panes.update(pane.0 as int, next));
        self.notify_status_bar();
        proof {
            lemma_pane_replaced_wf(before, self@, pane.0 as int, next, self.cx);
        }
    }

    /// Adds status-bar observer `view` on the left, told the active item.
    pub fn add_left_status_item(&mut self, view: StatusItemId)
        requires
            old(self).well_formed(),
        ensures
            final(self).well_formed(),
            final(self)@ == (WorkspaceState {
                left_items: old(self)@.left_items.push(
                    StatusItem { view, active_pane_item: old(self)@.active_pane_item() },
                ),
                ..old(self)@
            }),
    {
        proof {
            assert(self@.panes[self.active_pane.0 as int] == self.panes@[self.active_pane.0 as int]@);
        }
        self.status_bar.add_left_item(view, &self.panes[self.active_pane.0]);
        proof {
            let l = self@.left_items;
            assert(forall|i: int| 0 <= i < l.len() - 1 ==> l[i] == old(self)@.left_items[i]);
        }
    }

    /// Adds status-bar observer `view` on the right, told the active item.
    pub fn add_right_status_item(&mut self, view: StatusItemId)
        requires
            old(self).well_formed(),
        ensures
            final(self).well_formed(),
            final(self)@ == (WorkspaceState {
                right_items: old(self)@.right_items.push(
                    StatusItem { view, active_pane_item: old(self)@.active_pane_item() },
                ),
                ..old(self)@
            }),
    {
        proof {
            assert(self@.panes[self.active_pane.0 as int] == self.panes@[self.active_pane.0 as int]@);
        }
        self.status_bar.add_right_item(view, &self.panes[self.active_pane.0]);
        proof {
            let r = self@.right_items;
            assert(forall|i: int| 0 <= i < r.len() - 1 ==> r[i] == old(self)@.right_items[i]);
        }
    }

    /// Brings the active pane's first item of content type `kind` to the
    /// front and returns true; when the active pane has none, adds `fresh` to
    /// it instead and returns false. This keeps single-instance panels single.
    pub fn activate_or_add(&mut self, kind: ItemKind, fresh: ItemHandle) -> (r: bool)
        requires
            old(self).well_formed(),
        ensures
            final(self).well_formed(),
            ({
                let items = old(self)@.panes[old(self)@.active_pane].items;
                &&& r == exists|i: int| 0 <= i < items.len() && items[i].kind == kind
                &&& r ==> exists|i: int|
                    first_of_kind(items, kind, i) && item_activated(
                        old(self)@,
                        final(self)@,
                        items[i].id,
                    )
            }),
            !r ==> ({
                let p = old(self)@.active_pane;
                let before = old(self)@.panes[p];
                let (next, next_cx) = if contains_id(before.items, fresh.id) {
                    (before, old(self)@.cx)
                } else {
                    before.after_add(old(self)@.cx, fresh, true, None)
                };
                pane_replaced(old(self)@, final(self)@, p, next, next_cx)
            }),
    {
        proof {
            assert(self@.panes[self.active_pane.0 as int] == self.panes@[self.active_pane.0 as int]@);
        }
        let existing = find_of_kind(self.panes[self.active_pane.0].items(), kind);
        match existing {
            Some(h) => {
                let ghost items = self@.panes[self@.active_pane].items;
                proof {
                    let i = choose|i: int| first_of_kind(items, kind, i) && items[i] == h;
                    assert(contains_id(items, h.id));
                }
                self.activate_item(&h);
                true
            },
            None => {
                self.add_item_to_active_pane(fresh, None);
                false
            },
        }
    }
}

} // verus!
