use tungsten_workspace::item::{FocusHandle, ItemHandle, ItemId, ItemKind};
use tungsten_workspace::pane_group::{Axis, Member, PaneAxis, PaneGroup, PaneId};
use tungsten_workspace::status_bar::StatusItemId;
use tungsten_workspace::workspace::{ActionKind, HandlerId, Workspace};

fn item(id: u64) -> ItemHandle {
    ItemHandle::new(ItemId(id), ItemKind(1), FocusHandle(100 + id))
}

#[test]
fn new_workspace_has_one_focused_empty_pane() {
    let ws = Workspace::new(FocusHandle(1));
    assert_eq!(ws.pane_count(), 1);
    assert_eq!(ws.active_pane(), PaneId(0));
    assert!(ws.pane(PaneId(0)).items().is_empty());
    assert_eq!(ws.window_context().focused, Some(FocusHandle(1)));
}

#[test]
fn activating_an_absent_identity_changes_nothing() {
    let mut ws = Workspace::new(FocusHandle(1));
    ws.add_item_to_active_pane(item(1), None);
    ws.add_item_to_active_pane(item(2), None);
    let before = ws.window_context();
    assert!(!ws.activate_item(&item(77)));
    assert_eq!(ws.pane(PaneId(0)).active_item_index(), 1);
    assert_eq!(ws.window_context(), before);
}

#[test]
fn activating_a_held_identity_brings_it_to_the_front() {
    let mut ws = Workspace::new(FocusHandle(1));
    ws.add_item_to_active_pane(item(1), None);
    ws.add_item_to_active_pane(item(2), None);
    assert!(ws.activate_item(&item(1)));
    let pane = ws.pane(PaneId(0));
    assert_eq!(pane.active_item().map(|h| h.id), Some(ItemId(1)));
    assert_eq!(ws.window_context().focused, Some(FocusHandle(101)));
}

#[test]
fn find_or_activate_existing_reuses_a_singleton_panel() {
    let cue_kind = ItemKind(7);
    let mut ws = Workspace::new(FocusHandle(1));
    ws.add_item_to_active_pane(item(1), None);
    ws.add_item_to_active_pane(ItemHandle::new(ItemId(2), cue_kind, FocusHandle(102)), None);
    ws.add_item_to_active_pane(item(3), None);
    let existing = ws.pane(PaneId(0)).items().iter().find_map(|h| h.downcast(cue_kind));
    let existing = existing.unwrap();
    assert!(ws.activate_item(&existing));
    assert_eq!(ws.pane(PaneId(0)).items().len(), 3);
    assert_eq!(ws.pane(PaneId(0)).active_item().map(|h| h.id), Some(ItemId(2)));
}

#[test]
fn registering_an_action_twice_is_registering_it_once() {
    let mut ws = Workspace::new(FocusHandle(1));
    ws.register_action(ActionKind(1), HandlerId(10));
    ws.register_action(ActionKind(2), HandlerId(20));
    ws.register_action(ActionKind(1), HandlerId(11));
    assert_eq!(ws.handler_for(ActionKind(1)), Some(HandlerId(10)));
    assert_eq!(ws.handler_for(ActionKind(2)), Some(HandlerId(20)));
    assert_eq!(ws.handler_for(ActionKind(3)), None);
}

#[test]
fn status_items_are_told_the_active_item_on_registration_and_change() {
    let mut ws = Workspace::new(FocusHandle(1));
    ws.add_left_status_item(StatusItemId(1));
    assert_eq!(ws.status_bar().left_items[0].active_pane_item, None);
    ws.add_item_to_active_pane(item(1), None);
    assert_eq!(ws.status_bar().left_items[0].active_pane_item, Some(item(1)));
    ws.add_right_status_item(StatusItemId(2));
    ws.add_right_status_item(StatusItemId(3));
    assert_eq!(ws.status_bar().right_items[1].active_pane_item, Some(item(1)));
    ws.add_item_to_active_pane(item(2), None);
    ws.remove_item(PaneId(0), 1, false);
    for s in ws.status_bar().left_items.iter().chain(ws.status_bar().right_items.iter()) {
        assert_eq!(s.active_pane_item, Some(item(1)));
    }
    let order: Vec<u64> = ws.status_bar().right_items_in_layout_order().iter().map(|s| s.view.0).collect();
    assert_eq!(order, vec![3, 2]);
    ws.close_item_by_id(PaneId(0), ItemId(1));
    assert_eq!(ws.status_bar().left_items[0].active_pane_item, None);
}

#[test]
fn add_item_to_a_named_pane() {
    let mut ws = Workspace::new(FocusHandle(1));
    ws.add_item(PaneId(0), item(5), Some(3));
    assert_eq!(ws.pane(PaneId(0)).items().len(), 1);
}

#[test]
fn member_contains_and_first_pane() {
    let tree = Member::Axis(PaneAxis {
        axis: Axis::Horizontal,
        members: vec![
            Member::Axis(PaneAxis { axis: Axis::Vertical, members: vec![Member::Pane(PaneId(3)), Member::Pane(PaneId(1))] }),
            Member::Pane(PaneId(2)),
        ],
    });
    assert!(tree.contains(PaneId(1)));
    assert!(tree.contains(PaneId(2)));
    assert!(!tree.contains(PaneId(0)));
    assert_eq!(tree.first_pane(), PaneId(3));
    let group = PaneGroup::new(PaneId(4));
    assert!(group.root.contains(PaneId(4)));
    assert_eq!(PaneGroup::with_root(tree).root.first_pane(), PaneId(3));
}

#[test]
fn activate_or_add_opens_a_panel_once() {
    let patch = ItemKind(9);
    let mut ws = Workspace::new(FocusHandle(1));
    assert!(!ws.activate_or_add(patch, ItemHandle::new(ItemId(1), patch, FocusHandle(101))));
    ws.add_item_to_active_pane(item(2), None);
    assert!(ws.activate_or_add(patch, ItemHandle::new(ItemId(3), patch, FocusHandle(103))));
    let pane = ws.pane(PaneId(0));
    assert_eq!(pane.items().len(), 2);
    assert_eq!(pane.active_item().map(|h| h.id), Some(ItemId(1)));
    assert_eq!(ws.window_context().focused, Some(FocusHandle(101)));
}
