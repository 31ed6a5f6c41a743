use std::cmp::Ordering;

use tungsten_workspace::item::{FocusHandle, ItemHandle, ItemId, ItemKind};
use tungsten_workspace::pane::{tab_details, Pane, TabPosition, WindowContext};

fn item(id: u64) -> ItemHandle {
    ItemHandle::new(ItemId(id), ItemKind(1), FocusHandle(100 + id))
}

fn ids(pane: &Pane) -> Vec<u64> {
    pane.items().iter().map(|h| h.id.0).collect()
}

fn history(pane: &Pane) -> Vec<u64> {
    pane.activation_history().iter().map(|e| e.entity_id.0).collect()
}

/// Three items added with no destination, one after another.
fn scenario_a() -> (Pane, WindowContext) {
    let mut cx = WindowContext::new();
    let mut pane = Pane::new(FocusHandle(1));
    pane.add_item(item(1), true, true, None, &mut cx);
    pane.add_item(item(2), true, true, None, &mut cx);
    pane.add_item(item(3), true, true, None, &mut cx);
    (pane, cx)
}

#[test]
fn adding_three_items_appends_each_after_the_active_one() {
    let (pane, cx) = scenario_a();
    assert_eq!(ids(&pane), vec![1, 2, 3]);
    assert_eq!(pane.active_item_index(), 2);
    assert_eq!(pane.active_item().map(|h| h.id), Some(ItemId(3)));
    assert_eq!(history(&pane), vec![1, 2, 3]);
    assert_eq!(cx.focused, Some(FocusHandle(103)));
    assert_eq!(cx.next_activation_timestamp, 3);
}

#[test]
fn activating_the_first_item_moves_it_to_the_history_tail() {
    let (mut pane, mut cx) = scenario_a();
    let a = pane.index_for_item(&item(1)).unwrap();
    pane.activate_item(a, true, true, &mut cx);
    assert_eq!(pane.active_item().map(|h| h.id), Some(ItemId(1)));
    assert_eq!(history(&pane), vec![2, 3, 1]);
    let stamps: Vec<u64> = pane.activation_history().iter().map(|e| e.timestamp).collect();
    assert_eq!(stamps, vec![1, 2, 3]);
}

#[test]
fn removing_the_active_item_falls_back_to_the_previous_activation() {
    let (mut pane, mut cx) = scenario_a();
    let a = pane.index_for_item(&item(1)).unwrap();
    pane.activate_item(a, true, true, &mut cx);
    let a = pane.index_for_item(&item(1)).unwrap();
    pane.remove_item(a, false, true, &mut cx);
    assert_eq!(ids(&pane), vec![2, 3]);
    assert_eq!(pane.active_item().map(|h| h.id), Some(ItemId(3)));
    assert_eq!(pane.active_item_index(), 1);
    assert_eq!(history(&pane), vec![2, 3]);
}

#[test]
fn removing_the_only_item_leaves_an_empty_pane() {
    let mut cx = WindowContext::new();
    let mut pane = Pane::new(FocusHandle(1));
    pane.add_item(item(9), true, false, None, &mut cx);
    cx.focused = None;
    let x = pane.index_for_item(&item(9)).unwrap();
    pane.remove_item(x, false, true, &mut cx);
    assert!(pane.items().is_empty());
    assert_eq!(pane.active_item(), None);
    assert!(!pane.has_focus(&cx));
    cx.focus(FocusHandle(1));
    assert!(pane.has_focus(&cx));
}

#[test]
fn removing_the_only_focused_item_focuses_the_pane() {
    let mut cx = WindowContext::new();
    let mut pane = Pane::new(FocusHandle(1));
    pane.add_item(item(9), true, true, None, &mut cx);
    assert!(pane.has_focus(&cx));
    pane.remove_item(0, false, true, &mut cx);
    assert!(pane.items().is_empty());
    assert_eq!(cx.focused, Some(FocusHandle(1)));
    assert!(pane.has_focus(&cx));
}

#[test]
fn stale_history_entries_are_popped_until_a_held_item() {
    let mut cx = WindowContext::new();
    let mut pane = Pane::new(FocusHandle(1));
    for id in 1..=4 {
        pane.add_item(item(id), true, true, None, &mut cx);
    }
    // history [1, 2, 3, 4]; activate 1 then 4 again: [2, 3, 1, 4]
    pane.activate_item(0, true, true, &mut cx);
    pane.activate_item(3, true, true, &mut cx);
    assert_eq!(history(&pane), vec![2, 3, 1, 4]);
    pane.remove_item(0, false, true, &mut cx);
    assert_eq!(ids(&pane), vec![2, 3, 4]);
    assert_eq!(pane.active_item().map(|h| h.id), Some(ItemId(4)));
    pane.remove_item(2, false, true, &mut cx);
    assert_eq!(ids(&pane), vec![2, 3]);
    assert_eq!(pane.active_item().map(|h| h.id), Some(ItemId(3)));
}

#[test]
fn removing_an_inactive_item_keeps_the_active_one() {
    let (mut pane, mut cx) = scenario_a();
    pane.activate_item(1, true, true, &mut cx);
    pane.remove_item(0, false, true, &mut cx);
    assert_eq!(ids(&pane), vec![2, 3]);
    assert_eq!(pane.active_item().map(|h| h.id), Some(ItemId(2)));
    assert_eq!(pane.active_item_index(), 0);
    assert_eq!(history(&pane), vec![3, 2]);
}

#[test]
fn removing_without_history_activates_the_left_neighbour() {
    let (mut pane, mut cx) = scenario_a();
    pane.remove_item(0, false, true, &mut cx);
    pane.remove_item(0, false, true, &mut cx);
    assert_eq!(ids(&pane), vec![3]);
    assert_eq!(pane.active_item().map(|h| h.id), Some(ItemId(3)));
}

#[test]
fn out_of_range_indices_change_nothing() {
    let (mut pane, mut cx) = scenario_a();
    let before = cx;
    pane.activate_item(3, true, true, &mut cx);
    pane.remove_item(7, true, true, &mut cx);
    assert_eq!(ids(&pane), vec![1, 2, 3]);
    assert_eq!(pane.active_item_index(), 2);
    assert_eq!(cx, before);
}

#[test]
fn adding_a_held_identity_changes_nothing() {
    let (mut pane, mut cx) = scenario_a();
    pane.activate_item(0, true, true, &mut cx);
    let before = cx;
    pane.add_item(item(2), true, true, None, &mut cx);
    assert_eq!(ids(&pane), vec![1, 2, 3]);
    assert_eq!(pane.active_item_index(), 0);
    assert_eq!(cx, before);
}

#[test]
fn destination_index_is_clamped_to_the_end() {
    let (mut pane, mut cx) = scenario_a();
    pane.add_item(item(4), true, true, Some(0), &mut cx);
    pane.add_item(item(5), true, true, Some(99), &mut cx);
    assert_eq!(ids(&pane), vec![4, 1, 2, 3, 5]);
    assert_eq!(pane.active_item_index(), 4);
}

#[test]
fn adding_after_a_middle_item_inserts_next_to_it() {
    let (mut pane, mut cx) = scenario_a();
    pane.activate_item(0, true, false, &mut cx);
    pane.add_item(item(4), true, false, None, &mut cx);
    assert_eq!(ids(&pane), vec![1, 4, 2, 3]);
    assert_eq!(pane.active_item_index(), 1);
    assert_eq!(cx.focused, Some(FocusHandle(103)));
}

#[test]
fn history_never_holds_an_identity_twice() {
    let (mut pane, mut cx) = scenario_a();
    for ix in [0, 1, 0, 2, 2, 1, 0] {
        pane.activate_item(ix, true, true, &mut cx);
        let h = history(&pane);
        let mut sorted = h.clone();
        sorted.sort();
        sorted.dedup();
        assert_eq!(sorted.len(), h.len());
        assert!(pane.active_item_index() < pane.items().len());
    }
    assert_eq!(history(&pane), vec![3, 2, 1]);
}

#[test]
fn close_item_by_id_removes_only_that_item() {
    let (mut pane, mut cx) = scenario_a();
    pane.close_item_by_id(ItemId(2), &mut cx);
    assert_eq!(ids(&pane), vec![1, 3]);
    assert_eq!(pane.active_item().map(|h| h.id), Some(ItemId(3)));
    pane.close_item_by_id(ItemId(42), &mut cx);
    assert_eq!(ids(&pane), vec![1, 3]);
}

#[test]
fn close_items_gathers_then_removes_matching_items() {
    let (mut pane, mut cx) = scenario_a();
    pane.add_item(item(4), true, true, None, &mut cx);
    let closed = pane.close_items(|id: ItemId| id.0 % 2 == 0, &mut cx);
    assert_eq!(closed, vec![ItemId(2), ItemId(4)]);
    assert_eq!(ids(&pane), vec![1, 3]);
    assert_eq!(pane.active_item().map(|h| h.id), Some(ItemId(3)));
}

#[test]
fn removal_by_identity_skips_items_already_gone() {
    let (mut pane, mut cx) = scenario_a();
    pane.remove_items_by_id(&vec![ItemId(3), ItemId(7), ItemId(3), ItemId(1)], &mut cx);
    assert_eq!(ids(&pane), vec![2]);
    assert_eq!(pane.active_item_index(), 0);
}

#[test]
fn has_focus_covers_the_active_item() {
    let (pane, mut cx) = scenario_a();
    assert!(pane.has_focus(&cx));
    cx.focus(FocusHandle(101));
    assert!(!pane.has_focus(&cx));
    cx.focus(FocusHandle(1));
    assert!(pane.has_focus(&cx));
}

#[test]
fn tab_positions_and_params() {
    let (mut pane, mut cx) = scenario_a();
    pane.add_item(item(4), true, true, None, &mut cx);
    pane.activate_item(2, true, true, &mut cx);
    assert_eq!(pane.tab_position(0), TabPosition::First);
    assert_eq!(pane.tab_position(1), TabPosition::Middle(Ordering::Less));
    assert_eq!(pane.tab_position(2), TabPosition::Middle(Ordering::Equal));
    assert_eq!(pane.tab_position(3), TabPosition::Last);
    let p = pane.tab_content_params(2, 0);
    assert_eq!(p.detail, Some(0));
    assert!(p.selected);
    assert!(!p.preview);
    assert!(!pane.tab_content_params(1, 0).selected);
    assert_eq!(tab_details(pane.items()), vec![0, 0, 0, 0]);
}

#[test]
fn timestamps_wrap_like_an_atomic_counter() {
    let mut cx = WindowContext::new();
    cx.next_activation_timestamp = u64::MAX;
    assert_eq!(cx.next_timestamp(), u64::MAX);
    assert_eq!(cx.next_activation_timestamp, 0);
}

#[test]
fn removing_an_unfocused_only_item_leaves_no_history() {
    let mut cx = WindowContext::new();
    let mut pane = Pane::new(FocusHandle(1));
    pane.add_item(item(9), true, false, None, &mut cx);
    pane.remove_item(0, false, true, &mut cx);
    assert!(pane.items().is_empty());
    assert!(pane.activation_history().is_empty());
    assert_eq!(cx.focused, None);
}

#[test]
fn removing_the_focused_active_item_focuses_its_replacement() {
    let (mut pane, mut cx) = scenario_a();
    pane.activate_item(0, true, true, &mut cx);
    assert_eq!(cx.focused, Some(FocusHandle(101)));
    pane.remove_item(0, false, true, &mut cx);
    assert_eq!(ids(&pane), vec![2, 3]);
    assert_eq!(pane.active_item().map(|h| h.id), Some(ItemId(3)));
    assert_eq!(cx.focused, Some(FocusHandle(103)));
    assert!(!history(&pane).contains(&1));
    assert_eq!(history(&pane), vec![2, 3]);
}

#[test]
fn removing_the_first_active_item_never_records_it_again() {
    let (mut pane, mut cx) = scenario_a();
    pane.activate_item(0, true, true, &mut cx);
    for _ in 0..3 {
        let active = pane.active_item_index();
        let removed = pane.items()[active].id.0;
        pane.remove_item(active, true, true, &mut cx);
        assert!(!history(&pane).contains(&removed));
    }
    assert!(pane.items().is_empty());
    assert!(pane.activation_history().is_empty());
    assert_eq!(cx.focused, Some(FocusHandle(1)));
}
