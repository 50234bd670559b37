use monocle_layout::layout_state::LayoutState;
use monocle_layout::model::FrameBase;
use monocle_layout::monocle::MonocleLayoutSystem;
use monocle_layout::render::ContainerNodeType;
use monocle_layout::slots::LayoutId;
use monocle_layout::window::{Direction, WindowId};

fn w(idx: u32) -> WindowId {
    WindowId::new(1, idx)
}

fn system_with(windows: &[WindowId]) -> (MonocleLayoutSystem, LayoutId) {
    let mut system = MonocleLayoutSystem::default();
    let layout = system.create_layout();
    for &wid in windows {
        system.add_window_after_selection(layout, wid);
    }
    (system, layout)
}

#[test]
fn adding_goes_just_behind_the_selection() {
    let (mut system, layout) = system_with(&[w(1), w(2)]);
    assert!(system.select_window(layout, w(1)));
    system.add_window_after_selection(layout, w(3));
    assert_eq!(system.all_windows_in_layout(layout), vec![w(1), w(3), w(2)]);
    assert_eq!(system.selected_window(layout), Some(w(3)));
}

#[test]
fn adding_a_present_window_only_selects_it() {
    let (mut system, layout) = system_with(&[w(1), w(2)]);
    system.add_window_after_selection(layout, w(1));
    assert_eq!(system.all_windows_in_layout(layout), vec![w(1), w(2)]);
    assert_eq!(system.selected_window(layout), Some(w(1)));
}

#[test]
fn adding_to_a_removed_layout_does_nothing() {
    let (mut system, layout) = system_with(&[w(1)]);
    system.remove_layout(layout);
    assert!(!system.contains_layout(layout));
    system.add_window_after_selection(layout, w(2));
    assert_eq!(system.all_windows_in_layout(layout), Vec::<WindowId>::new());
    assert_eq!(system.selected_window(layout), None);
    assert_eq!(system.layout_count(), 0);
}

#[test]
fn removing_the_last_selected_window_selects_the_one_before() {
    let (mut system, layout) = system_with(&[w(1), w(2), w(3)]);
    assert_eq!(system.selected_window(layout), Some(w(3)));
    system.remove_window(w(3));
    assert_eq!(system.selected_window(layout), Some(w(2)));
    assert_eq!(system.all_windows_in_layout(layout), vec![w(1), w(2)]);
}

#[test]
fn removing_a_middle_selected_window_selects_the_one_after() {
    let (mut system, layout) = system_with(&[w(1), w(2), w(3)]);
    assert!(system.select_window(layout, w(2)));
    system.remove_window(w(2));
    assert_eq!(system.selected_window(layout), Some(w(3)));
}

#[test]
fn removing_an_unselected_window_keeps_the_selection() {
    let (mut system, layout) = system_with(&[w(1), w(2), w(3)]);
    system.remove_window(w(1));
    assert_eq!(system.selected_window(layout), Some(w(3)));
    system.remove_window(w(9));
    assert_eq!(system.all_windows_in_layout(layout), vec![w(2), w(3)]);
}

#[test]
fn removing_the_only_window_empties_the_layout() {
    let (mut system, layout) = system_with(&[w(1)]);
    system.remove_window(w(1));
    assert_eq!(system.selected_window(layout), None);
    assert_eq!(system.visible_windows_under_selection(layout), Vec::<WindowId>::new());
}

#[test]
fn removing_a_window_ends_its_fullscreen() {
    let (mut system, layout) = system_with(&[w(1)]);
    system.toggle_fullscreen_of_selection(layout);
    system.remove_window(w(1));
    assert!(!system.has_any_fullscreen_node(layout));
}

#[test]
fn removing_from_every_layout() {
    let mut system = MonocleLayoutSystem::default();
    let a = system.create_layout();
    let b = system.create_layout();
    system.add_window_after_selection(a, w(1));
    system.add_window_after_selection(b, w(1));
    system.add_window_after_selection(b, w(2));
    system.remove_window(w(1));
    assert!(!system.contains_window(a, w(1)));
    assert!(!system.contains_window(b, w(1)));
    assert!(system.contains_window(b, w(2)));
}

#[test]
fn replacing_a_window_carries_selection_and_fullscreen() {
    let (mut system, layout) = system_with(&[w(1), w(2)]);
    assert!(system.select_window(layout, w(1)));
    system.toggle_fullscreen_of_selection(layout);
    system.replace_window(w(1), w(5));
    assert_eq!(system.all_windows_in_layout(layout), vec![w(5), w(2)]);
    assert_eq!(system.selected_window(layout), Some(w(5)));
    let plan = system.calculate_layout(layout);
    assert_eq!(plan, vec![(w(2), FrameBase::Tiling), (w(5), FrameBase::Screen)]);
}

#[test]
fn replacing_a_window_by_itself_changes_nothing() {
    let (mut system, layout) = system_with(&[w(1), w(2)]);
    system.replace_window(w(2), w(2));
    assert_eq!(system.all_windows_in_layout(layout), vec![w(1), w(2)]);
    assert_eq!(system.selected_window(layout), Some(w(2)));
}

#[test]
fn windows_of_an_application() {
    let other = WindowId::new(2, 1);
    let (system, layout) = system_with(&[w(1), other, w(2)]);
    assert_eq!(system.windows_for_app(layout, 1), vec![w(1), w(2)]);
    assert_eq!(system.windows_for_app(layout, 2), vec![other]);
    assert!(system.has_windows_for_app(layout, 2));
    assert!(!system.has_windows_for_app(layout, 3));
}

#[test]
fn removing_the_windows_of_an_application() {
    let other = WindowId::new(2, 1);
    let (mut system, layout) = system_with(&[w(1), other, w(2)]);
    system.remove_windows_for_app(1);
    assert_eq!(system.all_windows_in_layout(layout), vec![other]);
    assert_eq!(system.selected_window(layout), Some(other));
    assert!(!system.has_windows_for_app(layout, 1));
}

#[test]
fn setting_the_windows_of_an_application() {
    let other = WindowId::new(2, 1);
    let stranger = WindowId::new(2, 7);
    let (mut system, layout) = system_with(&[w(1), other, w(2)]);
    assert_eq!(system.selected_window(layout), Some(w(2)));
    system.set_windows_for_app(layout, 1, vec![w(3), w(1), stranger, w(3)]);
    assert_eq!(system.all_windows_in_layout(layout), vec![w(1), other, w(3)]);
    assert_eq!(system.selected_window(layout), Some(w(1)));
}

#[test]
fn setting_the_windows_of_an_application_keeps_a_kept_selection() {
    let other = WindowId::new(2, 1);
    let (mut system, layout) = system_with(&[w(1), other]);
    system.set_windows_for_app(layout, 1, vec![w(1), w(4)]);
    assert_eq!(system.all_windows_in_layout(layout), vec![w(1), other, w(4)]);
    assert_eq!(system.selected_window(layout), Some(other));
}

#[test]
fn swapping_two_windows() {
    let (mut system, layout) = system_with(&[w(1), w(2), w(3)]);
    assert!(system.swap_windows(layout, w(1), w(3)));
    assert_eq!(system.all_windows_in_layout(layout), vec![w(3), w(2), w(1)]);
    assert!(!system.swap_windows(layout, w(1), w(9)));
    assert_eq!(system.all_windows_in_layout(layout), vec![w(3), w(2), w(1)]);
    assert!(system.swap_windows(layout, w(1), w(3)));
    assert_eq!(system.all_windows_in_layout(layout), vec![w(1), w(2), w(3)]);
}

#[test]
fn moving_the_selection_through_the_stack() {
    let (mut system, layout) = system_with(&[w(1), w(2), w(3)]);
    assert!(system.select_window(layout, w(1)));
    assert!(!system.move_selection(layout, Direction::Up));
    assert!(system.move_selection(layout, Direction::Down));
    assert_eq!(system.all_windows_in_layout(layout), vec![w(2), w(1), w(3)]);
    assert_eq!(system.selected_window(layout), Some(w(1)));
}

#[test]
fn the_window_in_a_direction_leaves_the_selection() {
    let (mut system, layout) = system_with(&[w(1), w(2), w(3)]);
    assert!(system.select_window(layout, w(2)));
    assert_eq!(system.window_in_direction(layout, Direction::Up), Some(w(1)));
    assert_eq!(system.window_in_direction(layout, Direction::Down), Some(w(3)));
    assert_eq!(system.selected_window(layout), Some(w(2)));
    assert!(system.select_window(layout, w(3)));
    assert_eq!(system.window_in_direction(layout, Direction::Right), None);
}

#[test]
fn focus_in_a_missing_layout() {
    let (mut system, layout) = system_with(&[]);
    system.remove_layout(layout);
    assert_eq!(system.move_focus(layout, Direction::Left), (None, vec![]));
}

#[test]
fn cloning_a_layout_copies_it() {
    let (mut system, layout) = system_with(&[w(1), w(2)]);
    let copy = system.clone_layout(layout);
    assert!(system.contains_layout(copy));
    system.remove_window(w(1));
    assert_eq!(system.all_windows_in_layout(copy), vec![w(2)]);
    system.add_window_after_selection(copy, w(3));
    assert_eq!(system.all_windows_in_layout(layout), vec![w(2)]);
    assert_eq!(system.all_windows_in_layout(copy), vec![w(2), w(3)]);
}

#[test]
fn cloning_a_missing_layout_gives_an_empty_one() {
    let (mut system, layout) = system_with(&[w(1)]);
    system.remove_layout(layout);
    let copy = system.try_clone_layout(layout).unwrap();
    assert!(system.contains_layout(copy));
    assert_eq!(system.all_windows_in_layout(copy), Vec::<WindowId>::new());
}

#[test]
fn moving_the_selection_to_another_layout() {
    let mut system = MonocleLayoutSystem::default();
    let from = system.create_layout();
    let to = system.create_layout();
    system.add_window_after_selection(from, w(1));
    system.add_window_after_selection(from, w(2));
    system.add_window_after_selection(to, w(3));
    system.move_selection_to_layout_after_selection(from, to);
    assert_eq!(system.all_windows_in_layout(from), vec![w(1)]);
    assert_eq!(system.selected_window(from), Some(w(1)));
    assert_eq!(system.all_windows_in_layout(to), vec![w(3), w(2)]);
    assert_eq!(system.selected_window(to), Some(w(2)));
}

#[test]
fn drawing_a_layout_stars_the_selection() {
    let (system, layout) = system_with(&[w(1), w(2)]);
    let text = system.draw_tree(layout);
    assert_eq!(
        text,
        "Monocle: [WindowId { pid: 1, idx: 1 }] [*WindowId { pid: 1, idx: 2 }]\n"
    );
    assert_eq!(text, format!("Monocle: [{:?}] [*{:?}]\n", w(1), w(2)));
}

#[test]
fn drawing_writes_windows_as_debug_does() {
    let odd = WindowId::new(-42, 4_000_000_000);
    let least = WindowId::new(i32::MIN, 0);
    let (system, layout) = system_with(&[odd, least]);
    assert_eq!(
        system.draw_tree(layout),
        format!("Monocle: [{:?}] [*{:?}]\n", odd, least)
    );
}

#[test]
fn drawing_an_empty_or_missing_layout() {
    let (mut system, layout) = system_with(&[]);
    assert_eq!(system.draw_tree(layout), "Monocle:\n");
    system.remove_layout(layout);
    assert_eq!(system.draw_tree(layout), "");
}

#[test]
fn fullscreen_within_gaps_toggles_and_replaces_fullscreen() {
    let (mut system, layout) = system_with(&[w(1)]);
    system.toggle_fullscreen_of_selection(layout);
    assert_eq!(system.calculate_layout(layout), vec![(w(1), FrameBase::Screen)]);
    assert_eq!(system.toggle_fullscreen_within_gaps_of_selection(layout), vec![w(1)]);
    assert_eq!(system.calculate_layout(layout), vec![(w(1), FrameBase::Tiling)]);
    assert!(system.has_any_fullscreen_node(layout));
    assert_eq!(system.toggle_fullscreen_within_gaps_of_selection(layout), vec![w(1)]);
    assert!(!system.has_any_fullscreen_node(layout));
}

#[test]
fn toggling_in_an_empty_layout_answers_nothing() {
    let (mut system, layout) = system_with(&[]);
    assert_eq!(system.toggle_fullscreen_of_selection(layout), Vec::<WindowId>::new());
    assert!(!system.has_any_fullscreen_node(layout));
}

#[test]
fn container_tree_marks_fullscreen_windows() {
    let (mut system, layout) = system_with(&[w(1), w(2)]);
    system.toggle_fullscreen_of_selection(layout);
    let tree = system.container_tree(layout);
    assert_eq!(tree.node_type, ContainerNodeType::Container);
    assert_eq!(tree.window_id, None);
    assert_eq!(tree.children[0].window_id, Some(w(1)));
    assert!(!tree.children[0].is_fullscreen);
    assert!(tree.children[1].is_fullscreen);
    assert!(!tree.children[1].is_fullscreen_within_gaps);
    assert_eq!(tree.children[1].node_type, ContainerNodeType::Window);
    assert!(tree.children[1].children.is_empty());
}

#[test]
fn monocle_layouts_have_no_containers() {
    let (mut system, layout) = system_with(&[w(1)]);
    assert!(!system.ascend_selection(layout));
    assert!(!system.descend_selection(layout));
    assert!(!system.parent_of_selection_is_stacked(layout));
    system.rebalance(layout);
    system.unjoin_selection(layout);
    system.toggle_tile_orientation(layout);
    system.join_selection_with_direction(layout, Direction::Left);
    assert_eq!(system.all_windows_in_layout(layout), vec![w(1)]);
    assert_eq!(system.visible_windows_under_selection(layout), vec![w(1)]);
}

#[test]
fn layouts_are_counted_and_listed() {
    let mut system = MonocleLayoutSystem::default();
    let a = system.try_create_layout().unwrap();
    let b = system.create_layout();
    assert_eq!(system.layout_count(), 2);
    let ids = system.layout_ids();
    assert_eq!(ids.len(), 2);
    assert!(ids.contains(&a) && ids.contains(&b));
    assert!(system.layout_snapshot(a).is_some());
    system.remove_layout(a);
    assert!(system.layout_snapshot(a).is_none());
}

#[test]
fn a_layout_with_no_selection_shows_its_front_window() {
    let state = LayoutState::from_parts(vec![w(1), w(2)], None, vec![], vec![]);
    assert_eq!(state.selected_or_first(), Some(w(1)));
    assert_eq!(state.selected_index(), None);
    assert_eq!(state.locate(w(2)), Some(1));
    assert_eq!(state.locate(w(3)), None);
    assert_eq!(
        state.placement(),
        vec![(w(1), FrameBase::Tiling), (w(2), FrameBase::Tiling), (w(1), FrameBase::Tiling)]
    );
}

#[test]
fn removing_from_a_layout_answers_the_new_selection() {
    let mut state = LayoutState::from_parts(vec![w(1), w(2)], Some(w(1)), vec![w(1)], vec![]);
    assert_eq!(state.remove_window(w(9)), None);
    assert_eq!(state.remove_window(w(1)), Some(w(2)));
    assert_eq!(state.windows(), vec![w(2)]);
    assert!(state.fullscreen_windows().is_empty());
    assert_eq!(state.remove_window(w(2)), None);
    assert_eq!(state.selected(), None);
}

#[test]
fn a_selection_move_is_undone_by_the_opposite_move() {
    let (mut system, layout) = system_with(&[w(1), w(2), w(3)]);
    assert!(system.select_window(layout, w(2)));
    assert!(system.move_selection(layout, Direction::Right));
    assert_eq!(system.all_windows_in_layout(layout), vec![w(1), w(3), w(2)]);
    assert!(system.move_selection(layout, Direction::Left));
    assert_eq!(system.all_windows_in_layout(layout), vec![w(1), w(2), w(3)]);
    assert_eq!(system.selected_window(layout), Some(w(2)));
}

#[test]
fn removing_an_application_keeps_the_rest_and_ends_its_fullscreen() {
    let other = WindowId::new(2, 1);
    let (mut system, layout) = system_with(&[w(1), other, w(2)]);
    system.toggle_fullscreen_of_selection(layout);
    assert!(system.select_window(layout, other));
    system.toggle_fullscreen_within_gaps_of_selection(layout);
    system.remove_windows_for_app(1);
    assert_eq!(system.all_windows_in_layout(layout), vec![other]);
    assert_eq!(system.calculate_layout(layout), vec![(other, FrameBase::Tiling)]);
    system.remove_windows_for_app(2);
    assert!(!system.has_any_fullscreen_node(layout));
}

#[test]
fn stacking_and_splitting_do_nothing() {
    let (mut system, layout) = system_with(&[w(1), w(2)]);
    system.split_selection(layout, "horizontal");
    assert_eq!(system.apply_stacking_to_parent_of_selection(layout, 0u8), Vec::<WindowId>::new());
    assert_eq!(system.unstack_parent_of_selection(layout, 0u8), Vec::<WindowId>::new());
    assert_eq!(system.all_windows_in_layout(layout), vec![w(1), w(2)]);
    assert_eq!(system.selected_window(layout), Some(w(2)));
}
