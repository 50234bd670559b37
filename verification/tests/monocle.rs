use std::collections::HashMap;

use objc2_core_foundation::{CGPoint, CGRect, CGSize};

use monocle_layout::model::FrameBase;
use monocle_layout::monocle::MonocleLayoutSystem;
use monocle_layout::slots::LayoutId;
use monocle_layout::window::{Direction, WindowId};

fn w(idx: u32) -> WindowId {
    WindowId::new(1, idx)
}

fn screen() -> CGRect {
    CGRect::new(CGPoint::new(0.0, 0.0), CGSize::new(1920.0, 1080.0))
}

/// The frames of a layout on `screen` with the default gap settings, under
/// which the tiling area is the whole screen.
fn layout_frames(
    system: &MonocleLayoutSystem,
    layout: LayoutId,
    screen: CGRect,
) -> HashMap<WindowId, CGRect> {
    ordered_frames(system, layout, screen).into_iter().collect()
}

fn ordered_frames(system: &MonocleLayoutSystem, layout: LayoutId, screen: CGRect) -> Vec<(WindowId, CGRect)> {
    let tiling = screen;
    system
        .calculate_layout(layout)
        .into_iter()
        .map(|(wid, base)| {
            let frame = match base {
                FrameBase::Screen => screen,
                FrameBase::Tiling => tiling,
            };
            (wid, frame)
        })
        .collect()
}

#[test]
fn single_window_fills_screen_without_gaps() {
    let mut system = MonocleLayoutSystem::default();
    let layout = system.create_layout();
    system.add_window_after_selection(layout, w(1));

    assert_eq!(system.calculate_layout(layout), vec![(w(1), FrameBase::Tiling)]);
    let frames = layout_frames(&system, layout, screen());
    assert_eq!(frames.len(), 1);
    assert_eq!(frames[&w(1)], screen());
}

#[test]
fn stacked_windows_share_one_fullscreen_frame_with_selection_last() {
    let mut system = MonocleLayoutSystem::default();
    let layout = system.create_layout();
    system.add_window_after_selection(layout, w(1));
    system.add_window_after_selection(layout, w(2));
    system.add_window_after_selection(layout, w(3));
    assert!(system.select_window(layout, w(1)));

    let plan = system.calculate_layout(layout);
    assert!(plan.iter().all(|(_, base)| *base == FrameBase::Tiling));
    let ordered = ordered_frames(&system, layout, screen());
    assert_eq!(ordered.len(), 3);
    for (_, frame) in &ordered {
        assert_eq!(*frame, screen(), "all monocle windows share one frame");
    }
    assert_eq!(ordered.last().map(|(wid, _)| *wid), Some(w(1)));
    assert_eq!(system.visible_windows_in_layout(layout), vec![w(1), w(2), w(3)]);
}

#[test]
fn focus_steps_through_stack_and_stops_at_edges() {
    let mut system = MonocleLayoutSystem::default();
    let layout = system.create_layout();
    system.add_window_after_selection(layout, w(1));
    system.add_window_after_selection(layout, w(2));
    assert!(system.select_window(layout, w(1)));

    let (focus, raise) = system.move_focus(layout, Direction::Right);
    assert_eq!(focus, Some(w(2)));
    assert_eq!(raise, vec![w(2)]);
    let (focus, _) = system.move_focus(layout, Direction::Right);
    assert_eq!(focus, None, "edge must fall through to cross-space navigation");
    assert_eq!(system.selected_window(layout), Some(w(2)));

    let (focus, _) = system.move_focus(layout, Direction::Left);
    assert_eq!(focus, Some(w(1)));
}

#[test]
fn removal_falls_back_to_neighbor_selection() {
    let mut system = MonocleLayoutSystem::default();
    let layout = system.create_layout();
    system.add_window_after_selection(layout, w(1));
    system.add_window_after_selection(layout, w(2));
    assert!(system.select_window(layout, w(2)));

    system.remove_window(w(2));
    assert_eq!(system.selected_window(layout), Some(w(1)));
    assert!(!system.contains_window(layout, w(2)));
}

#[test]
fn fullscreen_toggle_round_trip() {
    let mut system = MonocleLayoutSystem::default();
    let layout = system.create_layout();
    system.add_window_after_selection(layout, w(1));
    assert!(!system.has_any_fullscreen_node(layout));

    assert_eq!(system.toggle_fullscreen_of_selection(layout), vec![w(1)]);
    assert!(system.has_any_fullscreen_node(layout));
    assert_eq!(system.toggle_fullscreen_of_selection(layout), vec![w(1)]);
    assert!(!system.has_any_fullscreen_node(layout));
}

#[test]
fn container_tree_marks_selection() {
    let mut system = MonocleLayoutSystem::default();
    let layout = system.create_layout();
    system.add_window_after_selection(layout, w(1));
    system.add_window_after_selection(layout, w(2));

    let tree = system.container_tree(layout);
    assert_eq!(tree.role.as_deref(), Some("monocle"));
    assert_eq!(tree.children.len(), 2);
    let selected: Vec<_> = tree.children.iter().filter(|node| node.is_selected).collect();
    assert_eq!(selected.len(), 1);
    assert_eq!(selected[0].window_id, Some(w(2)));
}
