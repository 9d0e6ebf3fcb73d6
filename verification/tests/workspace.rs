use volanwm::{
    Effect, GapKind, Layout, StackLayout, TileLayout, Viewport, WindowGeometry, WindowId,
    WorkSpaceBuilder,
};

fn layouts() -> Vec<Layout> {
    vec![
        Layout::Tile(TileLayout::new("tile", 0, 0)),
        Layout::Stack(StackLayout::new("stack")),
    ]
}

fn vp() -> Viewport {
    Viewport { x: 0, y: 0, width: 1000, height: 800 }
}

#[test]
fn builder_selects_the_default_layout() {
    let ws = WorkSpaceBuilder::new("alpha", "stack").build(layouts());
    assert_eq!(ws.name().as_str(), "alpha");
}

#[test]
fn inactive_workspace_issues_no_effects() {
    let mut ws = WorkSpaceBuilder::new("alpha", "tile").build(layouts());
    let effects = ws.add_window(WindowId(1));
    assert!(effects.is_empty());
}

#[test]
fn activation_lays_out_and_focuses() {
    let mut ws = WorkSpaceBuilder::new("alpha", "tile").build(layouts());
    ws.add_window(WindowId(1));
    let effects = ws.activate(vp());
    assert_eq!(
        effects,
        vec![
            Effect::Show(
                WindowId(1),
                WindowGeometry { x: 0, y: 0, width: 1000, height: 800 }
            ),
            Effect::Focus(WindowId(1)),
        ]
    );
}

#[test]
fn empty_active_workspace_unfocuses() {
    let mut ws = WorkSpaceBuilder::new("alpha", "tile").build(layouts());
    let effects = ws.activate(vp());
    assert_eq!(effects, vec![Effect::Unfocus]);
}

#[test]
fn deactivate_hides_every_window_and_preserves_the_stack() {
    let mut ws = WorkSpaceBuilder::new("alpha", "tile").build(layouts());
    ws.add_window(WindowId(1));
    ws.add_window(WindowId(2));
    ws.activate(vp());
    let effects = ws.deactivate();
    assert_eq!(effects, vec![Effect::Hide(WindowId(1)), Effect::Hide(WindowId(2))]);
    assert!(ws.contains(&WindowId(1)));
    assert!(ws.contains(&WindowId(2)));
}

#[test]
fn remove_focused_hides_the_removed_window_last() {
    let mut ws = WorkSpaceBuilder::new("alpha", "tile").build(layouts());
    ws.activate(vp());
    ws.add_window(WindowId(1));
    ws.add_window(WindowId(2));
    let (removed, effects) = ws.remove_focused();
    assert_eq!(removed, Some(WindowId(2)));
    assert_eq!(effects.last(), Some(&Effect::Hide(WindowId(2))));
    assert!(!ws.contains(&WindowId(2)));
    assert!(ws.contains(&WindowId(1)));
}

#[test]
fn remove_window_reports_a_missing_window() {
    let mut ws = WorkSpaceBuilder::new("alpha", "tile").build(layouts());
    ws.add_window(WindowId(1));
    let (removed, effects) = ws.remove_window(&WindowId(99));
    assert_eq!(removed, None);
    assert!(effects.is_empty());
    let (removed2, _) = ws.remove_window(&WindowId(1));
    assert_eq!(removed2, Some(WindowId(1)));
    assert!(!ws.contains(&WindowId(1)));
}

#[test]
fn close_focused_asks_for_a_close_and_keeps_the_stack() {
    let mut ws = WorkSpaceBuilder::new("alpha", "tile").build(layouts());
    ws.add_window(WindowId(1));
    let effects = ws.close_focused();
    assert_eq!(effects, vec![Effect::Close(WindowId(1))]);
    assert!(ws.contains(&WindowId(1)));
}

#[test]
fn layout_rotation_switches_the_placement_strategy() {
    let mut ws = WorkSpaceBuilder::new("alpha", "tile").build(layouts());
    ws.activate(vp());
    ws.add_window(WindowId(1));
    ws.add_window(WindowId(2));
    // Under the stack layout, one window is hidden.
    let effects = ws.layout_next();
    assert!(effects.iter().any(|e| matches!(e, Effect::Hide(_))));
    // Rotating back restores the two-column layout: nothing hidden.
    let effects2 = ws.layout_previous();
    assert!(!effects2.iter().any(|e| matches!(e, Effect::Hide(_))));
}

#[test]
fn focus_rotation_relays_out_the_workspace() {
    let mut ws = WorkSpaceBuilder::new("alpha", "stack").build(layouts());
    ws.activate(vp());
    ws.add_window(WindowId(1));
    ws.add_window(WindowId(2));
    let effects = ws.focus_next();
    assert_eq!(effects.last(), Some(&Effect::Focus(WindowId(1))));
    let effects2 = ws.focus_previous();
    assert_eq!(effects2.last(), Some(&Effect::Focus(WindowId(2))));
}

#[test]
fn master_adjustment_changes_the_tile_split() {
    let mut ws = WorkSpaceBuilder::new("alpha", "tile").build(layouts());
    ws.activate(vp());
    ws.add_window(WindowId(1));
    ws.add_window(WindowId(2));
    let before = ws.increase_master();
    // The master gains one 160-pixel step beyond the default offset.
    let widened = match &before[0] {
        Effect::Show(_, g) => g.width,
        other => panic!("unexpected first effect {:?}", other),
    };
    assert_eq!(widened, 500 + 320);
}

#[test]
fn rejected_gap_decrease_is_reported_in_the_effects() {
    let mut ws = WorkSpaceBuilder::new("alpha", "tile")
        .build(vec![Layout::Tile(TileLayout::new("tile", 1, 0))]);
    ws.activate(Viewport { x: 0, y: 0, width: 1000, height: 800 });
    ws.add_window(WindowId(1));
    // The first decrease brings the inner gap to zero without a report.
    let effects = ws.decrease_innergaps();
    assert!(!effects.contains(&Effect::ReportGapRejected(GapKind::Inner)));
    // The second is rejected, and the rejection leads the returned effects.
    let effects = ws.decrease_innergaps();
    assert_eq!(effects.first(), Some(&Effect::ReportGapRejected(GapKind::Inner)));
    // The outer gap starts at zero, so its decrease is rejected at once.
    let effects = ws.decrease_outergaps();
    assert_eq!(effects.first(), Some(&Effect::ReportGapRejected(GapKind::Outer)));
}
