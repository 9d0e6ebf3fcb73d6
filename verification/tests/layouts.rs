use volanwm::{
    CenterMaster, FloatingMasterLayout, Layout, Placement, Stack, StackLayout, TileLayout,
    TiledLayout, Viewport, WindowGeometry, WindowId,
};

fn window_stack(ids: &[u32]) -> Stack<WindowId> {
    let mut s: Stack<WindowId> = Stack::new();
    for id in ids {
        s.push(WindowId(*id));
    }
    s
}

fn vp(width: u32, height: u32) -> Viewport {
    Viewport { x: 0, y: 0, width, height }
}

fn geometry_of(p: &Placement) -> WindowGeometry {
    match p {
        Placement::Visible(g) => *g,
        Placement::VisibleRaised(g) => *g,
        Placement::Hidden => panic!("expected a visible placement"),
    }
}

#[test]
fn tile_two_windows_account_for_full_width() {
    // On a 1000 by 1000 viewport with two windows, at the default ratio,
    // master width + peer width + both outer gaps fill the width exactly.
    let layout = TileLayout::new("tile", 5, 20);
    let stack = window_stack(&[1, 2]);
    let placements = layout.layout(&vp(1000, 1000), &stack, &None);
    assert_eq!(placements.len(), 2);
    let master = geometry_of(&placements[0].1);
    let peer = geometry_of(&placements[1].1);
    assert_eq!(master.width, 500 + 160 - 20);
    assert_eq!(peer.width, 500 - 160 - 20);
    assert_eq!(master.width + peer.width + 2 * 20, 1000);
}

#[test]
fn tile_master_is_the_focused_window_without_cached_master() {
    let layout = TileLayout::new("tile", 0, 0);
    let stack = window_stack(&[1, 2, 3]);
    let placements = layout.layout(&vp(1000, 1000), &stack, &None);
    // The focused window is 3 (the last pushed); it is placed first.
    assert_eq!(placements[0].0, WindowId(3));
    assert_eq!(placements[1].0, WindowId(1));
    assert_eq!(placements[2].0, WindowId(2));
}

#[test]
fn tile_exact_geometry_without_gaps() {
    let layout = TileLayout::new("tile", 0, 0);
    let stack = window_stack(&[1, 2, 3]);
    let placements = layout.layout(&vp(1000, 800), &stack, &Some(WindowId(1)));
    let master = geometry_of(&placements[0].1);
    assert_eq!((master.x, master.y, master.width, master.height), (0, 0, 660, 800));
    // Two peers split the right column's 800 pixels evenly.
    let p0 = geometry_of(&placements[1].1);
    let p1 = geometry_of(&placements[2].1);
    assert_eq!((p0.x, p0.y, p0.width, p0.height), (660, 0, 340, 400));
    assert_eq!((p1.x, p1.y, p1.width, p1.height), (660, 400, 340, 400));
}

#[test]
fn tile_single_window_fills_viewport() {
    let layout = TileLayout::new("tile", 5, 20);
    let stack = window_stack(&[7]);
    let viewport = Viewport { x: 3, y: 4, width: 600, height: 400 };
    let placements = layout.layout(&viewport, &stack, &None);
    assert_eq!(placements.len(), 1);
    assert_eq!(
        geometry_of(&placements[0].1),
        WindowGeometry { x: 3, y: 4, width: 600, height: 400 }
    );
}

#[test]
fn tile_empty_stack_places_nothing() {
    let layout = TileLayout::new("tile", 5, 20);
    let stack = window_stack(&[]);
    assert!(layout.layout(&vp(1000, 1000), &stack, &None).is_empty());
}

#[test]
fn tile_master_adjustment_clamps_at_an_eighth() {
    let mut layout = TileLayout::new("tile", 0, 0);
    let viewport = vp(1000, 1000);
    // The clamp bound is 1000/2 - 1000/8 = 375.
    layout.increase_master(&viewport, 160);
    assert_eq!(layout.resized_width, 320);
    layout.increase_master(&viewport, 160);
    assert_eq!(layout.resized_width, 375);
    for _ in 0..10 {
        layout.decrease_master(&viewport, 160);
    }
    assert_eq!(layout.resized_width, -375);
}

#[test]
fn tile_gap_adjustments_floor_at_zero() {
    let mut layout = TileLayout::new("tile", 1, 0);
    assert!(!layout.decrease_innergaps());
    assert_eq!(layout.innergaps, 0);
    // A gap already at zero is rejected, not floored below zero.
    assert!(layout.decrease_innergaps());
    assert_eq!(layout.innergaps, 0);
    assert!(layout.decrease_outergaps());
    layout.increase_outergaps();
    assert_eq!(layout.outergaps, 1);
    layout.increase_innergaps();
    assert_eq!(layout.innergaps, 1);
}

#[test]
fn stack_layout_shows_exactly_the_focused_window() {
    // With three windows, exactly one is visible at any time, and rotating
    // the focus changes which.
    let layout = StackLayout::new("stack");
    let mut stack = window_stack(&[1, 2, 3]);
    let viewport = vp(800, 600);
    let placements = layout.layout(&viewport, &stack, &None);
    assert_eq!(placements.len(), 3);
    let visible: Vec<WindowId> = placements
        .iter()
        .filter(|(_, p)| *p != Placement::Hidden)
        .map(|(w, _)| *w)
        .collect();
    assert_eq!(visible, vec![WindowId(3)]);
    assert_eq!(
        placements[2].1,
        Placement::Visible(WindowGeometry { x: 0, y: 0, width: 800, height: 600 })
    );

    stack.focus_next();
    let placements2 = layout.layout(&viewport, &stack, &None);
    let visible2: Vec<WindowId> = placements2
        .iter()
        .filter(|(_, p)| *p != Placement::Hidden)
        .map(|(w, _)| *w)
        .collect();
    assert_eq!(visible2, vec![WindowId(1)]);
    assert_ne!(visible, visible2);
}

#[test]
fn tiled_rows_divide_the_height() {
    let layout = TiledLayout::new("tiled", 10);
    let stack = window_stack(&[1, 2]);
    let placements = layout.layout(&vp(1000, 610), &stack, &None);
    // Row height is (610 - 10) / 2 - 10 = 290.
    let g0 = geometry_of(&placements[0].1);
    let g1 = geometry_of(&placements[1].1);
    assert_eq!((g0.x, g0.y, g0.height), (10, 10, 290));
    assert_eq!((g1.x, g1.y, g1.height), (10, 310, 290));
    // The width loses twenty-two paddings.
    assert_eq!(g0.width, 1000 - 22 * 10);
}

#[test]
fn floating_master_floats_the_first_window_raised() {
    let layout = FloatingMasterLayout::new("floating");
    let stack = window_stack(&[1, 2, 3]);
    let placements = layout.layout(&vp(1000, 600), &stack, &None);
    // The first element of the stack is the floating master, raised.
    assert_eq!(placements[0].0, WindowId(1));
    assert_eq!(
        placements[0].1,
        Placement::VisibleRaised(WindowGeometry { x: 150, y: 50, width: 700, height: 500 })
    );
    // Peers share one row: the first peer takes the full width, the second
    // half of it, offset by its own share.
    assert_eq!(placements[1].0, WindowId(2));
    assert_eq!(
        placements[1].1,
        Placement::Visible(WindowGeometry { x: 0, y: 0, width: 1000, height: 600 })
    );
    assert_eq!(placements[2].0, WindowId(3));
    assert_eq!(
        placements[2].1,
        Placement::Visible(WindowGeometry { x: 500, y: 0, width: 500, height: 600 })
    );
}

#[test]
fn center_master_falls_back_to_tile_below_three_windows() {
    let cm = CenterMaster::new("c_master", 0, 0);
    let tile = TileLayout::new("c_master", 0, 0);
    let stack = window_stack(&[1, 2]);
    let viewport = vp(1000, 800);
    let from_cm = cm.layout(&viewport, &stack, &None);
    let from_tile = tile.layout(&viewport, &stack, &Some(WindowId(2)));
    assert_eq!(from_cm, from_tile);
}

#[test]
fn center_master_centres_the_master_and_alternates_peers() {
    let cm = CenterMaster::new("c_master", 0, 0);
    let stack = window_stack(&[1, 2, 3]);
    let placements = cm.layout(&vp(1000, 1000), &stack, &None);
    // Master is the focused window 3, centred: base width 562 minus twice
    // the offset 160 gives 242, at x = (1000 - 242) / 2.
    assert_eq!(placements[0].0, WindowId(3));
    let master = geometry_of(&placements[0].1);
    assert_eq!((master.x, master.y, master.width, master.height), (379, 0, 242, 1000));
    // Peer 1 goes to the left sub-column, peer 2 to the right.
    assert_eq!(placements[1].0, WindowId(1));
    let left = geometry_of(&placements[1].1);
    assert_eq!((left.x, left.y, left.width, left.height), (0, 0, 379, 1000));
    assert_eq!(placements[2].0, WindowId(2));
    let right = geometry_of(&placements[2].1);
    assert_eq!((right.x, right.y, right.width, right.height), (621, 0, 379, 1000));
}

#[test]
fn layout_enum_dispatches_by_name() {
    let l1 = Layout::Tile(TileLayout::new("tile", 5, 20));
    let l2 = Layout::Stack(StackLayout::new("stack"));
    assert_eq!(l1.name().as_str(), "tile");
    assert_eq!(l2.name().as_str(), "stack");
}

#[test]
fn gap_caps_keep_parameters_in_range() {
    let l = TileLayout::new("tile", 70000, 80000);
    assert_eq!(l.innergaps, 0xFFFF);
    assert_eq!(l.outergaps, 0xFFFF);
}
