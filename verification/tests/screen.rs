use volanwm::{Screen, Strut, Viewport, WindowId};

#[test]
fn top_dock_shrinks_and_removal_restores_the_viewport() {
    // A dock reserving forty pixels on the top edge shrinks a 1920 by 1080
    // screen; removing it restores the original viewport.
    let mut screen = Screen::new();
    let original = screen.viewport(1920, 1080);
    assert_eq!(original, Viewport { x: 0, y: 0, width: 1920, height: 1080 });

    screen.add_dock(WindowId(1), Some(Strut { left: 0, right: 0, top: 40, bottom: 0 }));
    let shrunk = screen.viewport(1920, 1080);
    assert_eq!(shrunk, Viewport { x: 0, y: 40, width: 1920, height: 1040 });

    screen.remove_dock(&WindowId(1));
    assert_eq!(screen.viewport(1920, 1080), original);
}

#[test]
fn reservations_take_the_maximum_per_edge() {
    let mut screen = Screen::new();
    screen.add_dock(WindowId(1), Some(Strut { left: 10, right: 0, top: 30, bottom: 0 }));
    screen.add_dock(WindowId(2), Some(Strut { left: 25, right: 5, top: 10, bottom: 0 }));
    let v = screen.viewport(1000, 800);
    assert_eq!(v, Viewport { x: 25, y: 30, width: 1000 - 25 - 5, height: 800 - 30 });
}

#[test]
fn dock_without_strut_reserves_nothing() {
    let mut screen = Screen::new();
    screen.add_dock(WindowId(9), None);
    assert_eq!(screen.viewport(640, 480), Viewport { x: 0, y: 0, width: 640, height: 480 });
    assert!(screen.contains(&WindowId(9)));
    assert!(!screen.contains(&WindowId(8)));
}

#[test]
fn oversized_reservations_empty_the_viewport_instead_of_wrapping() {
    let mut screen = Screen::new();
    screen.add_dock(WindowId(1), Some(Strut { left: 600, right: 600, top: 0, bottom: 0 }));
    let v = screen.viewport(1000, 800);
    assert_eq!(v.width, 0);
    assert_eq!(v.height, 800);
}

#[test]
fn remove_dock_only_affects_the_named_window() {
    let mut screen = Screen::new();
    screen.add_dock(WindowId(1), Some(Strut { left: 0, right: 0, top: 40, bottom: 0 }));
    screen.add_dock(WindowId(2), Some(Strut { left: 0, right: 0, top: 0, bottom: 30 }));
    screen.remove_dock(&WindowId(1));
    assert!(!screen.contains(&WindowId(1)));
    assert!(screen.contains(&WindowId(2)));
    assert_eq!(
        screen.viewport(1920, 1080),
        Viewport { x: 0, y: 0, width: 1920, height: 1050 }
    );
}
