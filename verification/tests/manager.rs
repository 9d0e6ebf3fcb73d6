use volanwm::{
    Command, Effect, Event, KeyCombo, Layout, ModKey, StackLayout, Strut, TileLayout, Volan,
    WindowId, WindowType, WmError, WorkSpaceBuilder,
};

fn layouts() -> Vec<Layout> {
    vec![
        Layout::Tile(TileLayout::new("tile", 0, 0)),
        Layout::Stack(StackLayout::new("stack")),
    ]
}

fn manager() -> Volan {
    let defs = vec![
        WorkSpaceBuilder::new("alpha", "tile"),
        WorkSpaceBuilder::new("beta", "tile"),
    ];
    let mut wm = Volan::new(Vec::new(), defs, &layouts());
    wm.startup(Vec::new(), 1920, 1080);
    wm
}

fn normal_types() -> Vec<WindowType> {
    vec![WindowType::Normal]
}

#[test]
fn managing_a_window_adds_it_to_the_current_workspace() {
    let mut wm = manager();
    let effects = wm
        .manage_window(WindowId(1), &normal_types(), None, 1920, 1080)
        .expect("fresh window must be accepted");
    assert_eq!(effects[0], Effect::EnableKeyEvents(WindowId(1)));
    assert_eq!(effects[1], Effect::Track(WindowId(1)));
    assert!(wm.group().contains(&WindowId(1)));
}

#[test]
fn managing_twice_is_refused_and_leaves_one_owner() {
    // The second request for the same handle is refused with a reported
    // error and no side effect: the window stays in exactly one workspace.
    let mut wm = manager();
    wm.manage_window(WindowId(1), &normal_types(), None, 1920, 1080).unwrap();
    let second = wm.manage_window(WindowId(1), &normal_types(), None, 1920, 1080);
    assert_eq!(second, Err(WmError::AlreadyManaged));
    assert!(wm.group().contains(&WindowId(1)));
    // The other workspace does not hold it.
    wm.switch_group(&String::from("beta"), 1920, 1080).unwrap();
    assert!(!wm.group().contains(&WindowId(1)));
}

#[test]
fn dock_windows_go_to_the_screen_tracker() {
    let mut wm = manager();
    let effects = wm
        .manage_window(
            WindowId(5),
            &vec![WindowType::Dock],
            Some(Strut { left: 0, right: 0, top: 40, bottom: 0 }),
            1920,
            1080,
        )
        .unwrap();
    assert_eq!(effects[1], Effect::MapWindow(WindowId(5)));
    // The dock joined no workspace, and a second management is refused.
    assert!(!wm.group().contains(&WindowId(5)));
    assert_eq!(
        wm.manage_window(WindowId(5), &normal_types(), None, 1920, 1080),
        Err(WmError::AlreadyManaged)
    );
}

#[test]
fn unmanaging_releases_the_window() {
    let mut wm = manager();
    wm.manage_window(WindowId(1), &normal_types(), None, 1920, 1080).unwrap();
    wm.unmanage_window(&WindowId(1), 1920, 1080);
    assert!(!wm.group().contains(&WindowId(1)));
    // The handle may be managed afresh afterwards.
    assert!(wm.manage_window(WindowId(1), &normal_types(), None, 1920, 1080).is_ok());
}

#[test]
fn switching_to_an_unknown_workspace_is_refused() {
    let mut wm = manager();
    let r = wm.switch_group(&String::from("nowhere"), 1920, 1080);
    assert_eq!(r, Err(WmError::NoSuchWorkspace));
    assert_eq!(wm.group().name().as_str(), "alpha");
}

#[test]
fn switching_to_the_current_workspace_does_nothing() {
    let mut wm = manager();
    let effects = wm.switch_group(&String::from("alpha"), 1920, 1080).unwrap();
    assert!(effects.is_empty());
}

#[test]
fn switching_hides_the_old_workspace_and_publishes_the_order() {
    let mut wm = manager();
    wm.manage_window(WindowId(1), &normal_types(), None, 1920, 1080).unwrap();
    let effects = wm.switch_group(&String::from("beta"), 1920, 1080).unwrap();
    assert_eq!(effects[0], Effect::Hide(WindowId(1)));
    match effects.last() {
        Some(Effect::PublishDesktops(names)) => {
            assert_eq!(names, &vec![String::from("alpha"), String::from("beta")]);
        },
        other => panic!("expected a desktop publication, got {:?}", other),
    }
    assert_eq!(wm.group().name().as_str(), "beta");
}

#[test]
fn moving_to_a_nonexistent_workspace_loses_the_window() {
    // The documented defect: the window leaves its source workspace and is
    // added nowhere; the loss is reported, not fatal.
    let mut wm = manager();
    wm.manage_window(WindowId(1), &normal_types(), None, 1920, 1080).unwrap();
    let (_, lost) = wm.move_focused_to_group(&String::from("nonexistent"));
    assert!(lost);
    assert!(!wm.group().contains(&WindowId(1)));
    wm.switch_group(&String::from("beta"), 1920, 1080).unwrap();
    assert!(!wm.group().contains(&WindowId(1)));
}

#[test]
fn moving_to_an_existing_workspace_transfers_the_window() {
    let mut wm = manager();
    wm.manage_window(WindowId(1), &normal_types(), None, 1920, 1080).unwrap();
    let (effects, lost) = wm.move_focused_to_group(&String::from("beta"));
    assert!(!lost);
    assert!(effects.contains(&Effect::Hide(WindowId(1))));
    assert!(!wm.group().contains(&WindowId(1)));
    wm.switch_group(&String::from("beta"), 1920, 1080).unwrap();
    assert!(wm.group().contains(&WindowId(1)));
}

#[test]
fn key_presses_run_the_bound_command() {
    let defs = vec![WorkSpaceBuilder::new("alpha", "tile")];
    let keys = vec![(vec![ModKey::Mod1], 0x77u32, Command::CloseFocused)];
    let mut wm = Volan::new(keys, defs, &layouts());
    wm.startup(Vec::new(), 1920, 1080);
    wm.manage_window(WindowId(1), &normal_types(), None, 1920, 1080).unwrap();
    let effects = wm.on_key_press(KeyCombo { mod_mask: 8, keysym: 0x77 }, 1920, 1080);
    assert_eq!(effects, vec![Effect::Close(WindowId(1))]);
    // An unbound key does nothing.
    let none = wm.on_key_press(KeyCombo { mod_mask: 8, keysym: 0x78 }, 1920, 1080);
    assert!(none.is_empty());
}

#[test]
fn spawn_command_requests_a_process() {
    let defs = vec![WorkSpaceBuilder::new("alpha", "tile")];
    let mut wm = Volan::new(Vec::new(), defs, &layouts());
    wm.startup(Vec::new(), 1920, 1080);
    let cmd = Command::Spawn(String::from("alacritty"), vec![String::from("-e")]);
    let effects = wm.run_command(&cmd, 1920, 1080);
    assert_eq!(
        effects,
        vec![Effect::Spawn(String::from("alacritty"), vec![String::from("-e")])]
    );
}

#[test]
fn map_request_for_a_managed_window_refocuses_it() {
    let mut wm = manager();
    wm.manage_window(WindowId(1), &normal_types(), None, 1920, 1080).unwrap();
    wm.manage_window(WindowId(2), &normal_types(), None, 1920, 1080).unwrap();
    let effects = wm.on_map_request(WindowId(1), &normal_types(), None, 1920, 1080);
    assert_eq!(effects.last(), Some(&Effect::Focus(WindowId(1))));
    // Still exactly one owner.
    assert!(wm.group().contains(&WindowId(1)));
}

#[test]
fn unmap_notify_releases_the_window() {
    let mut wm = manager();
    wm.manage_window(WindowId(1), &normal_types(), None, 1920, 1080).unwrap();
    wm.on_unmap_notify(&WindowId(1), 1920, 1080);
    assert!(!wm.group().contains(&WindowId(1)));
}

#[test]
fn startup_adopts_existing_windows_and_publishes() {
    let defs = vec![WorkSpaceBuilder::new("alpha", "tile")];
    let mut wm = Volan::new(Vec::new(), defs, &layouts());
    let effects = wm.startup(
        vec![(WindowId(1), normal_types(), None), (WindowId(2), normal_types(), None)],
        1920,
        1080,
    );
    assert!(wm.group().contains(&WindowId(1)));
    assert!(wm.group().contains(&WindowId(2)));
    assert!(matches!(effects.last(), Some(Effect::PublishDesktops(_))));
}

#[test]
fn dispatch_routes_each_event_to_its_handler() {
    let mut wm = manager();
    // A map request for a fresh window manages it.
    wm.dispatch(
        Event::MapRequest(WindowId(1), normal_types(), None),
        1920,
        1080,
    );
    assert!(wm.group().contains(&WindowId(1)));
    // A key press with no binding does nothing.
    let none = wm.dispatch(
        Event::KeyPress(KeyCombo { mod_mask: 8, keysym: 0x61 }),
        1920,
        1080,
    );
    assert!(none.is_empty());
    // An unmap notification releases the window.
    wm.dispatch(Event::UnmapNotify(WindowId(1)), 1920, 1080);
    assert!(!wm.group().contains(&WindowId(1)));
    // A destroy notification for an unknown window is harmless.
    wm.dispatch(Event::DestroyNotify(WindowId(9)), 1920, 1080);
    // A pointer entry focuses a window of the current workspace.
    wm.dispatch(
        Event::MapRequest(WindowId(2), normal_types(), None),
        1920,
        1080,
    );
    wm.dispatch(
        Event::MapRequest(WindowId(3), normal_types(), None),
        1920,
        1080,
    );
    let effects = wm.dispatch(Event::EnterNotify(WindowId(2)), 1920, 1080);
    assert_eq!(effects.last(), Some(&Effect::Focus(WindowId(2))));
}
