use volanwm::{
    gen_workspaces, get_bound_commands, get_bound_workspaces, get_gaps,
    get_parsed_group_definitions, lookup_actiontypes_by_index, parse_mask_and_key, parse_mask_keys,
    parse_work_space, safe_xk_parse, split_args, split_mask_keys, str_to_mask_key, ActionTypes,
    Command, Config, Gaps, GroupDefinition, KeyBindingDefinition, ModKey, SpawnBindingDefinition,
};

fn sample_config() -> Config {
    Config {
        key_bindings: vec![
            KeyBindingDefinition {
                function: String::from("CloseFocused"),
                masks: String::from("Mod1"),
                key: String::from("XK_w"),
            },
            KeyBindingDefinition {
                function: String::from("FocusNext"),
                masks: String::from("Mod1"),
                key: String::from("XK_j"),
            },
            KeyBindingDefinition {
                function: String::from("NoSuchAction"),
                masks: String::from("Mod1"),
                key: String::from("XK_k"),
            },
        ],
        spawn_bindings: vec![SpawnBindingDefinition {
            command: String::from("mkdir"),
            args: String::from("-p|dir1|dir2"),
            key: String::from("XK_n"),
            masks: String::from("Mod1|Shift"),
        }],
        work_spaces: vec![
            GroupDefinition {
                masks: String::from("Mod1"),
                key: String::from("XK_a"),
                name: String::from("alpha"),
                layout: String::from("c_master"),
            },
            GroupDefinition {
                masks: String::from("Mod1"),
                key: String::from("XK_not_a_key"),
                name: String::from("broken"),
                layout: String::from("tile"),
            },
        ],
        gaps: Gaps { inner: 5, outer: 20 },
    }
}

#[test]
fn keysyms_carry_their_character_codes() {
    assert_eq!(safe_xk_parse("XK_a"), Ok(0x61));
    assert_eq!(safe_xk_parse("XK_z"), Ok(0x7a));
    assert_eq!(safe_xk_parse("XK_0"), Ok(0x30));
    assert_eq!(safe_xk_parse("XK_9"), Ok(0x39));
    assert_eq!(safe_xk_parse("XK_Return"), Ok(0xff0d));
    assert_eq!(safe_xk_parse("XK_Tab"), Ok(0xff09));
    assert_eq!(safe_xk_parse("XK_space"), Ok(0x20));
}

#[test]
fn unknown_keysym_names_are_errors() {
    assert_eq!(safe_xk_parse("XK_A"), Err(()));
    assert_eq!(safe_xk_parse("XK_!"), Err(()));
    assert_eq!(safe_xk_parse("anything"), Err(()));
    assert_eq!(safe_xk_parse(""), Err(()));
}

#[test]
fn mask_lists_split_on_pipes() {
    let pieces = split_mask_keys(String::from("Mod1|Shift"));
    assert_eq!(pieces, vec![String::from("Mod1"), String::from("Shift")]);
    assert_eq!(
        parse_mask_keys(String::from("Mod1|Shift")),
        vec![ModKey::Mod1, ModKey::Shift]
    );
    assert_eq!(parse_mask_keys(String::from("Control")), vec![ModKey::Control]);
}

#[test]
fn unknown_mask_words_default_to_the_first_modifier() {
    assert_eq!(str_to_mask_key("Shift"), ModKey::Shift);
    assert_eq!(str_to_mask_key("Bogus"), ModKey::Mod1);
    assert_eq!(parse_mask_keys(String::from("Bogus|Shift")), vec![ModKey::Mod1, ModKey::Shift]);
}

#[test]
fn mask_and_key_parse_together() {
    let parsed = parse_mask_and_key(String::from("Mod1|Control"), String::from("XK_p")).unwrap();
    assert_eq!(parsed.0, vec![ModKey::Mod1, ModKey::Control]);
    assert_eq!(parsed.1, 0x70);
    assert_eq!(
        parse_mask_and_key(String::from("Mod1"), String::from("XK_??")),
        Err(())
    );
}

#[test]
fn argument_lists_split_on_pipes() {
    assert_eq!(
        split_args(String::from("-p|dir1|dir2")),
        vec![String::from("-p"), String::from("dir1"), String::from("dir2")]
    );
    assert_eq!(split_args(String::from("")), vec![String::from("")]);
    assert_eq!(
        split_args(String::from("a||b")),
        vec![String::from("a"), String::from(""), String::from("b")]
    );
}

#[test]
fn actions_parse_by_name() {
    assert_eq!(ActionTypes::from_str("CloseFocused"), Ok(ActionTypes::CloseFocused));
    assert_eq!(ActionTypes::from_str("LayoutNext"), Ok(ActionTypes::LayoutNext));
    assert_eq!(ActionTypes::from_str("Nonsense"), Err(()));
}

#[test]
fn action_table_is_indexed_in_declaration_order() {
    assert_eq!(lookup_actiontypes_by_index(0), ActionTypes::CloseFocused);
    assert_eq!(lookup_actiontypes_by_index(3), ActionTypes::DecreaseMaster);
    assert_eq!(lookup_actiontypes_by_index(5), ActionTypes::LayoutNext);
}

#[test]
fn gaps_come_straight_from_the_configuration() {
    assert_eq!(get_gaps(&sample_config()), (5, 20));
}

#[test]
fn bound_commands_skip_malformed_entries() {
    let bound = get_bound_commands(&sample_config());
    // Two good key bindings, one unknown action skipped, one spawn binding.
    assert_eq!(bound.len(), 3);
    assert_eq!(bound[0].2, Command::CloseFocused);
    assert_eq!(bound[1].2, Command::FocusNext);
    assert_eq!(
        bound[2].2,
        Command::Spawn(
            String::from("mkdir"),
            vec![String::from("-p"), String::from("dir1"), String::from("dir2")]
        )
    );
    assert_eq!(bound[2].0, vec![ModKey::Mod1, ModKey::Shift]);
}

#[test]
fn workspace_definitions_skip_bad_keys() {
    let config = sample_config();
    let bound = get_bound_workspaces(&config);
    assert_eq!(bound.len(), 1);
    assert_eq!(bound[0].0, ModKey::Mod1);
    assert_eq!(bound[0].1, 0x61);
    assert_eq!(bound[0].2, String::from("alpha"));
    assert_eq!(bound[0].3, String::from("c_master"));
    let same = get_parsed_group_definitions(&config.work_spaces);
    assert_eq!(same.len(), 1);
}

#[test]
fn parse_work_space_reports_unknown_keys() {
    let bad = GroupDefinition {
        masks: String::from("Mod1"),
        key: String::from("XK_##"),
        name: String::from("x"),
        layout: String::from("tile"),
    };
    assert_eq!(parse_work_space(&bad), Err(()));
}

#[test]
fn generated_workspace_bindings_come_in_pairs() {
    let defs = vec![(ModKey::Mod1, 0x61u32, String::from("alpha"), String::from("tile"))];
    let extra = vec![(vec![ModKey::Mod1], 0x77u32, Command::CloseFocused)];
    let (bound, builders) = gen_workspaces(extra, defs);
    assert_eq!(bound.len(), 3);
    assert_eq!(bound[0].0, vec![ModKey::Mod1, ModKey::Shift]);
    assert_eq!(bound[0].2, Command::MoveWindowToGroup(String::from("alpha")));
    assert_eq!(bound[1].0, vec![ModKey::Mod1]);
    assert_eq!(bound[1].2, Command::SwitchGroup(String::from("alpha")));
    assert_eq!(bound[2].2, Command::CloseFocused);
    assert_eq!(builders.len(), 1);
}

#[test]
fn lazy_constructors_build_their_commands() {
    assert_eq!(volanwm::cmd::lazy::close_focused_window(), Command::CloseFocused);
    assert_eq!(volanwm::cmd::lazy::layout_next(), Command::LayoutNext);
    assert_eq!(
        volanwm::cmd::lazy::switch_group(String::from("alpha")),
        Command::SwitchGroup(String::from("alpha"))
    );
    assert_eq!(
        volanwm::cmd::lazy::spawn(String::from("ls"), vec![String::from("-l")]),
        Command::Spawn(String::from("ls"), vec![String::from("-l")])
    );
    assert_eq!(
        volanwm::cmd::lazy::move_window_to_group(String::from("beta")),
        Command::MoveWindowToGroup(String::from("beta"))
    );
}
