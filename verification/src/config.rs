use vstd::prelude::*;

use crate::cmd::Command;
use crate::keys::ModKey;
use crate::text::{spec_split, split_pipe, str_eq};
use vstd::utf8::is_ascii_chars;

verus! {

/// A key symbol value, as the display protocol numbers them.
pub type XKeyValue = u32;

/// A parsed key binding: modifiers, key symbol, and the bound command.
pub type BoundCommand = (Vec<ModKey>, XKeyValue, Command);

/// A parsed workspace definition: its switch key, name and default layout.
pub type BoundWorkSpace = (ModKey, XKeyValue, String, String);

/// The gap sizes a configuration requests, in pixels.
#[derive(Clone, Copy, PartialEq, Eq, Structural, Debug)]
pub struct Gaps {
    pub inner: u32,
    pub outer: u32,
}

/// One key-binding entry of a configuration: the named action, the
/// pipe-separated modifier list, and the key symbol name.
#[derive(Debug)]
pub struct KeyBindingDefinition {
    pub function: String,
    pub masks: String,
    pub key: String,
}

/// One spawn-binding entry: the program, its pipe-separated arguments, and
/// the key that triggers it.
#[derive(Debug)]
pub struct SpawnBindingDefinition {
    pub command: String,
    pub args: String,
    pub key: String,
    pub masks: String,
}

/// One workspace definition entry.
#[derive(Debug)]
pub struct GroupDefinition {
    pub masks: String,
    pub key: String,
    pub name: String,
    pub layout: String,
}

/// A whole parsed configuration, as plain values: the surrounding program
/// is responsible for the textual encoding.
#[derive(Debug)]
pub struct Config {
    pub key_bindings: Vec<KeyBindingDefinition>,
    pub spawn_bindings: Vec<SpawnBindingDefinition>,
    pub work_spaces: Vec<GroupDefinition>,
    pub gaps: Gaps,
}

/// The named actions a key binding may invoke.
#[derive(Clone, Copy, PartialEq, Eq, Structural, Debug)]
pub enum ActionTypes {
    CloseFocused,
    FocusNext,
    FocusPrev,
    DecreaseMaster,
    IncreaseMaster,
    LayoutNext,
}

impl ActionTypes {
    /// The action a configuration word names, if any.
    pub open spec fn spec_from_str(s: Seq<char>) -> Option<ActionTypes> {
        if s == "CloseFocused"@ {
            Some(ActionTypes::CloseFocused)
        } else if s == "FocusNext"@ {
            Some(ActionTypes::FocusNext)
        } else if s == "FocusPrev"@ {
            Some(ActionTypes::FocusPrev)
        } else if s == "DecreaseMaster"@ {
            Some(ActionTypes::DecreaseMaster)
        } else if s == "IncreaseMaster"@ {
            Some(ActionTypes::IncreaseMaster)
        } else if s == "LayoutNext"@ {
            Some(ActionTypes::LayoutNext)
        } else {
            None
        }
    }

    /// Parses an action word; answers the error value exactly when the word
    /// names no action.
    pub fn from_str(s: &str) -> (r: Result<ActionTypes, ()>)
        ensures
            match r {
                Ok(a) => Self::spec_from_str(s@) == Some(a),
                Err(()) => Self::spec_from_str(s@) is None,
            },
    {
        if str_eq(s, "CloseFocused") {
            Ok(ActionTypes::CloseFocused)
        } else if str_eq(s, "FocusNext") {
            Ok(ActionTypes::FocusNext)
        } else if str_eq(s, "FocusPrev") {
            Ok(ActionTypes::FocusPrev)
        } else if str_eq(s, "DecreaseMaster") {
            Ok(ActionTypes::DecreaseMaster)
        } else if str_eq(s, "IncreaseMaster") {
            Ok(ActionTypes::IncreaseMaster)
        } else if str_eq(s, "LayoutNext") {
            Ok(ActionTypes::LayoutNext)
        } else {
            Err(())
        }
    }
}

/// The action at a table position, counted in the order the actions are
/// declared; used by configurations that list bindings positionally.
pub fn lookup_actiontypes_by_index(i: usize) -> (r: ActionTypes)
    requires
        i < 6,
    ensures
        r == seq![
            ActionTypes::CloseFocused,
            ActionTypes::FocusNext,
            ActionTypes::FocusPrev,
            ActionTypes::DecreaseMaster,
            ActionTypes::IncreaseMaster,
            ActionTypes::LayoutNext,
        ][i as int],
{
    if i == 0 {
        ActionTypes::CloseFocused
    } else if i == 1 {
        ActionTypes::FocusNext
    } else if i == 2 {
        ActionTypes::FocusPrev
    } else if i == 3 {
        ActionTypes::DecreaseMaster
    } else if i == 4 {
        ActionTypes::IncreaseMaster
    } else {
        ActionTypes::LayoutNext
    }
}

/// The command an action invokes.
pub open spec fn spec_cmd_of_action(a: ActionTypes) -> Command {
    match a {
        ActionTypes::CloseFocused => Command::CloseFocused,
        ActionTypes::FocusNext => Command::FocusNext,
        ActionTypes::FocusPrev => Command::FocusPrevious,
        ActionTypes::IncreaseMaster => Command::IncreaseMaster,
        ActionTypes::DecreaseMaster => Command::DecreaseMaster,
        ActionTypes::LayoutNext => Command::LayoutNext,
    }
}

pub fn get_cmd_based_on_action(action: &ActionTypes) -> (c: Command)
    ensures
        c == spec_cmd_of_action(*action),
{
    match action {
        ActionTypes::CloseFocused => crate::cmd::close_focused_window(),
        ActionTypes::FocusNext => crate::cmd::focus_next(),
        ActionTypes::FocusPrev => crate::cmd::focus_previous(),
        ActionTypes::IncreaseMaster => crate::cmd::increase_master(),
        ActionTypes::DecreaseMaster => crate::cmd::decrease_master(),
        ActionTypes::LayoutNext => crate::cmd::layout_next(),
    }
}

/// The key symbol a configuration word names, if any: the letters, the
/// digits, and the return, tab and space keys.
pub open spec fn spec_keysym_of(s: Seq<char>) -> Option<u32> {
    if s.len() != 4 && !(s == "XK_Return"@ || s == "XK_Tab"@ || s == "XK_space"@) {
        None
    } else if s == "XK_Return"@ {
        Some(0xff0d)
    } else if s == "XK_Tab"@ {
        Some(0xff09)
    } else if s == "XK_space"@ {
        Some(0x20)
    } else if s.take(3) == "XK_"@ && ('a' <= s[3] && s[3] <= 'z') {
        Some(s[3] as u32)
    } else if s.take(3) == "XK_"@ && ('0' <= s[3] && s[3] <= '9') {
        Some(s[3] as u32)
    } else {
        None
    }
}

/// Parses a key symbol name; the letter and digit symbols carry their
/// character's code, as the protocol's symbol tables define them.
pub fn safe_xk_parse(string: &str) -> (r: Result<u32, ()>)
    ensures
        match r {
            Ok(v) => spec_keysym_of(string@) == Some(v),
            Err(()) => spec_keysym_of(string@) is None,
        },
{
    if str_eq(string, "XK_Return") {
        proof {
            reveal_strlit("XK_Return");
        }
        return Ok(0xff0d);
    }
    if str_eq(string, "XK_Tab") {
        proof {
            reveal_strlit("XK_Tab");
        }
        return Ok(0xff09);
    }
    if str_eq(string, "XK_space") {
        proof {
            reveal_strlit("XK_space");
        }
        return Ok(0x20);
    }
    proof {
        reveal_strlit("XK_Return");
        reveal_strlit("XK_Tab");
        reveal_strlit("XK_space");
    }
    let bytes: &[u8] = string.as_bytes();
    if !string.is_ascii() || bytes.len() != 4 {
        proof {
            if is_ascii_chars(string@) {
                vstd::utf8::is_ascii_chars_encode_utf8(string@);
            }
            if string@.len() == 4 && !is_ascii_chars(string@) {
                let chars = string@;
                assert(spec_keysym_of(chars) is None) by {
                    if chars.take(3) == "XK_"@ {
                        reveal_strlit("XK_");
                        assert(chars[0] == 'X' && chars[1] == 'K' && chars[2] == '_') by {
                            assert(chars.take(3)[0] == chars[0]);
                            assert(chars.take(3)[1] == chars[1]);
                            assert(chars.take(3)[2] == chars[2]);
                        }
                        assert(!is_ascii_chars(chars)) by {}
                        assert(('a' <= chars[3] && chars[3] <= 'z') || ('0' <= chars[3] && chars[3]
                            <= '9') ==> is_ascii_chars(chars)) by {
                            assert(forall|i: int|
                                0 <= i < 4 ==> #[trigger] chars[i] == chars[0] || chars[i]
                                    == chars[1] || chars[i] == chars[2] || chars[i] == chars[3]);
                        }
                    }
                }
            }
        }
        return Err(());
    }
    proof {
        vstd::utf8::is_ascii_chars_encode_utf8(string@);
        assert(string@.len() == 4);
    }
    let b0 = bytes[0];
    let b1 = bytes[1];
    let b2 = bytes[2];
    let b3 = bytes[3];
    proof {
        assert(b0 == string@[0] as u8 && b1 == string@[1] as u8 && b2 == string@[2] as u8 && b3
            == string@[3] as u8);
        reveal_strlit("XK_");
        assert("XK_"@ =~= seq!['X', 'K', '_']);
    }
    if b0 == 0x58 && b1 == 0x4B && b2 == 0x5F && ((0x61 <= b3 && b3 <= 0x7A) || (0x30 <= b3 && b3
        <= 0x39)) {
        proof {
            let chars = string@;
            assert(chars[0] == 'X' && chars[1] == 'K' && chars[2] == '_') by {
                assert(chars[0] as u8 == 0x58 && chars[0] <= '\u{7f}');
                assert(chars[1] as u8 == 0x4B && chars[1] <= '\u{7f}');
                assert(chars[2] as u8 == 0x5F && chars[2] <= '\u{7f}');
            }
            assert(chars.take(3) =~= "XK_"@);
            assert(('a' <= chars[3] && chars[3] <= 'z') || ('0' <= chars[3] && chars[3] <= '9'))
                by {
                assert(chars[3] as u8 == b3 && chars[3] <= '\u{7f}');
            }
            assert(chars[3] as u32 == b3);
        }
        Ok(b3 as u32)
    } else {
        proof {
            let chars = string@;
            assert(spec_keysym_of(chars) is None) by {
                if chars.take(3) == "XK_"@ {
                    assert(chars[0] == 'X' && chars[1] == 'K' && chars[2] == '_') by {
                        assert(chars.take(3)[0] == chars[0]);
                        assert(chars.take(3)[1] == chars[1]);
                        assert(chars.take(3)[2] == chars[2]);
                    }
                    assert(b0 == 0x58 && b1 == 0x4B && b2 == 0x5F);
                    if 'a' <= chars[3] && chars[3] <= 'z' {
                        assert(0x61 <= b3 && b3 <= 0x7A);
                    }
                    if '0' <= chars[3] && chars[3] <= '9' {
                        assert(0x30 <= b3 && b3 <= 0x39);
                    }
                }
            }
        }
        Err(())
    }
}

/// The modifier a mask word selects: an unknown word falls back to the
/// first modifier, so a typo weakens a binding instead of dropping it.
pub open spec fn spec_mask_word(s: Seq<char>) -> ModKey {
    match ModKey::spec_from_str(s) {
        Some(k) => k,
        None => ModKey::Mod1,
    }
}

pub fn str_to_mask_key(str_mask: &str) -> (k: ModKey)
    ensures
        k == spec_mask_word(str_mask@),
{
    match ModKey::from_str(str_mask) {
        Ok(parsed) => parsed,
        Err(()) => ModKey::Mod1,
    }
}

/// The pieces of a pipe-separated configuration word list.
pub open spec fn spec_pieces(s: Seq<char>) -> Seq<Seq<char>> {
    if is_ascii_chars(s) {
        spec_split(s, '|')
    } else {
        seq![s]
    }
}

/// Splits a pipe-separated modifier list into its words.
pub fn split_mask_keys(pipe_separated_masks: String) -> (r: Vec<String>)
    ensures
        r@.map_values(|p: String| p@) == spec_pieces(pipe_separated_masks@),
        r@.len() >= 1,
{
    split_pipe(pipe_separated_masks.as_str())
}

/// Splits a pipe-separated argument list into its words.
pub fn split_args(pipe_separated_args: String) -> (r: Vec<String>)
    ensures
        r@.map_values(|p: String| p@) == spec_pieces(pipe_separated_args@),
        r@.len() >= 1,
{
    split_pipe(pipe_separated_args.as_str())
}

/// The modifiers a pipe-separated mask list selects, word for word.
pub open spec fn spec_mask_keys(s: Seq<char>) -> Seq<ModKey> {
    spec_pieces(s).map_values(|p: Seq<char>| spec_mask_word(p))
}

/// Parses a pipe-separated modifier list.
pub fn parse_mask_keys(mask: String) -> (r: Vec<ModKey>)
    ensures
        r@ == spec_mask_keys(mask@),
        r@.len() >= 1,
{
    let pieces = split_mask_keys(mask);
    let n = pieces.len();
    let mut r: Vec<ModKey> = Vec::new();
    let mut j: usize = 0;
    while j < n
        invariant
            n == pieces@.len(),
            j <= n,
            r@.len() == j,
            forall|i: int| 0 <= i < j ==> r@[i] == spec_mask_word((#[trigger] pieces@[i])@),
        decreases n - j,
    {
        r.push(str_to_mask_key(pieces[j].as_str()));
        j += 1;
    }
    proof {
        assert(r@ =~= pieces@.map_values(|p: String| p@).map_values(
            |p: Seq<char>| spec_mask_word(p),
        ));
    }
    r
}

/// Parses one modifier list and one key symbol name together; fails exactly
/// when the key symbol is unknown.
pub fn parse_mask_and_key(mask: String, xk_key: String) -> (r: Result<
    (Vec<ModKey>, XKeyValue),
    (),
>)
    ensures
        match r {
            Ok(p) => {
                &&& p.0@ == spec_mask_keys(mask@)
                &&& spec_keysym_of(xk_key@) == Some(p.1)
            },
            Err(()) => spec_keysym_of(xk_key@) is None,
        },
{
    let sym = safe_xk_parse(xk_key.as_str());
    match sym {
        Ok(v) => Ok((parse_mask_keys(mask), v)),
        Err(()) => Err(()),
    }
}

/// The gap sizes of a configuration.
pub fn get_gaps(config: &Config) -> (r: (u32, u32))
    ensures
        r == (config.gaps.inner, config.gaps.outer),
{
    (config.gaps.inner, config.gaps.outer)
}

/// The view-level shape of a parsed key binding.
pub open spec fn spec_keybinding_entry(e: KeyBindingDefinition) -> (Seq<ModKey>, u32, Command) {
    (
        spec_mask_keys(e.masks@),
        spec_keysym_of(e.key@).unwrap(),
        spec_cmd_of_action(ActionTypes::spec_from_str(e.function@).unwrap()),
    )
}

/// Whether a key-binding entry parses: its key symbol and action are known.
pub open spec fn spec_keybinding_ok(e: KeyBindingDefinition) -> bool {
    spec_keysym_of(e.key@) is Some && ActionTypes::spec_from_str(e.function@) is Some
}

/// The parsed key bindings, in order, with unparsable entries skipped.
pub open spec fn spec_parse_keybindings(entries: Seq<KeyBindingDefinition>) -> Seq<
    (Seq<ModKey>, u32, Command),
>
    decreases entries.len(),
{
    if entries.len() == 0 {
        Seq::empty()
    } else if spec_keybinding_ok(entries.last()) {
        spec_parse_keybindings(entries.drop_last()).push(spec_keybinding_entry(entries.last()))
    } else {
        spec_parse_keybindings(entries.drop_last())
    }
}

/// Parses the key-binding entries; a malformed entry is skipped, never
/// fatal, so one bad line does not cost the whole table.
pub fn parse_keybindings_from_config(key_bindings: &Vec<KeyBindingDefinition>) -> (r: Vec<
    BoundCommand,
>)
    ensures
        r@.map_values(|b: BoundCommand| (b.0@, b.1, b.2)) == spec_parse_keybindings(key_bindings@),
{
    let n = key_bindings.len();
    let mut r: Vec<BoundCommand> = Vec::new();
    let mut j: usize = 0;
    while j < n
        invariant
            n == key_bindings@.len(),
            j <= n,
            r@.map_values(|b: BoundCommand| (b.0@, b.1, b.2)) == spec_parse_keybindings(
                key_bindings@.take(j as int),
            ),
        decreases n - j,
    {
        let entry = &key_bindings[j];
        proof {
            assert(key_bindings@.take(j + 1 as int).drop_last() =~= key_bindings@.take(j as int));
            assert(key_bindings@.take(j + 1 as int).last() == key_bindings@[j as int]);
        }
        let parsed = parse_mask_and_key(entry.masks.clone(), entry.key.clone());
        match parsed {
            Ok((mods, sym)) => {
                match ActionTypes::from_str(entry.function.as_str()) {
                    Ok(action) => {
                        let cmd = get_cmd_based_on_action(&action);
                        r.push((mods, sym, cmd));
                        proof {
                            assert(r@.map_values(|b: BoundCommand| (b.0@, b.1, b.2))
                                =~= spec_parse_keybindings(key_bindings@.take(j + 1 as int)));
                        }
                    },
                    Err(()) => {},
                }
            },
            Err(()) => {},
        }
        j += 1;
    }
    proof {
        assert(key_bindings@.take(n as int) =~= key_bindings@);
    }
    r
}

/// Whether a spawn entry parses: its key symbol is known.
pub open spec fn spec_spawn_ok(e: SpawnBindingDefinition) -> bool {
    spec_keysym_of(e.key@) is Some
}

/// The view-level shape of a parsed spawn binding.
pub open spec fn spec_spawn_entry(e: SpawnBindingDefinition) -> (
    Seq<ModKey>,
    u32,
    Seq<char>,
    Seq<Seq<char>>,
) {
    (spec_mask_keys(e.masks@), spec_keysym_of(e.key@).unwrap(), e.command@, spec_pieces(e.args@))
}

/// The parsed spawn bindings, in order, with unparsable entries skipped.
pub open spec fn spec_parse_spawns(entries: Seq<SpawnBindingDefinition>) -> Seq<
    (Seq<ModKey>, u32, Seq<char>, Seq<Seq<char>>),
>
    decreases entries.len(),
{
    if entries.len() == 0 {
        Seq::empty()
    } else if spec_spawn_ok(entries.last()) {
        spec_parse_spawns(entries.drop_last()).push(spec_spawn_entry(entries.last()))
    } else {
        spec_parse_spawns(entries.drop_last())
    }
}

/// The view of one spawn bound command.
pub open spec fn spec_spawn_view(b: BoundCommand) -> (Seq<ModKey>, u32, Seq<char>, Seq<Seq<char>>) {
    (
        b.0@,
        b.1,
        match b.2 {
            Command::Spawn(c, _) => c@,
            _ => Seq::empty(),
        },
        match b.2 {
            Command::Spawn(_, a) => a@.map_values(|p: String| p@),
            _ => Seq::empty(),
        },
    )
}

/// Parses the spawn-binding entries; each one binds a key to starting the
/// named program with its pipe-separated arguments.
pub fn parse_spawn_bindings_from_config(spawn_bindings: &Vec<SpawnBindingDefinition>) -> (r: Vec<
    BoundCommand,
>)
    ensures
        r@.map_values(|b: BoundCommand| spec_spawn_view(b)) == spec_parse_spawns(spawn_bindings@),
        forall|i: int| 0 <= i < r@.len() ==> (#[trigger] r@[i]).2 is Spawn,
{
    let n = spawn_bindings.len();
    let mut r: Vec<BoundCommand> = Vec::new();
    let mut j: usize = 0;
    while j < n
        invariant
            n == spawn_bindings@.len(),
            j <= n,
            r@.map_values(|b: BoundCommand| spec_spawn_view(b)) == spec_parse_spawns(
                spawn_bindings@.take(j as int),
            ),
            forall|i: int| 0 <= i < r@.len() ==> (#[trigger] r@[i]).2 is Spawn,
        decreases n - j,
    {
        let entry = &spawn_bindings[j];
        proof {
            assert(spawn_bindings@.take(j + 1 as int).drop_last() =~= spawn_bindings@.take(
                j as int,
            ));
            assert(spawn_bindings@.take(j + 1 as int).last() == spawn_bindings@[j as int]);
        }
        let parsed = parse_mask_and_key(entry.masks.clone(), entry.key.clone());
        match parsed {
            Ok((mods, sym)) => {
                let args = split_args(entry.args.clone());
                let cmd = crate::cmd::spawn(entry.command.clone(), args);
                r.push((mods, sym, cmd));
                proof {
                    assert(r@.map_values(|b: BoundCommand| spec_spawn_view(b))
                        =~= spec_parse_spawns(spawn_bindings@.take(j + 1 as int)));
                }
            },
            Err(()) => {},
        }
        j += 1;
    }
    proof {
        assert(spawn_bindings@.take(n as int) =~= spawn_bindings@);
    }
    r
}

/// All bound commands of a configuration: the key bindings, then the spawn
/// bindings.
pub fn get_bound_commands(config: &Config) -> (r: Vec<BoundCommand>)
    ensures
        ({
            let kb = spec_parse_keybindings(config.key_bindings@);
            let sp = spec_parse_spawns(config.spawn_bindings@);
            &&& r@.len() == kb.len() + sp.len()
            &&& r@.take(kb.len() as int).map_values(|b: BoundCommand| (b.0@, b.1, b.2)) == kb
            &&& r@.skip(kb.len() as int).map_values(|b: BoundCommand| spec_spawn_view(b)) == sp
        }),
{
    let mut key_bindings = parse_keybindings_from_config(&config.key_bindings);
    let mut spawn_bindings = parse_spawn_bindings_from_config(&config.spawn_bindings);
    let ghost kb_views = key_bindings@.map_values(|b: BoundCommand| (b.0@, b.1, b.2));
    let ghost kb_len = key_bindings@.len();
    let ghost sp0 = spawn_bindings@;
    key_bindings.append(&mut spawn_bindings);
    proof {
        assert(key_bindings@.take(kb_len as int) =~= key_bindings@.subrange(0, kb_len as int));
        assert(key_bindings@.take(kb_len as int).map_values(|b: BoundCommand| (b.0@, b.1, b.2))
            =~= kb_views);
        assert(key_bindings@.skip(kb_len as int) =~= sp0);
    }
    key_bindings
}

/// Whether a workspace definition parses: its key symbol is known.
pub open spec fn spec_workspace_ok(e: GroupDefinition) -> bool {
    spec_keysym_of(e.key@) is Some
}

/// The view-level shape of a parsed workspace definition: its first mask
/// word, key symbol, name and default layout.
pub open spec fn spec_workspace_entry(e: GroupDefinition) -> (ModKey, u32, Seq<char>, Seq<char>) {
    (spec_mask_keys(e.masks@)[0], spec_keysym_of(e.key@).unwrap(), e.name@, e.layout@)
}

/// The parsed workspace definitions, in order, with unparsable entries
/// skipped.
pub open spec fn spec_parse_workspaces(entries: Seq<GroupDefinition>) -> Seq<
    (ModKey, u32, Seq<char>, Seq<char>),
>
    decreases entries.len(),
{
    if entries.len() == 0 {
        Seq::empty()
    } else if spec_workspace_ok(entries.last()) {
        spec_parse_workspaces(entries.drop_last()).push(spec_workspace_entry(entries.last()))
    } else {
        spec_parse_workspaces(entries.drop_last())
    }
}

/// Parses one workspace definition: the first mask word carries the
/// binding's modifier; fails exactly when the key symbol is unknown.
pub fn parse_work_space(work_space: &GroupDefinition) -> (r: Result<BoundWorkSpace, ()>)
    ensures
        match r {
            Ok(b) => {
                &&& spec_workspace_ok(*work_space)
                &&& b.0 == spec_mask_keys(work_space.masks@)[0]
                &&& spec_keysym_of(work_space.key@) == Some(b.1)
                &&& b.2@ == work_space.name@
                &&& b.3@ == work_space.layout@
            },
            Err(()) => !spec_workspace_ok(*work_space),
        },
{
    let masks = parse_mask_keys(work_space.masks.clone());
    let sym = safe_xk_parse(work_space.key.as_str());
    match sym {
        Ok(v) => Ok((masks[0], v, work_space.name.clone(), work_space.layout.clone())),
        Err(()) => Err(()),
    }
}

/// The parsed workspace definitions of a configuration's entry list.
pub fn get_parsed_group_definitions(work_spaces: &Vec<GroupDefinition>) -> (r: Vec<BoundWorkSpace>)
    ensures
        r@.map_values(|b: BoundWorkSpace| (b.0, b.1, b.2@, b.3@)) == spec_parse_workspaces(
            work_spaces@,
        ),
{
    let n = work_spaces.len();
    let mut r: Vec<BoundWorkSpace> = Vec::new();
    let mut j: usize = 0;
    while j < n
        invariant
            n == work_spaces@.len(),
            j <= n,
            r@.map_values(|b: BoundWorkSpace| (b.0, b.1, b.2@, b.3@)) == spec_parse_workspaces(
                work_spaces@.take(j as int),
            ),
        decreases n - j,
    {
        proof {
            assert(work_spaces@.take(j + 1 as int).drop_last() =~= work_spaces@.take(j as int));
            assert(work_spaces@.take(j + 1 as int).last() == work_spaces@[j as int]);
        }
        let parsed = parse_work_space(&work_spaces[j]);
        match parsed {
            Ok(b) => {
                r.push(b);
                proof {
                    assert(r@.map_values(|b: BoundWorkSpace| (b.0, b.1, b.2@, b.3@))
                        =~= spec_parse_workspaces(work_spaces@.take(j + 1 as int)));
                }
            },
            Err(()) => {},
        }
        j += 1;
    }
    proof {
        assert(work_spaces@.take(n as int) =~= work_spaces@);
    }
    r
}

/// The parsed workspace definitions of a whole configuration.
pub fn get_bound_workspaces(config: &Config) -> (r: Vec<BoundWorkSpace>)
    ensures
        r@.map_values(|b: BoundWorkSpace| (b.0, b.1, b.2@, b.3@)) == spec_parse_workspaces(
            config.work_spaces@,
        ),
{
    get_parsed_group_definitions(&config.work_spaces)
}

} // verus!
