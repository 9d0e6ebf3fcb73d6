use vstd::prelude::*;

pub mod lazy;

pub use lazy::{
    close_focused_window, decrease_innergaps, decrease_master, decrease_outergaps, focus_next,
    focus_previous, increase_innergaps, increase_master, increase_outergaps, layout_next,
    move_window_to_group, spawn, switch_group,
};

verus! {

/// One operation a key binding can ask of the manager.  A command either
/// changes manager state, asks the connection collaborator for something, or
/// both; the manager reports a descriptive failure instead of crashing.
#[derive(Debug, PartialEq)]
pub enum Command {
    CloseFocused,
    FocusNext,
    FocusPrevious,
    IncreaseMaster,
    DecreaseMaster,
    IncreaseInnerGaps,
    DecreaseInnerGaps,
    IncreaseOuterGaps,
    DecreaseOuterGaps,
    LayoutNext,
    /// Start this program with these arguments, without waiting for it.
    Spawn(String, Vec<String>),
    /// Switch to the workspace of this name.
    SwitchGroup(String),
    /// Move the focused window to the workspace of this name.
    MoveWindowToGroup(String),
}

/// What a copy of a command preserves: everything, with a spawn's argument
/// list compared element for element.
pub open spec fn spec_cloned_command(a: Command, b: Command) -> bool {
    match a {
        Command::Spawn(c1, v1) => match b {
            Command::Spawn(c2, v2) => c1 == c2 && v1@ == v2@,
            _ => false,
        },
        _ => b == a,
    }
}

impl Clone for Command {
    fn clone(&self) -> (r: Self)
        ensures
            spec_cloned_command(*self, r),
    {
        match self {
            Command::CloseFocused => Command::CloseFocused,
            Command::FocusNext => Command::FocusNext,
            Command::FocusPrevious => Command::FocusPrevious,
            Command::IncreaseMaster => Command::IncreaseMaster,
            Command::DecreaseMaster => Command::DecreaseMaster,
            Command::IncreaseInnerGaps => Command::IncreaseInnerGaps,
            Command::DecreaseInnerGaps => Command::DecreaseInnerGaps,
            Command::IncreaseOuterGaps => Command::IncreaseOuterGaps,
            Command::DecreaseOuterGaps => Command::DecreaseOuterGaps,
            Command::LayoutNext => Command::LayoutNext,
            Command::Spawn(c, args) => Command::Spawn(c.clone(), clone_strings(args)),
            Command::SwitchGroup(n) => Command::SwitchGroup(n.clone()),
            Command::MoveWindowToGroup(n) => Command::MoveWindowToGroup(n.clone()),
        }
    }
}

/// An element-for-element copy of a string list.
pub(crate) fn clone_strings(v: &Vec<String>) -> (r: Vec<String>)
    ensures
        r@ == v@,
{
    let n = v.len();
    let mut r: Vec<String> = Vec::new();
    let mut j: usize = 0;
    while j < n
        invariant
            n == v@.len(),
            j <= n,
            r@ == v@.take(j as int),
        decreases n - j,
    {
        r.push(v[j].clone());
        proof {
            assert(r@ =~= v@.take(j + 1 as int));
        }
        j += 1;
    }
    proof {
        assert(v@.take(n as int) =~= v@);
    }
    r
}

} // verus!
