use vstd::prelude::*;

use crate::cmd::Command;

verus! {

/// Closes the currently focused window.
pub fn close_focused_window() -> (c: Command)
    ensures
        c == Command::CloseFocused,
{
    Command::CloseFocused
}

/// Moves the focus to the next window in the current workspace's stack.
pub fn focus_next() -> (c: Command)
    ensures
        c == Command::FocusNext,
{
    Command::FocusNext
}

/// Moves the focus to the previous window in the current workspace's stack.
pub fn focus_previous() -> (c: Command)
    ensures
        c == Command::FocusPrevious,
{
    Command::FocusPrevious
}

pub fn increase_master() -> (c: Command)
    ensures
        c == Command::IncreaseMaster,
{
    Command::IncreaseMaster
}

pub fn decrease_master() -> (c: Command)
    ensures
        c == Command::DecreaseMaster,
{
    Command::DecreaseMaster
}

pub fn increase_innergaps() -> (c: Command)
    ensures
        c == Command::IncreaseInnerGaps,
{
    Command::IncreaseInnerGaps
}

pub fn decrease_innergaps() -> (c: Command)
    ensures
        c == Command::DecreaseInnerGaps,
{
    Command::DecreaseInnerGaps
}

pub fn increase_outergaps() -> (c: Command)
    ensures
        c == Command::IncreaseOuterGaps,
{
    Command::IncreaseOuterGaps
}

pub fn decrease_outergaps() -> (c: Command)
    ensures
        c == Command::DecreaseOuterGaps,
{
    Command::DecreaseOuterGaps
}

/// Cycles to the next layout of the current workspace.
pub fn layout_next() -> (c: Command)
    ensures
        c == Command::LayoutNext,
{
    Command::LayoutNext
}

/// A command that spawns the given program each time it is invoked.
pub fn spawn(cmd: String, args: Vec<String>) -> (c: Command)
    ensures
        c == Command::Spawn(cmd, args),
{
    Command::Spawn(cmd, args)
}

/// Switches to the workspace specified by name.
pub fn switch_group(name: String) -> (c: Command)
    ensures
        c == Command::SwitchGroup(name),
{
    Command::SwitchGroup(name)
}

/// Moves the focused window of the active workspace to another workspace.
pub fn move_window_to_group(name: String) -> (c: Command)
    ensures
        c == Command::MoveWindowToGroup(name),
{
    Command::MoveWindowToGroup(name)
}

} // verus!
