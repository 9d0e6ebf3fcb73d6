use vstd::prelude::*;

use crate::geometry::{WindowGeometry, WindowId};
use crate::keys::KeyCombo;
use crate::layout::Placement;

verus! {

/// The protocol-reported type of a window, as the display server's window
/// type property names them.
#[derive(Clone, Copy, PartialEq, Eq, Structural, Debug)]
pub enum WindowType {
    Desktop,
    Dock,
    Toolbar,
    Menu,
    Utility,
    Splash,
    Dialog,
    DropdownMenu,
    PopupMenu,
    Notification,
    Combo,
    Dnd,
    Normal,
}

/// One lifecycle or input event pulled from the display server, already
/// reduced to plain values.  A map request carries the window's reported
/// types and strut so the manager can classify it without reaching out.
#[derive(Debug)]
pub enum Event {
    MapRequest(WindowId, Vec<WindowType>, Option<crate::screen::Strut>),
    UnmapNotify(WindowId),
    DestroyNotify(WindowId),
    KeyPress(KeyCombo),
    EnterNotify(WindowId),
}

/// Which gap a rejected adjustment concerned.
#[derive(Clone, Copy, PartialEq, Eq, Structural, Debug)]
pub enum GapKind {
    Inner,
    Outer,
}

/// One outward request the manager asks its connection collaborator to
/// perform, or a report it asks the surrounding program to log.  Showing or
/// hiding a window implies suspending that window's event tracking for the
/// duration of the change, so the manager never reacts to its own geometry
/// or visibility calls.
#[derive(Debug, PartialEq)]
pub enum Effect {
    /// Map the window and give it this geometry, under suspended tracking.
    Show(WindowId, WindowGeometry),
    /// As `Show`, and raise the window above its peers.
    ShowRaised(WindowId, WindowGeometry),
    /// Unmap the window, under suspended tracking.
    Hide(WindowId),
    /// Give the window input focus.
    Focus(WindowId),
    /// Clear the input focus.
    Unfocus,
    /// Ask the window to close itself, or destroy it.
    Close(WindowId),
    /// Grab the bound key combinations on the window.
    EnableKeyEvents(WindowId),
    /// Start delivering lifecycle events for the window.
    Track(WindowId),
    /// Map the window directly, without the tracking dance; used for docks,
    /// which bypass workspace layout.
    MapWindow(WindowId),
    /// Start the named program with the given arguments, without waiting.
    Spawn(String, Vec<String>),
    /// Publish the ordered workspace names to the desktop-state protocol.
    PublishDesktops(Vec<String>),
    /// Report that a gap decrease was rejected because the gap is already
    /// zero: a rejected adjustment is reported, never silently floored.
    ReportGapRejected(GapKind),
}

/// The effect that realises one layout placement.
pub open spec fn spec_placement_effect(entry: (WindowId, Placement)) -> Effect {
    match entry.1 {
        Placement::Visible(g) => Effect::Show(entry.0, g),
        Placement::VisibleRaised(g) => Effect::ShowRaised(entry.0, g),
        Placement::Hidden => Effect::Hide(entry.0),
    }
}

/// Converts a layout's placements into outward requests, in order.
pub fn placements_to_effects(placements: Vec<(WindowId, Placement)>) -> (r: Vec<Effect>)
    ensures
        r@ == placements@.map_values(|entry: (WindowId, Placement)| spec_placement_effect(entry)),
{
    let n = placements.len();
    let mut r: Vec<Effect> = Vec::new();
    let mut j: usize = 0;
    while j < n
        invariant
            n == placements@.len(),
            j <= n,
            r@ == placements@.take(j as int).map_values(
                |entry: (WindowId, Placement)| spec_placement_effect(entry),
            ),
        decreases n - j,
    {
        let (w, p) = placements[j];
        let e = match p {
            Placement::Visible(g) => Effect::Show(w, g),
            Placement::VisibleRaised(g) => Effect::ShowRaised(w, g),
            Placement::Hidden => Effect::Hide(w),
        };
        r.push(e);
        proof {
            assert(placements@.take(j + 1 as int) =~= placements@.take(j as int).push(
                placements@[j as int],
            ));
            assert(r@ =~= placements@.take(j + 1 as int).map_values(
                |entry: (WindowId, Placement)| spec_placement_effect(entry),
            ));
        }
        j += 1;
    }
    proof {
        assert(placements@.take(n as int) =~= placements@);
    }
    r
}

} // verus!
