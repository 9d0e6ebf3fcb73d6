use vstd::prelude::*;

use crate::geometry::{Viewport, WindowGeometry, WindowId};
use crate::stack::Stack;

mod cmaster;
mod floating_master;
mod stack_layout;
mod tile;
mod tiled;

pub use cmaster::CenterMaster;
pub use floating_master::FloatingMasterLayout;
pub use stack_layout::StackLayout;
pub use tile::TileLayout;
pub use tiled::TiledLayout;

verus! {

/// What a layout decides for one window: where it goes and whether it is
/// shown at all.  A hidden window is merely unmapped, never destroyed.
#[derive(Clone, Copy, PartialEq, Eq, Structural, Debug)]
pub enum Placement {
    /// Map the window and give it this geometry.
    Visible(WindowGeometry),
    /// Map the window, give it this geometry, and raise it above its peers.
    VisibleRaised(WindowGeometry),
    /// Unmap the window.
    Hidden,
}

/// The window a master-style layout anchors on: the cached master when the
/// workspace supplies one, else the focused window.
pub open spec fn spec_master_id(
    windows: Seq<WindowId>,
    fp: int,
    master: Option<WindowId>,
) -> WindowId {
    match master {
        Some(m) => m,
        None => windows[fp],
    }
}

/// The windows that are not the master, in stack order.
pub open spec fn spec_peers(windows: Seq<WindowId>, m: WindowId) -> Seq<WindowId>
    decreases windows.len(),
{
    if windows.len() == 0 {
        Seq::empty()
    } else if windows.last() == m {
        spec_peers(windows.drop_last(), m)
    } else {
        spec_peers(windows.drop_last(), m).push(windows.last())
    }
}

/// One geometry strategy, with its own live tuning parameters.  The variant
/// set is closed, so dispatch is by pattern match.
#[derive(Debug)]
pub enum Layout {
    Tile(TileLayout),
    Stack(StackLayout),
    CenterMaster(CenterMaster),
    FloatingMaster(FloatingMasterLayout),
    Tiled(TiledLayout),
}

impl Clone for Layout {
    fn clone(&self) -> (r: Self)
        ensures
            r == *self,
    {
        match self {
            Layout::Tile(l) => Layout::Tile(l.clone()),
            Layout::Stack(l) => Layout::Stack(l.clone()),
            Layout::CenterMaster(l) => Layout::CenterMaster(l.clone()),
            Layout::FloatingMaster(l) => Layout::FloatingMaster(l.clone()),
            Layout::Tiled(l) => Layout::Tiled(l.clone()),
        }
    }
}

impl Layout {
    /// Tuning parameters are small enough that every geometry formula fits
    /// comfortably in pixel arithmetic.
    pub open spec fn wf(self) -> bool {
        match self {
            Layout::Tile(l) => l.wf(),
            Layout::Stack(l) => true,
            Layout::CenterMaster(l) => l.wf(),
            Layout::FloatingMaster(l) => true,
            Layout::Tiled(l) => l.wf(),
        }
    }

    pub open spec fn spec_name(self) -> Seq<char> {
        match self {
            Layout::Tile(l) => l.name@,
            Layout::Stack(l) => l.name@,
            Layout::CenterMaster(l) => l.name@,
            Layout::FloatingMaster(l) => l.name@,
            Layout::Tiled(l) => l.name@,
        }
    }

    pub fn name(&self) -> (r: &String)
        ensures
            r@ == self.spec_name(),
    {
        match self {
            Layout::Tile(l) => &l.name,
            Layout::Stack(l) => &l.name,
            Layout::CenterMaster(l) => &l.name,
            Layout::FloatingMaster(l) => &l.name,
            Layout::Tiled(l) => &l.name,
        }
    }

    /// The placements this layout assigns, as a pure function of the
    /// viewport, the window order, the focus position and the cached master.
    pub open spec fn spec_layout(
        self,
        vp: Viewport,
        windows: Seq<WindowId>,
        fp: int,
        master: Option<WindowId>,
    ) -> Seq<(WindowId, Placement)> {
        match self {
            Layout::Tile(l) => tile::spec_tile_layout(l, vp, windows, fp, master),
            Layout::Stack(l) => stack_layout::spec_stack_layout(vp, windows, fp),
            Layout::CenterMaster(l) => cmaster::spec_cmaster_layout(l, vp, windows, fp, master),
            Layout::FloatingMaster(l) => floating_master::spec_floating_layout(vp, windows),
            Layout::Tiled(l) => tiled::spec_tiled_layout(l, vp, windows),
        }
    }

    /// Computes one rectangle-or-hide decision per placed window.  The stack
    /// itself is only read, never changed.
    pub fn layout(
        &self,
        viewport: &Viewport,
        stack: &Stack<WindowId>,
        master: &Option<WindowId>,
    ) -> (r: Vec<(WindowId, Placement)>)
        requires
            self.wf(),
            viewport.wf(),
            stack.wf(),
        ensures
            r@ == self.spec_layout(*viewport, stack@, stack.focus_pos(), *master),
    {
        match self {
            Layout::Tile(l) => l.layout(viewport, stack, master),
            Layout::Stack(l) => l.layout(viewport, stack, master),
            Layout::CenterMaster(l) => l.layout(viewport, stack, master),
            Layout::FloatingMaster(l) => l.layout(viewport, stack, master),
            Layout::Tiled(l) => l.layout(viewport, stack, master),
        }
    }

    /// What one master-enlarging keypress does to the tuning parameters.
    pub open spec fn spec_increase_master(self, vp: Viewport, amount: int) -> Layout {
        match self {
            Layout::Tile(l) => Layout::Tile(l.spec_increase_master(vp, amount)),
            Layout::CenterMaster(l) => Layout::CenterMaster(l.spec_increase_master(vp, amount)),
            _ => self,
        }
    }

    /// What one master-shrinking keypress does to the tuning parameters.
    pub open spec fn spec_decrease_master(self, vp: Viewport, amount: int) -> Layout {
        match self {
            Layout::Tile(l) => Layout::Tile(l.spec_decrease_master(vp, amount)),
            Layout::CenterMaster(l) => Layout::CenterMaster(l.spec_decrease_master(vp, amount)),
            _ => self,
        }
    }

    /// Grows the master region by `amount` pixels, clamped so that neither
    /// the master nor the peer region shrinks below an eighth of the
    /// viewport width.  Layouts without a master ignore the request.
    pub fn increase_master(&mut self, viewport: &Viewport, amount: i32)
        requires
            old(self).wf(),
            viewport.wf(),
            0 <= amount <= 0xFFFF,
        ensures
            final(self).wf(),
            *final(self) == old(self).spec_increase_master(*viewport, amount as int),
    {
        match self {
            Layout::Tile(l) => l.increase_master(viewport, amount),
            Layout::CenterMaster(l) => l.increase_master(viewport, amount),
            _ => (),
        }
    }

    /// Shrinks the master region by `amount` pixels, with the same clamp.
    pub fn decrease_master(&mut self, viewport: &Viewport, amount: i32)
        requires
            old(self).wf(),
            viewport.wf(),
            0 <= amount <= 0xFFFF,
        ensures
            final(self).wf(),
            *final(self) == old(self).spec_decrease_master(*viewport, amount as int),
    {
        match self {
            Layout::Tile(l) => l.decrease_master(viewport, amount),
            Layout::CenterMaster(l) => l.decrease_master(viewport, amount),
            _ => (),
        }
    }

    pub open spec fn spec_increase_innergaps(self) -> Layout {
        match self {
            Layout::Tile(l) => Layout::Tile(l.spec_increase_innergaps()),
            Layout::CenterMaster(l) => Layout::CenterMaster(l.spec_increase_innergaps()),
            _ => self,
        }
    }

    pub open spec fn spec_decrease_innergaps(self) -> Layout {
        match self {
            Layout::Tile(l) => Layout::Tile(l.spec_decrease_innergaps()),
            Layout::CenterMaster(l) => Layout::CenterMaster(l.spec_decrease_innergaps()),
            _ => self,
        }
    }

    pub open spec fn spec_increase_outergaps(self) -> Layout {
        match self {
            Layout::Tile(l) => Layout::Tile(l.spec_increase_outergaps()),
            Layout::CenterMaster(l) => Layout::CenterMaster(l.spec_increase_outergaps()),
            _ => self,
        }
    }

    pub open spec fn spec_decrease_outergaps(self) -> Layout {
        match self {
            Layout::Tile(l) => Layout::Tile(l.spec_decrease_outergaps()),
            Layout::CenterMaster(l) => Layout::CenterMaster(l.spec_decrease_outergaps()),
            _ => self,
        }
    }

    /// Widens the spacing between peer windows by one pixel.
    pub fn increase_innergaps(&mut self)
        requires
            old(self).wf(),
        ensures
            final(self).wf(),
            *final(self) == old(self).spec_increase_innergaps(),
    {
        match self {
            Layout::Tile(l) => l.increase_innergaps(),
            Layout::CenterMaster(l) => l.increase_innergaps(),
            _ => (),
        }
    }

    /// Whether an inner-gap decrease would be rejected: the layout has inner
    /// gaps and they already stand at zero.
    pub open spec fn spec_decrease_innergaps_rejected(self) -> bool {
        match self {
            Layout::Tile(l) => l.innergaps == 0,
            Layout::CenterMaster(l) => l.innergaps == 0,
            _ => false,
        }
    }

    /// Narrows the spacing between peer windows by one pixel; answers true,
    /// changing nothing, when the gap is already zero and the decrease is
    /// rejected.
    pub fn decrease_innergaps(&mut self) -> (rejected: bool)
        requires
            old(self).wf(),
        ensures
            final(self).wf(),
            *final(self) == old(self).spec_decrease_innergaps(),
            rejected == old(self).spec_decrease_innergaps_rejected(),
    {
        match self {
            Layout::Tile(l) => l.decrease_innergaps(),
            Layout::CenterMaster(l) => l.decrease_innergaps(),
            _ => false,
        }
    }

    /// Widens the spacing between the window group and the viewport edge.
    pub fn increase_outergaps(&mut self)
        requires
            old(self).wf(),
        ensures
            final(self).wf(),
            *final(self) == old(self).spec_increase_outergaps(),
    {
        match self {
            Layout::Tile(l) => l.increase_outergaps(),
            Layout::CenterMaster(l) => l.increase_outergaps(),
            _ => (),
        }
    }

    /// Whether an outer-gap decrease would be rejected: the layout has outer
    /// gaps and they already stand at zero.
    pub open spec fn spec_decrease_outergaps_rejected(self) -> bool {
        match self {
            Layout::Tile(l) => l.outergaps == 0,
            Layout::CenterMaster(l) => l.outergaps == 0,
            _ => false,
        }
    }

    /// Narrows the spacing between the window group and the viewport edge;
    /// answers true, changing nothing, when the gap is already zero and the
    /// decrease is rejected.
    pub fn decrease_outergaps(&mut self) -> (rejected: bool)
        requires
            old(self).wf(),
        ensures
            final(self).wf(),
            *final(self) == old(self).spec_decrease_outergaps(),
            rejected == old(self).spec_decrease_outergaps_rejected(),
    {
        match self {
            Layout::Tile(l) => l.decrease_outergaps(),
            Layout::CenterMaster(l) => l.decrease_outergaps(),
            _ => false,
        }
    }
}

} // verus!
