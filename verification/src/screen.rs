use vstd::prelude::*;

use crate::geometry::{cap16, sat_sub, spec_cap16, spec_sat_sub, Viewport, WindowId};

verus! {

/// A dock's reservation of screen-edge space, in pixels per edge.  The
/// start/end members of the underlying protocol property are not tracked;
/// each edge is a single "how much of this edge" figure.
#[derive(Clone, Copy, PartialEq, Eq, Structural, Debug)]
pub struct Strut {
    pub left: u32,
    pub right: u32,
    pub top: u32,
    pub bottom: u32,
}

impl Strut {
    pub open spec fn wf(self) -> bool {
        &&& self.left <= 0xFFFF
        &&& self.right <= 0xFFFF
        &&& self.top <= 0xFFFF
        &&& self.bottom <= 0xFFFF
    }

    /// Each edge capped at the largest value a 16-bit screen can meet.
    pub open spec fn spec_capped(self) -> Strut {
        Strut {
            left: spec_cap16(self.left as int) as u32,
            right: spec_cap16(self.right as int) as u32,
            top: spec_cap16(self.top as int) as u32,
            bottom: spec_cap16(self.bottom as int) as u32,
        }
    }
}

/// One live dock window and the strut it requested, if any.
#[derive(Clone, Copy, PartialEq, Eq, Structural, Debug)]
pub struct Dock {
    pub window_id: WindowId,
    pub strut_partial: Option<Strut>,
}

/// The strut of a dock, or nothing on every edge.
pub open spec fn spec_strut_of(d: Dock) -> Strut {
    match d.strut_partial {
        Some(s) => s,
        None => Strut { left: 0, right: 0, top: 0, bottom: 0 },
    }
}

pub open spec fn spec_max(a: int, b: int) -> int {
    if a >= b {
        a
    } else {
        b
    }
}

/// The per-edge maximum reservation over a dock list.
pub open spec fn spec_reserved(docks: Seq<Dock>) -> Strut
    decreases docks.len(),
{
    if docks.len() == 0 {
        Strut { left: 0, right: 0, top: 0, bottom: 0 }
    } else {
        let rest = spec_reserved(docks.drop_last());
        let s = spec_strut_of(docks.last());
        Strut {
            left: spec_max(rest.left as int, s.left as int) as u32,
            right: spec_max(rest.right as int, s.right as int) as u32,
            top: spec_max(rest.top as int, s.top as int) as u32,
            bottom: spec_max(rest.bottom as int, s.bottom as int) as u32,
        }
    }
}

/// The usable viewport of a screen: the full rectangle shrunk on each edge
/// by that edge's maximum reservation.
pub open spec fn spec_screen_viewport(docks: Seq<Dock>, sw: int, sh: int) -> Viewport {
    let r = spec_reserved(docks);
    Viewport {
        x: r.left,
        y: r.top,
        width: spec_sat_sub(spec_sat_sub(sw, r.left as int), r.right as int) as u32,
        height: spec_sat_sub(spec_sat_sub(sh, r.top as int), r.bottom as int) as u32,
    }
}

/// Whether some dock in the list owns the window.
pub open spec fn spec_has_dock(docks: Seq<Dock>, w: WindowId) -> bool {
    exists|i: int| 0 <= i < docks.len() && docks[i].window_id == w
}

/// The dock list with every entry of the given window removed.
pub open spec fn spec_without(docks: Seq<Dock>, w: WindowId) -> Seq<Dock>
    decreases docks.len(),
{
    if docks.len() == 0 {
        Seq::empty()
    } else if docks.last().window_id == w {
        spec_without(docks.drop_last(), w)
    } else {
        spec_without(docks.drop_last(), w).push(docks.last())
    }
}

/// The physical screen's dock tracker: it owns every dock window and folds
/// their struts into one usable viewport.
pub struct Screen {
    docks: Vec<Dock>,
}

impl Screen {
    /// The live docks, in the order they were added.
    pub closed spec fn docks(&self) -> Seq<Dock> {
        self.docks@
    }

    /// Every tracked strut is within the 16-bit screen range.
    pub closed spec fn wf(&self) -> bool {
        forall|i: int| 0 <= i < self.docks@.len() ==> (#[trigger] spec_strut_of(self.docks@[i])).wf()
    }

    pub fn new() -> (s: Screen)
        ensures
            s.docks() == Seq::<Dock>::empty(),
            s.wf(),
    {
        Screen { docks: Vec::new() }
    }

    /// Starts tracking a dock window and the strut it requested; oversized
    /// strut edges are capped at the largest 16-bit value.
    pub fn add_dock(&mut self, window_id: WindowId, strut_partial: Option<Strut>)
        requires
            old(self).wf(),
            old(self).docks().len() < usize::MAX,
        ensures
            final(self).wf(),
            final(self).docks() == old(self).docks().push(
                Dock {
                    window_id,
                    strut_partial: match strut_partial {
                        Some(s) => Some(s.spec_capped()),
                        None => None,
                    },
                },
            ),
    {
        let capped: Option<Strut> = match strut_partial {
            Some(s) => Some(
                Strut {
                    left: cap16(s.left),
                    right: cap16(s.right),
                    top: cap16(s.top),
                    bottom: cap16(s.bottom),
                },
            ),
            None => None,
        };
        self.docks.push(Dock { window_id, strut_partial: capped });
    }

    /// Stops tracking the given window; a window that is no dock is left
    /// alone.
    pub fn remove_dock(&mut self, window_id: &WindowId)
        requires
            old(self).wf(),
        ensures
            final(self).wf(),
            final(self).docks() == spec_without(old(self).docks(), *window_id),
    {
        let n = self.docks.len();
        let mut kept: Vec<Dock> = Vec::new();
        let mut j: usize = 0;
        while j < n
            invariant
                self == old(self),
                self.wf(),
                n == self.docks@.len(),
                j <= n,
                kept@ == spec_without(self.docks@.take(j as int), *window_id),
            decreases n - j,
        {
            let d: Dock = self.docks[j];
            proof {
                assert(self.docks@.take(j + 1 as int).drop_last() =~= self.docks@.take(j as int));
                assert(self.docks@.take(j + 1 as int).last() == self.docks@[j as int]);
            }
            if d.window_id.0 != window_id.0 {
                kept.push(d);
            }
            j += 1;
        }
        proof {
            assert(self.docks@.take(n as int) =~= self.docks@);
            lemma_spec_without_wf(self.docks@, *window_id);
        }
        self.docks = kept;
    }

    /// How many docks the tracker owns.
    pub fn dock_count(&self) -> (n: usize)
        ensures
            n == self.docks().len(),
    {
        self.docks.len()
    }

    /// Whether the tracker owns the given window.
    pub fn contains(&self, window_id: &WindowId) -> (r: bool)
        ensures
            r == spec_has_dock(self.docks(), *window_id),
    {
        let n = self.docks.len();
        let mut j: usize = 0;
        while j < n
            invariant
                n == self.docks@.len(),
                j <= n,
                forall|i: int| 0 <= i < j ==> self.docks@[i].window_id != *window_id,
            decreases n - j,
        {
            if self.docks[j].window_id.0 == window_id.0 {
                return true;
            }
            j += 1;
        }
        false
    }

    /// The usable area of the screen: the full rectangle minus, on each
    /// edge, the largest reservation any live dock requested there.
    pub fn viewport(&self, screen_width: u32, screen_height: u32) -> (v: Viewport)
        requires
            self.wf(),
            screen_width <= 0xFFFF,
            screen_height <= 0xFFFF,
        ensures
            v == spec_screen_viewport(self.docks(), screen_width as int, screen_height as int),
            v.wf(),
    {
        let n = self.docks.len();
        let mut left: u32 = 0;
        let mut right: u32 = 0;
        let mut top: u32 = 0;
        let mut bottom: u32 = 0;
        let mut j: usize = 0;
        while j < n
            invariant
                self.wf(),
                n == self.docks@.len(),
                j <= n,
                spec_reserved(self.docks@.take(j as int)) == (Strut { left, right, top, bottom }),
                left <= 0xFFFF,
                right <= 0xFFFF,
                top <= 0xFFFF,
                bottom <= 0xFFFF,
            decreases n - j,
        {
            let d: Dock = self.docks[j];
            proof {
                assert(self.docks@.take(j + 1 as int).drop_last() =~= self.docks@.take(j as int));
                assert(self.docks@.take(j + 1 as int).last() == self.docks@[j as int]);
            }
            proof {
                assert(spec_strut_of(self.docks@[j as int]).wf());
            }
            match d.strut_partial {
                Some(s) => {
                    if s.left > left {
                        left = s.left;
                    }
                    if s.right > right {
                        right = s.right;
                    }
                    if s.top > top {
                        top = s.top;
                    }
                    if s.bottom > bottom {
                        bottom = s.bottom;
                    }
                },
                None => (),
            }
            j += 1;
        }
        proof {
            assert(self.docks@.take(n as int) =~= self.docks@);
        }
        Viewport {
            x: left,
            y: top,
            width: sat_sub(sat_sub(screen_width, left), right),
            height: sat_sub(sat_sub(screen_height, top), bottom),
        }
    }
}

/// Removal keeps every strut well formed.
proof fn lemma_spec_without_wf(docks: Seq<Dock>, w: WindowId)
    requires
        forall|i: int| 0 <= i < docks.len() ==> (#[trigger] spec_strut_of(docks[i])).wf(),
    ensures
        forall|i: int|
            0 <= i < spec_without(docks, w).len() ==> (#[trigger] spec_strut_of(
                spec_without(docks, w)[i],
            )).wf(),
    decreases docks.len(),
{
    if docks.len() > 0 {
        assert(forall|i: int|
            0 <= i < docks.drop_last().len() ==> (#[trigger] spec_strut_of(
                docks.drop_last()[i],
            )).wf());
        lemma_spec_without_wf(docks.drop_last(), w);
        let rec = spec_without(docks.drop_last(), w);
        if docks.last().window_id != w {
            assert(spec_strut_of(docks[docks.len() - 1]).wf());
            assert forall|i: int|
                0 <= i < spec_without(docks, w).len() implies (#[trigger] spec_strut_of(
                spec_without(docks, w)[i],
            )).wf() by {
                if i < rec.len() {
                    assert(spec_without(docks, w)[i] == rec[i]);
                    assert(spec_strut_of(rec[i]).wf());
                } else {
                    assert(spec_without(docks, w)[i] == docks.last());
                }
            }
        }
    }
}

/// Removing a window that no dock owns changes nothing.
proof fn lemma_spec_without_absent(docks: Seq<Dock>, w: WindowId)
    requires
        !spec_has_dock(docks, w),
    ensures
        spec_without(docks, w) == docks,
    decreases docks.len(),
{
    if docks.len() > 0 {
        assert(forall|i: int|
            0 <= i < docks.drop_last().len() ==> docks.drop_last()[i] == docks[i]);
        lemma_spec_without_absent(docks.drop_last(), w);
        assert(docks[docks.len() - 1].window_id != w);
        assert(spec_without(docks, w) =~= docks);
    }
}

/// Adding a dock and then removing it restores the dock list exactly, and
/// with it the computed viewport: a dock's reservation leaves no trace once
/// the dock is gone.
pub proof fn lemma_dock_roundtrip(docks: Seq<Dock>, d: Dock, sw: int, sh: int)
    requires
        !spec_has_dock(docks, d.window_id),
    ensures
        spec_without(docks.push(d), d.window_id) == docks,
        spec_screen_viewport(spec_without(docks.push(d), d.window_id), sw, sh)
            == spec_screen_viewport(docks, sw, sh),
{
    assert(docks.push(d).drop_last() =~= docks);
    lemma_spec_without_absent(docks, d.window_id);
}

} // verus!
