use vstd::prelude::*;

use crate::geometry::{
    cap16, sat_sub, spec_cap16, spec_clamp0, spec_clamp_u32, spec_sat_sub, mul_add_clamped,
    Viewport, WindowGeometry, WindowId,
};
use crate::layout::{spec_master_id, spec_peers, Placement};
use crate::stack::Stack;

verus! {

/// The two-column layout: the master window fills the left region, whose
/// width is half the viewport plus an adjustable offset; the peers stack
/// vertically in the remaining right region.
#[derive(Debug)]
pub struct TileLayout {
    pub name: String,
    pub resized_width: i32,
    pub innergaps: u32,
    pub outergaps: u32,
}

impl Clone for TileLayout {
    fn clone(&self) -> (r: Self)
        ensures
            r == *self,
    {
        TileLayout {
            name: self.name.clone(),
            resized_width: self.resized_width,
            innergaps: self.innergaps,
            outergaps: self.outergaps,
        }
    }
}

/// The left column's width before gaps: half the viewport shifted by the
/// adjustable offset, floored at zero.
pub open spec fn spec_tile_half_plus(l: TileLayout, vp: Viewport) -> int {
    spec_clamp0(vp.width as int / 2 + l.resized_width)
}

/// The right column's width before gaps.
pub open spec fn spec_tile_half_minus(l: TileLayout, vp: Viewport) -> int {
    spec_clamp0(vp.width as int / 2 - l.resized_width)
}

/// The master window's rectangle: the left region inset by the outer gap.
pub open spec fn spec_tile_master_geom(l: TileLayout, vp: Viewport) -> WindowGeometry {
    WindowGeometry {
        x: (vp.x + l.outergaps) as u32,
        y: (vp.y + l.outergaps) as u32,
        width: spec_sat_sub(spec_tile_half_plus(l, vp), l.outergaps as int) as u32,
        height: spec_sat_sub(vp.height as int, 2 * l.outergaps) as u32,
    }
}

/// The height of each of the `n - 1` peer windows: the gapped viewport
/// height divided evenly, minus one inner gap.
pub open spec fn spec_tile_peer_height(l: TileLayout, vp: Viewport, n: int) -> int {
    spec_sat_sub(
        (spec_sat_sub(vp.height as int, 2 * l.outergaps) + l.innergaps) / (n - 1),
        l.innergaps as int,
    )
}

/// The rectangle of the `i`-th peer window in a stack of `n` windows.
pub open spec fn spec_tile_peer_geom(l: TileLayout, vp: Viewport, n: int, i: int) -> WindowGeometry {
    WindowGeometry {
        x: (spec_tile_half_plus(l, vp) + l.innergaps) as u32,
        y: spec_clamp_u32(
            l.outergaps + i * (spec_tile_peer_height(l, vp, n) + l.innergaps),
        ) as u32,
        width: spec_sat_sub(spec_tile_half_minus(l, vp), l.outergaps as int) as u32,
        height: spec_tile_peer_height(l, vp, n) as u32,
    }
}

/// The peer entries of the tiled column, in stack order.
pub open spec fn spec_tile_peer_entries(
    l: TileLayout,
    vp: Viewport,
    n: int,
    peers: Seq<WindowId>,
) -> Seq<(WindowId, Placement)> {
    Seq::new(peers.len(), |i: int| (peers[i], Placement::Visible(spec_tile_peer_geom(l, vp, n, i))))
}

/// Everything the two-column layout places: nothing for an empty stack, the
/// full viewport for a single window, and otherwise the master rectangle
/// followed by one rectangle per peer, in stack order.
pub open spec fn spec_tile_layout(
    l: TileLayout,
    vp: Viewport,
    windows: Seq<WindowId>,
    fp: int,
    master: Option<WindowId>,
) -> Seq<(WindowId, Placement)> {
    if windows.len() == 0 {
        Seq::empty()
    } else {
        let m = spec_master_id(windows, fp, master);
        if windows.len() < 2 {
            seq![(m, Placement::Visible(WindowGeometry::spec_of_viewport(vp)))]
        } else {
            seq![(m, Placement::Visible(spec_tile_master_geom(l, vp)))] + spec_tile_peer_entries(
                l,
                vp,
                windows.len() as int,
                spec_peers(windows, m),
            )
        }
    }
}

impl TileLayout {
    /// Tuning parameters stay within the 16-bit pixel range.
    pub open spec fn wf(self) -> bool {
        &&& -0xFFFF <= self.resized_width <= 0xFFFF
        &&& self.innergaps <= 0xFFFF
        &&& self.outergaps <= 0xFFFF
    }

    pub fn new(name: &str, innergaps: u32, outergaps: u32) -> (l: TileLayout)
        ensures
            l.wf(),
            l.name@ == name@,
            l.resized_width == 160,
            l.innergaps == spec_cap16(innergaps as int),
            l.outergaps == spec_cap16(outergaps as int),
    {
        TileLayout {
            name: name.to_owned(),
            resized_width: 160,
            innergaps: cap16(innergaps),
            outergaps: cap16(outergaps),
        }
    }

    /// The largest offset the master may take from the halfway split: the
    /// smaller region never drops below an eighth of the viewport width.
    pub open spec fn spec_resize_bound(vp: Viewport) -> int {
        vp.width as int / 2 - vp.width as int / 8
    }

    pub open spec fn spec_increase_master(self, vp: Viewport, amount: int) -> TileLayout {
        let bound = Self::spec_resize_bound(vp);
        TileLayout {
            resized_width: (if self.resized_width + amount > bound {
                bound
            } else {
                self.resized_width + amount
            }) as i32,
            ..self
        }
    }

    pub open spec fn spec_decrease_master(self, vp: Viewport, amount: int) -> TileLayout {
        let bound = Self::spec_resize_bound(vp);
        TileLayout {
            resized_width: (if self.resized_width - amount < -bound {
                -bound
            } else {
                self.resized_width - amount
            }) as i32,
            ..self
        }
    }

    /// Widens the master column by `amount` pixels, clamped so the peer
    /// column keeps at least an eighth of the viewport width.
    pub fn increase_master(&mut self, viewport: &Viewport, amount: i32)
        requires
            old(self).wf(),
            viewport.wf(),
            0 <= amount <= 0xFFFF,
        ensures
            final(self).wf(),
            *final(self) == old(self).spec_increase_master(*viewport, amount as int),
    {
        let bound: i32 = (viewport.width / 2) as i32 - (viewport.width / 8) as i32;
        let next: i32 = self.resized_width + amount;
        if next > bound {
            self.resized_width = bound;
        } else {
            self.resized_width = next;
        }
    }

    /// Narrows the master column by `amount` pixels, clamped so the master
    /// column keeps at least an eighth of the viewport width.
    pub fn decrease_master(&mut self, viewport: &Viewport, amount: i32)
        requires
            old(self).wf(),
            viewport.wf(),
            0 <= amount <= 0xFFFF,
        ensures
            final(self).wf(),
            *final(self) == old(self).spec_decrease_master(*viewport, amount as int),
    {
        let bound: i32 = (viewport.width / 2) as i32 - (viewport.width / 8) as i32;
        let next: i32 = self.resized_width - amount;
        if next < -bound {
            self.resized_width = -bound;
        } else {
            self.resized_width = next;
        }
    }

    pub open spec fn spec_increase_innergaps(self) -> TileLayout {
        TileLayout { innergaps: spec_cap16(self.innergaps + 1) as u32, ..self }
    }

    pub open spec fn spec_decrease_innergaps(self) -> TileLayout {
        if self.innergaps > 0 {
            TileLayout { innergaps: (self.innergaps - 1) as u32, ..self }
        } else {
            self
        }
    }

    pub open spec fn spec_increase_outergaps(self) -> TileLayout {
        TileLayout { outergaps: spec_cap16(self.outergaps + 1) as u32, ..self }
    }

    pub open spec fn spec_decrease_outergaps(self) -> TileLayout {
        if self.outergaps > 0 {
            TileLayout { outergaps: (self.outergaps - 1) as u32, ..self }
        } else {
            self
        }
    }

    pub fn increase_innergaps(&mut self)
        requires
            old(self).wf(),
        ensures
            final(self).wf(),
            *final(self) == old(self).spec_increase_innergaps(),
    {
        if self.innergaps < 0xFFFF {
            self.innergaps = self.innergaps + 1;
        }
    }

    /// Answers true when the gap is already zero and the decrease is
    /// rejected.
    pub fn decrease_innergaps(&mut self) -> (rejected: bool)
        requires
            old(self).wf(),
        ensures
            final(self).wf(),
            *final(self) == old(self).spec_decrease_innergaps(),
            rejected == (old(self).innergaps == 0),
    {
        if self.innergaps > 0 {
            self.innergaps = self.innergaps - 1;
            false
        } else {
            true
        }
    }

    pub fn increase_outergaps(&mut self)
        requires
            old(self).wf(),
        ensures
            final(self).wf(),
            *final(self) == old(self).spec_increase_outergaps(),
    {
        if self.outergaps < 0xFFFF {
            self.outergaps = self.outergaps + 1;
        }
    }

    /// Answers true when the gap is already zero and the decrease is
    /// rejected.
    pub fn decrease_outergaps(&mut self) -> (rejected: bool)
        requires
            old(self).wf(),
        ensures
            final(self).wf(),
            *final(self) == old(self).spec_decrease_outergaps(),
            rejected == (old(self).outergaps == 0),
    {
        if self.outergaps > 0 {
            self.outergaps = self.outergaps - 1;
            false
        } else {
            true
        }
    }

    /// The master window's rectangle, computed.
    fn master_geometry(&self, viewport: &Viewport) -> (g: WindowGeometry)
        requires
            self.wf(),
            viewport.wf(),
        ensures
            g == spec_tile_master_geom(*self, *viewport),
    {
        let half: i64 = (viewport.width / 2) as i64 + self.resized_width as i64;
        let half_plus: u32 = if half >= 0 {
            half as u32
        } else {
            0
        };
        WindowGeometry {
            x: viewport.x + self.outergaps,
            y: viewport.y + self.outergaps,
            width: sat_sub(half_plus, self.outergaps),
            height: sat_sub(viewport.height, 2 * self.outergaps),
        }
    }

    /// The rectangle of the peer with index `i` among `n` stacked windows.
    fn peer_geometry(&self, viewport: &Viewport, n: usize, i: usize) -> (g: WindowGeometry)
        requires
            self.wf(),
            viewport.wf(),
            n >= 2,
        ensures
            g == spec_tile_peer_geom(*self, *viewport, n as int, i as int),
    {
        let half_p: i64 = (viewport.width / 2) as i64 + self.resized_width as i64;
        let half_plus: u32 = if half_p >= 0 {
            half_p as u32
        } else {
            0
        };
        let half_m: i64 = (viewport.width / 2) as i64 - self.resized_width as i64;
        let half_minus: u32 = if half_m >= 0 {
            half_m as u32
        } else {
            0
        };
        let gapped: u32 = sat_sub(viewport.height, 2 * self.outergaps) + self.innergaps;
        let row: u64 = (gapped as u64) / ((n - 1) as u64);
        proof {
            assert(row <= gapped);
        }
        let height: u32 = sat_sub(row as u32, self.innergaps);
        WindowGeometry {
            x: half_plus + self.innergaps,
            y: mul_add_clamped(self.outergaps, i, height + self.innergaps),
            width: sat_sub(half_minus, self.outergaps),
            height,
        }
    }

    /// Computes the two-column placements; see `spec_tile_layout`.
    pub fn layout(
        &self,
        viewport: &Viewport,
        stack: &Stack<WindowId>,
        master: &Option<WindowId>,
    ) -> (r: Vec<(WindowId, Placement)>)
        requires
            self.wf(),
            viewport.wf(),
            stack.wf(),
        ensures
            r@ == spec_tile_layout(*self, *viewport, stack@, stack.focus_pos(), *master),
    {
        let mut result: Vec<(WindowId, Placement)> = Vec::new();
        if stack.is_empty() {
            proof {
                assert(result@ =~= spec_tile_layout(
                    *self,
                    *viewport,
                    stack@,
                    stack.focus_pos(),
                    *master,
                ));
            }
            return result;
        }
        let master_id: WindowId = match master {
            Some(m) => *m,
            None => {
                match stack.focused() {
                    Some(w) => *w,
                    None => {
                        proof {
                            assert(false);
                        }
                        WindowId(0)
                    },
                }
            },
        };
        let n = stack.stack_len();
        if n < 2 {
            result.push((master_id, Placement::Visible(WindowGeometry::of_viewport(viewport))));
            proof {
                assert(result@ =~= spec_tile_layout(
                    *self,
                    *viewport,
                    stack@,
                    stack.focus_pos(),
                    *master,
                ));
            }
            return result;
        }
        let mg = self.master_geometry(viewport);
        result.push((master_id, Placement::Visible(mg)));
        let ghost header = seq![(master_id, Placement::Visible(spec_tile_master_geom(*self, *viewport)))];
        proof {
            assert(result@ =~= header + spec_tile_peer_entries(
                *self,
                *viewport,
                n as int,
                spec_peers(stack@.take(0), master_id),
            ));
        }
        let mut j: usize = 0;
        let mut acc: usize = 0;
        while j < n
            invariant
                self.wf(),
                viewport.wf(),
                stack.wf(),
                n == stack@.len(),
                n >= 2,
                j <= n,
                acc == spec_peers(stack@.take(j as int), master_id).len(),
                acc <= j,
                result@ == header + spec_tile_peer_entries(
                    *self,
                    *viewport,
                    n as int,
                    spec_peers(stack@.take(j as int), master_id),
                ),
            decreases n - j,
        {
            let w: WindowId = *stack.get(j);
            proof {
                assert(stack@.take(j + 1 as int).drop_last() =~= stack@.take(j as int));
                assert(stack@.take(j + 1 as int).last() == stack@[j as int]);
            }
            if w.0 != master_id.0 {
                let pg = self.peer_geometry(viewport, n, acc);
                result.push((w, Placement::Visible(pg)));
                acc = acc + 1;
                proof {
                    assert(result@ =~= header + spec_tile_peer_entries(
                        *self,
                        *viewport,
                        n as int,
                        spec_peers(stack@.take(j + 1 as int), master_id),
                    ));
                }
            } else {
                proof {
                    assert(w == master_id);
                    assert(spec_peers(stack@.take(j + 1 as int), master_id) =~= spec_peers(
                        stack@.take(j as int),
                        master_id,
                    ));
                }
            }
            j += 1;
        }
        proof {
            assert(stack@.take(n as int) =~= stack@);
            assert(result@ =~= spec_tile_layout(
                *self,
                *viewport,
                stack@,
                stack.focus_pos(),
                *master,
            ));
        }
        result
    }
}

/// The master and the peer column together account for the whole viewport
/// width: master width, peer width and the two outer gaps sum to it exactly,
/// for any even-width viewport whose gaps and offset are within their
/// clamped ranges.
pub proof fn lemma_tile_fills_width(l: TileLayout, vp: Viewport, n: int, i: int)
    requires
        l.wf(),
        vp.wf(),
        vp.width % 2 == 0,
        l.outergaps <= vp.width as int / 8,
        -TileLayout::spec_resize_bound(vp) <= l.resized_width <= TileLayout::spec_resize_bound(vp),
    ensures
        spec_tile_master_geom(l, vp).width + spec_tile_peer_geom(l, vp, n, i).width + 2
            * l.outergaps == vp.width,
{
    let half = vp.width as int / 2;
    assert(half + l.resized_width >= half - (half - vp.width as int / 8));
    assert(spec_tile_half_plus(l, vp) == half + l.resized_width);
    assert(spec_tile_half_minus(l, vp) == half - l.resized_width);
    assert(half + half == vp.width);
}

} // verus!
