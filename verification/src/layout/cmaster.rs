use vstd::prelude::*;

use crate::geometry::{
    cap16, sat_sub, spec_cap16, spec_clamp0, spec_clamp_u32, spec_sat_sub,
    Viewport, WindowGeometry, WindowId,
};
use crate::layout::tile::{spec_tile_layout, TileLayout};
use crate::layout::{spec_master_id, spec_peers, Placement};
use crate::stack::Stack;

verus! {

/// The centred-master layout: the master window sits in the middle of the
/// viewport with an adjustable width, and the peers split into a left and a
/// right sub-column by alternating stack position.  With fewer than three
/// windows it falls back to the two-column layout.
#[derive(Debug)]
pub struct CenterMaster {
    pub name: String,
    pub resized_width: i32,
    pub tile_resized_width: i32,
    pub innergaps: u32,
    pub outergaps: u32,
}

impl Clone for CenterMaster {
    fn clone(&self) -> (r: Self)
        ensures
            r == *self,
    {
        CenterMaster {
            name: self.name.clone(),
            resized_width: self.resized_width,
            tile_resized_width: self.tile_resized_width,
            innergaps: self.innergaps,
            outergaps: self.outergaps,
        }
    }
}

/// The two-column layout the fallback delegates to, carrying this layout's
/// own fallback offset and gaps.
pub open spec fn spec_cm_fallback(l: CenterMaster) -> TileLayout {
    TileLayout {
        name: l.name,
        resized_width: l.tile_resized_width,
        innergaps: l.innergaps,
        outergaps: l.outergaps,
    }
}

/// The width reserved for the centred master before the offset is applied.
pub open spec fn spec_cm_base_width(vp: Viewport) -> int {
    vp.width as int / 2 + vp.width as int / 16
}

/// The centred master's rectangle.
pub open spec fn spec_cm_master_geom(l: CenterMaster, vp: Viewport) -> WindowGeometry {
    let width = spec_sat_sub(
        spec_clamp0(spec_cm_base_width(vp) - 2 * l.resized_width),
        2 * l.innergaps,
    );
    WindowGeometry {
        x: (spec_clamp0(vp.width - width) / 2 + l.outergaps) as u32,
        y: l.outergaps,
        width: width as u32,
        height: spec_sat_sub(vp.height as int, 2 * l.outergaps) as u32,
    }
}

/// The gapped height the sub-columns divide between their windows.
pub open spec fn spec_cm_gapped_height(l: CenterMaster, vp: Viewport) -> int {
    spec_sat_sub(vp.height as int, 2 * l.outergaps) + l.innergaps
}

/// The rectangle of the peer with accumulator `i` in the left sub-column,
/// among `n` stacked windows.
pub open spec fn spec_cm_left_geom(l: CenterMaster, vp: Viewport, n: int, i: int) -> WindowGeometry {
    let hg = spec_cm_gapped_height(l, vp);
    let divisor = if n % 2 == 0 {
        n
    } else {
        n - 1
    };
    WindowGeometry {
        x: l.outergaps,
        y: spec_clamp_u32(i * hg / divisor + l.outergaps) as u32,
        width: spec_clamp0(
            l.resized_width + (vp.width as int - spec_cm_base_width(vp)) / 2,
        ) as u32,
        height: spec_sat_sub(hg / (n / 2), l.innergaps as int) as u32,
    }
}

/// The rectangle of the peer with accumulator `i` in the right sub-column,
/// among `n` stacked windows.
pub open spec fn spec_cm_right_geom(
    l: CenterMaster,
    vp: Viewport,
    n: int,
    i: int,
) -> WindowGeometry {
    let hg = spec_cm_gapped_height(l, vp);
    let base = spec_cm_base_width(vp);
    let right_len = (n - 1) / 2;
    let y = if n % 2 == 0 {
        if right_len < 2 {
            spec_clamp_u32(0 + l.outergaps)
        } else {
            spec_clamp_u32((i - 1) * hg / (n - 2) + l.outergaps)
        }
    } else {
        spec_clamp_u32((i - 1) * hg / (n - 1) + l.outergaps)
    };
    WindowGeometry {
        x: (spec_clamp0(base + (vp.width as int - base) / 2 - l.resized_width)
            + l.outergaps) as u32,
        y: y as u32,
        width: spec_sat_sub(
            spec_clamp0(l.resized_width + (vp.width as int - base) / 2),
            2 * l.outergaps,
        ) as u32,
        height: spec_sat_sub(hg / right_len, l.innergaps as int) as u32,
    }
}

/// The rectangle of the peer with accumulator `i`: even accumulators go to
/// the left sub-column, odd ones to the right.
pub open spec fn spec_cm_peer_geom(l: CenterMaster, vp: Viewport, n: int, i: int) -> WindowGeometry {
    if i % 2 == 0 {
        spec_cm_left_geom(l, vp, n, i)
    } else {
        spec_cm_right_geom(l, vp, n, i)
    }
}

/// Everything the centred-master layout places: the fallback for fewer than
/// three windows, else the master rectangle followed by one alternating
/// sub-column rectangle per peer, in stack order.
pub open spec fn spec_cmaster_layout(
    l: CenterMaster,
    vp: Viewport,
    windows: Seq<WindowId>,
    fp: int,
    master: Option<WindowId>,
) -> Seq<(WindowId, Placement)> {
    if windows.len() == 0 {
        Seq::empty()
    } else {
        let m = spec_master_id(windows, fp, master);
        if windows.len() < 3 {
            spec_tile_layout(spec_cm_fallback(l), vp, windows, fp, Some(m))
        } else {
            let peers = spec_peers(windows, m);
            seq![(m, Placement::Visible(spec_cm_master_geom(l, vp)))] + Seq::new(
                peers.len(),
                |i: int|
                    (peers[i], Placement::Visible(spec_cm_peer_geom(l, vp, windows.len() as int, i))),
            )
        }
    }
}

impl CenterMaster {
    pub open spec fn wf(self) -> bool {
        &&& -0xFFFF <= self.resized_width <= 0xFFFF
        &&& -0xFFFF <= self.tile_resized_width <= 0xFFFF
        &&& self.innergaps <= 0xFFFF
        &&& self.outergaps <= 0xFFFF
    }

    pub fn new(name: &str, innergaps: u32, outergaps: u32) -> (l: CenterMaster)
        ensures
            l.wf(),
            l.name@ == name@,
            l.resized_width == 160,
            l.tile_resized_width == 160,
            l.innergaps == spec_cap16(innergaps as int),
            l.outergaps == spec_cap16(outergaps as int),
    {
        CenterMaster {
            name: name.to_owned(),
            resized_width: 160,
            tile_resized_width: 160,
            innergaps: cap16(innergaps),
            outergaps: cap16(outergaps),
        }
    }

    /// Shrinking the master widens `resized_width` toward its upper bound of
    /// an eighth of the viewport, and narrows the fallback offset.
    pub open spec fn spec_decrease_master(self, vp: Viewport, amount: int) -> CenterMaster {
        let cap = vp.width as int / 8;
        let bound = TileLayout::spec_resize_bound(vp);
        CenterMaster {
            resized_width: (if self.resized_width + amount > cap {
                cap
            } else {
                self.resized_width + amount
            }) as i32,
            tile_resized_width: (if self.tile_resized_width - amount < -bound {
                -bound
            } else {
                self.tile_resized_width - amount
            }) as i32,
            ..self
        }
    }

    /// Growing the master narrows `resized_width` toward its lower bound of
    /// a fourteenth of the viewport, and widens the fallback offset.
    pub open spec fn spec_increase_master(self, vp: Viewport, amount: int) -> CenterMaster {
        let cap = vp.width as int / 14;
        let bound = TileLayout::spec_resize_bound(vp);
        CenterMaster {
            resized_width: (if self.resized_width - amount < -cap {
                -cap
            } else {
                self.resized_width - amount
            }) as i32,
            tile_resized_width: (if self.tile_resized_width + amount > bound {
                bound
            } else {
                self.tile_resized_width + amount
            }) as i32,
            ..self
        }
    }

    pub fn decrease_master(&mut self, viewport: &Viewport, amount: i32)
        requires
            old(self).wf(),
            viewport.wf(),
            0 <= amount <= 0xFFFF,
        ensures
            final(self).wf(),
            *final(self) == old(self).spec_decrease_master(*viewport, amount as int),
    {
        let cap: i32 = (viewport.width / 8) as i32;
        let bound: i32 = (viewport.width / 2) as i32 - (viewport.width / 8) as i32;
        let next: i32 = self.resized_width + amount;
        if next > cap {
            self.resized_width = cap;
        } else {
            self.resized_width = next;
        }
        let next_tile: i32 = self.tile_resized_width - amount;
        if next_tile < -bound {
            self.tile_resized_width = -bound;
        } else {
            self.tile_resized_width = next_tile;
        }
    }

    pub fn increase_master(&mut self, viewport: &Viewport, amount: i32)
        requires
            old(self).wf(),
            viewport.wf(),
            0 <= amount <= 0xFFFF,
        ensures
            final(self).wf(),
            *final(self) == old(self).spec_increase_master(*viewport, amount as int),
    {
        let cap: i32 = (viewport.width / 14) as i32;
        let bound: i32 = (viewport.width / 2) as i32 - (viewport.width / 8) as i32;
        let next: i32 = self.resized_width - amount;
        if next < -cap {
            self.resized_width = -cap;
        } else {
            self.resized_width = next;
        }
        let next_tile: i32 = self.tile_resized_width + amount;
        if next_tile > bound {
            self.tile_resized_width = bound;
        } else {
            self.tile_resized_width = next_tile;
        }
    }

    pub open spec fn spec_increase_innergaps(self) -> CenterMaster {
        CenterMaster { innergaps: spec_cap16(self.innergaps + 1) as u32, ..self }
    }

    pub open spec fn spec_decrease_innergaps(self) -> CenterMaster {
        if self.innergaps > 0 {
            CenterMaster { innergaps: (self.innergaps - 1) as u32, ..self }
        } else {
            self
        }
    }

    pub open spec fn spec_increase_outergaps(self) -> CenterMaster {
        CenterMaster { outergaps: spec_cap16(self.outergaps + 1) as u32, ..self }
    }

    pub open spec fn spec_decrease_outergaps(self) -> CenterMaster {
        if self.outergaps > 0 {
            CenterMaster { outergaps: (self.outergaps - 1) as u32, ..self }
        } else {
            self
        }
    }

    pub fn increase_innergaps(&mut self)
        requires
            old(self).wf(),
        ensures
            final(self).wf(),
            *final(self) == old(self).spec_increase_innergaps(),
    {
        if self.innergaps < 0xFFFF {
            self.innergaps = self.innergaps + 1;
        }
    }

    /// Answers true when the gap is already zero and the decrease is
    /// rejected.
    pub fn decrease_innergaps(&mut self) -> (rejected: bool)
        requires
            old(self).wf(),
        ensures
            final(self).wf(),
            *final(self) == old(self).spec_decrease_innergaps(),
            rejected == (old(self).innergaps == 0),
    {
        if self.innergaps > 0 {
            self.innergaps = self.innergaps - 1;
            false
        } else {
            true
        }
    }

    pub fn increase_outergaps(&mut self)
        requires
            old(self).wf(),
        ensures
            final(self).wf(),
            *final(self) == old(self).spec_increase_outergaps(),
    {
        if self.outergaps < 0xFFFF {
            self.outergaps = self.outergaps + 1;
        }
    }

    /// Answers true when the gap is already zero and the decrease is
    /// rejected.
    pub fn decrease_outergaps(&mut self) -> (rejected: bool)
        requires
            old(self).wf(),
        ensures
            final(self).wf(),
            *final(self) == old(self).spec_decrease_outergaps(),
            rejected == (old(self).outergaps == 0),
    {
        if self.outergaps > 0 {
            self.outergaps = self.outergaps - 1;
            false
        } else {
            true
        }
    }

    /// The centred master's rectangle, computed.
    fn master_geometry(&self, viewport: &Viewport) -> (g: WindowGeometry)
        requires
            self.wf(),
            viewport.wf(),
        ensures
            g == spec_cm_master_geom(*self, *viewport),
    {
        let base: i64 = (viewport.width / 2) as i64 + (viewport.width / 16) as i64;
        let raw: i64 = base - 2 * (self.resized_width as i64);
        let clamped: u32 = if raw >= 0 {
            raw as u32
        } else {
            0
        };
        let width: u32 = sat_sub(clamped, 2 * self.innergaps);
        let x: u32 = sat_sub(viewport.width, width) / 2 + self.outergaps;
        proof {
            assert(spec_clamp0(viewport.width - width) == spec_sat_sub(
                viewport.width as int,
                width as int,
            ));
        }
        WindowGeometry {
            x,
            y: self.outergaps,
            width,
            height: sat_sub(viewport.height, 2 * self.outergaps),
        }
    }

    /// The rectangle of the peer with accumulator `i`, computed.
    fn peer_geometry(&self, viewport: &Viewport, n: usize, i: usize) -> (g: WindowGeometry)
        requires
            self.wf(),
            viewport.wf(),
            n >= 3,
        ensures
            g == spec_cm_peer_geom(*self, *viewport, n as int, i as int),
    {
        let hg: u32 = sat_sub(viewport.height, 2 * self.outergaps) + self.innergaps;
        let base: u32 = viewport.width / 2 + viewport.width / 16;
        let rest_half: u32 = (viewport.width - base) / 2;
        if i % 2 == 0 {
            let divisor: usize = if n % 2 == 0 {
                n
            } else {
                n - 1
            };
            let y: u32 = mul_div_add_clamped_usize(i, hg, divisor, self.outergaps);
            let w_raw: i64 = self.resized_width as i64 + rest_half as i64;
            let width: u32 = if w_raw >= 0 {
                w_raw as u32
            } else {
                0
            };
            let height: u32 = div_sat(hg, n / 2, self.innergaps);
            WindowGeometry { x: self.outergaps, y, width, height }
        } else {
            let x_raw: i64 = base as i64 + rest_half as i64 - self.resized_width as i64;
            let x_clamped: u32 = if x_raw >= 0 {
                x_raw as u32
            } else {
                0
            };
            let x: u32 = x_clamped + self.outergaps;
            let w_raw: i64 = self.resized_width as i64 + rest_half as i64;
            let w_clamped: u32 = if w_raw >= 0 {
                w_raw as u32
            } else {
                0
            };
            let width: u32 = sat_sub(w_clamped, 2 * self.outergaps);
            let right_len: usize = (n - 1) / 2;
            let height: u32 = div_sat(hg, right_len, self.innergaps);
            let y: u32 = if n % 2 == 0 {
                if right_len < 2 {
                    mul_div_add_clamped_usize(0, hg, 1, self.outergaps)
                } else {
                    mul_div_add_clamped_usize(i - 1, hg, n - 2, self.outergaps)
                }
            } else {
                mul_div_add_clamped_usize(i - 1, hg, n - 1, self.outergaps)
            };
            WindowGeometry { x, y, width, height }
        }
    }

    /// Computes the centred-master placements; see `spec_cmaster_layout`.
    pub fn layout(
        &self,
        viewport: &Viewport,
        stack: &Stack<WindowId>,
        master: &Option<WindowId>,
    ) -> (r: Vec<(WindowId, Placement)>)
        requires
            self.wf(),
            viewport.wf(),
            stack.wf(),
        ensures
            r@ == spec_cmaster_layout(*self, *viewport, stack@, stack.focus_pos(), *master),
    {
        let mut result: Vec<(WindowId, Placement)> = Vec::new();
        if stack.is_empty() {
            proof {
                assert(result@ =~= spec_cmaster_layout(
                    *self,
                    *viewport,
                    stack@,
                    stack.focus_pos(),
                    *master,
                ));
            }
            return result;
        }
        let master_id: WindowId = match master {
            Some(m) => *m,
            None => {
                match stack.focused() {
                    Some(w) => *w,
                    None => {
                        proof {
                            assert(false);
                        }
                        WindowId(0)
                    },
                }
            },
        };
        let n = stack.stack_len();
        if n < 3 {
            let fallback = TileLayout {
                name: self.name.clone(),
                resized_width: self.tile_resized_width,
                innergaps: self.innergaps,
                outergaps: self.outergaps,
            };
            let r = fallback.layout(viewport, stack, &Some(master_id));
            return r;
        }
        let mg = self.master_geometry(viewport);
        result.push((master_id, Placement::Visible(mg)));
        let ghost header = seq![(master_id, Placement::Visible(spec_cm_master_geom(*self, *viewport)))];
        let mut j: usize = 0;
        let mut acc: usize = 0;
        proof {
            assert(result@ =~= header + Seq::new(
                spec_peers(stack@.take(0), master_id).len(),
                |i: int|
                    (
                        spec_peers(stack@.take(0), master_id)[i],
                        Placement::Visible(spec_cm_peer_geom(*self, *viewport, n as int, i)),
                    ),
            ));
        }
        while j < n
            invariant
                self.wf(),
                viewport.wf(),
                stack.wf(),
                n == stack@.len(),
                n >= 3,
                j <= n,
                acc == spec_peers(stack@.take(j as int), master_id).len(),
                acc <= j,
                result@ == header + Seq::new(
                    spec_peers(stack@.take(j as int), master_id).len(),
                    |i: int|
                        (
                            spec_peers(stack@.take(j as int), master_id)[i],
                            Placement::Visible(spec_cm_peer_geom(*self, *viewport, n as int, i)),
                        ),
                ),
            decreases n - j,
        {
            let w: WindowId = *stack.get(j);
            proof {
                assert(stack@.take(j + 1 as int).drop_last() =~= stack@.take(j as int));
                assert(stack@.take(j + 1 as int).last() == stack@[j as int]);
            }
            if w.0 != master_id.0 {
                let pg = self.peer_geometry(viewport, n, acc);
                result.push((w, Placement::Visible(pg)));
                acc = acc + 1;
                proof {
                    assert(result@ =~= header + Seq::new(
                        spec_peers(stack@.take(j + 1 as int), master_id).len(),
                        |i: int|
                            (
                                spec_peers(stack@.take(j + 1 as int), master_id)[i],
                                Placement::Visible(
                                    spec_cm_peer_geom(*self, *viewport, n as int, i),
                                ),
                            ),
                    ));
                }
            } else {
                proof {
                    assert(w == master_id);
                    assert(spec_peers(stack@.take(j + 1 as int), master_id) =~= spec_peers(
                        stack@.take(j as int),
                        master_id,
                    ));
                }
            }
            j += 1;
        }
        proof {
            assert(stack@.take(n as int) =~= stack@);
            assert(result@ =~= spec_cmaster_layout(
                *self,
                *viewport,
                stack@,
                stack.focus_pos(),
                *master,
            ));
        }
        result
    }
}

/// `hg / d`, minus one inner gap, floored at zero; `d` counts the windows of
/// one sub-column.
fn div_sat(hg: u32, d: usize, gap: u32) -> (r: u32)
    requires
        d >= 1,
    ensures
        r == spec_sat_sub(hg as int / d as int, gap as int),
{
    let q: u64 = (hg as u64) / (d as u64);
    proof {
        assert(q <= hg);
    }
    sat_sub(q as u32, gap)
}

/// `i * a / d + base`, clamped at the coordinate ceiling, with a `usize`
/// divisor.
fn mul_div_add_clamped_usize(i: usize, a: u32, d: usize, base: u32) -> (r: u32)
    requires
        d >= 1,
    ensures
        r == spec_clamp_u32(i * a / (d as int) + base),
{
    let iw: u128 = i as u128;
    let aw: u128 = a as u128;
    proof {
        assert(iw * aw <= 0xFFFF_FFFF_FFFF_FFFFu128 * 0xFFFF_FFFFu128) by (nonlinear_arith)
            requires
                iw <= 0xFFFF_FFFF_FFFF_FFFFu128,
                aw <= 0xFFFF_FFFFu128,
        ;
    }
    let wide: u128 = iw * aw / (d as u128) + (base as u128);
    if wide > 0xFFFF_FFFFu128 {
        0xFFFF_FFFFu32
    } else {
        wide as u32
    }
}

} // verus!
