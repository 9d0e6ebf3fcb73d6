use vstd::prelude::*;

use crate::geometry::{
    cap16, mul_add_clamped, sat_sub, spec_cap16, spec_clamp_u32, spec_sat_sub, Viewport,
    WindowGeometry, WindowId,
};
use crate::layout::Placement;
use crate::stack::Stack;

verus! {

/// The single-column layout: every window spans the padded viewport width,
/// and the heights divide the viewport evenly, with padding between rows.
#[derive(Debug)]
pub struct TiledLayout {
    pub name: String,
    pub padding: u32,
}

impl Clone for TiledLayout {
    fn clone(&self) -> (r: Self)
        ensures
            r == *self,
    {
        TiledLayout { name: self.name.clone(), padding: self.padding }
    }
}

/// The height of each of the `n` rows.
pub open spec fn spec_tiled_height(l: TiledLayout, vp: Viewport, n: int) -> int {
    spec_sat_sub(spec_sat_sub(vp.height as int, l.padding as int) / n, l.padding as int)
}

/// The rectangle of the `i`-th row of `n`.
pub open spec fn spec_tiled_geom(l: TiledLayout, vp: Viewport, n: int, i: int) -> WindowGeometry {
    WindowGeometry {
        x: (vp.x + l.padding) as u32,
        y: spec_clamp_u32(
            (vp.y + l.padding) + i * (spec_tiled_height(l, vp, n) + l.padding),
        ) as u32,
        width: spec_sat_sub(vp.width as int, 22 * l.padding) as u32,
        height: spec_tiled_height(l, vp, n) as u32,
    }
}

/// Everything the single-column layout places: one visible row per window,
/// in stack order, with no distinguished master.
pub open spec fn spec_tiled_layout(
    l: TiledLayout,
    vp: Viewport,
    windows: Seq<WindowId>,
) -> Seq<(WindowId, Placement)> {
    Seq::new(
        windows.len(),
        |i: int| (windows[i], Placement::Visible(spec_tiled_geom(l, vp, windows.len() as int, i))),
    )
}

impl TiledLayout {
    pub open spec fn wf(self) -> bool {
        self.padding <= 0xFFFF
    }

    pub fn new(name: &str, padding: u32) -> (l: TiledLayout)
        ensures
            l.wf(),
            l.name@ == name@,
            l.padding == spec_cap16(padding as int),
    {
        TiledLayout { name: name.to_owned(), padding: cap16(padding) }
    }

    /// Computes the single-column placements; see `spec_tiled_layout`.
    pub fn layout(
        &self,
        viewport: &Viewport,
        stack: &Stack<WindowId>,
        _master: &Option<WindowId>,
    ) -> (r: Vec<(WindowId, Placement)>)
        requires
            self.wf(),
            viewport.wf(),
            stack.wf(),
        ensures
            r@ == spec_tiled_layout(*self, *viewport, stack@),
    {
        let mut result: Vec<(WindowId, Placement)> = Vec::new();
        if stack.is_empty() {
            proof {
                assert(result@ =~= spec_tiled_layout(*self, *viewport, stack@));
            }
            return result;
        }
        let n = stack.stack_len();
        let row: u64 = (sat_sub(viewport.height, self.padding) as u64) / (n as u64);
        proof {
            assert(row <= 0xFFFF);
        }
        let tile_height: u32 = sat_sub(row as u32, self.padding);
        let mut j: usize = 0;
        while j < n
            invariant
                self.wf(),
                viewport.wf(),
                stack.wf(),
                n == stack@.len(),
                j <= n,
                tile_height == spec_tiled_height(*self, *viewport, n as int),
                result@ == Seq::new(
                    j as nat,
                    |i: int|
                        (
                            stack@[i],
                            Placement::Visible(spec_tiled_geom(*self, *viewport, n as int, i)),
                        ),
                ),
            decreases n - j,
        {
            let w: WindowId = *stack.get(j);
            let geom = WindowGeometry {
                x: viewport.x + self.padding,
                y: mul_add_clamped(viewport.y + self.padding, j, tile_height + self.padding),
                width: sat_sub(viewport.width, 22 * self.padding),
                height: tile_height,
            };
            result.push((w, Placement::Visible(geom)));
            proof {
                assert(result@ =~= Seq::new(
                    (j + 1) as nat,
                    |i: int|
                        (
                            stack@[i],
                            Placement::Visible(spec_tiled_geom(*self, *viewport, n as int, i)),
                        ),
                ));
            }
            j += 1;
        }
        result
    }
}

} // verus!
