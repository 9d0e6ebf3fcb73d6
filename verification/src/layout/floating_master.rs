use vstd::prelude::*;

use crate::geometry::{sat_sub, spec_sat_sub, Viewport, WindowGeometry, WindowId};
use crate::layout::{spec_peers, Placement};
use crate::stack::Stack;

verus! {

/// The floating-master layout: the first window of the stack floats at a
/// fixed inset from the viewport edges, raised above its peers, which share
/// one row behind it.
#[derive(Debug)]
pub struct FloatingMasterLayout {
    pub name: String,
}

impl Clone for FloatingMasterLayout {
    fn clone(&self) -> (r: Self)
        ensures
            r == *self,
    {
        FloatingMasterLayout { name: self.name.clone() }
    }
}

/// The floating master's rectangle: the viewport inset by fixed margins.
pub open spec fn spec_floating_master_geom(vp: Viewport) -> WindowGeometry {
    WindowGeometry {
        x: (vp.x + 150) as u32,
        y: (vp.y + 50) as u32,
        width: spec_sat_sub(vp.width as int, 300) as u32,
        height: spec_sat_sub(vp.height as int, 100) as u32,
    }
}

/// The rectangle of the peer with one-based index `k`: the row divides the
/// viewport width by the number of peers placed so far.
pub open spec fn spec_floating_peer_geom(vp: Viewport, k: int) -> WindowGeometry {
    WindowGeometry {
        x: (vp.x + if k > 1 {
            vp.width as int / k
        } else {
            0
        }) as u32,
        y: vp.y,
        width: (vp.width as int / k) as u32,
        height: vp.height,
    }
}

/// Everything the floating-master layout places: the first window of the
/// stack raised over the peers, which follow in stack order.
pub open spec fn spec_floating_layout(
    vp: Viewport,
    windows: Seq<WindowId>,
) -> Seq<(WindowId, Placement)> {
    if windows.len() == 0 {
        Seq::empty()
    } else {
        let m = windows[0];
        if windows.len() < 2 {
            seq![(m, Placement::Visible(WindowGeometry::spec_of_viewport(vp)))]
        } else {
            let peers = spec_peers(windows, m);
            seq![(m, Placement::VisibleRaised(spec_floating_master_geom(vp)))] + Seq::new(
                peers.len(),
                |i: int| (peers[i], Placement::Visible(spec_floating_peer_geom(vp, i + 1))),
            )
        }
    }
}

impl FloatingMasterLayout {
    pub fn new(name: &str) -> (l: FloatingMasterLayout)
        ensures
            l.name@ == name@,
    {
        FloatingMasterLayout { name: name.to_owned() }
    }

    /// The peer rectangle for the one-based accumulator `k`, computed.
    fn peer_geometry(viewport: &Viewport, k: usize) -> (g: WindowGeometry)
        requires
            viewport.wf(),
            1 <= k,
        ensures
            g == spec_floating_peer_geom(*viewport, k as int),
    {
        let wide: u64 = (viewport.width as u64) / (k as u64);
        proof {
            assert(wide <= 0xFFFF);
        }
        let share: u32 = wide as u32;
        WindowGeometry {
            x: viewport.x + (if k > 1 {
                share
            } else {
                0
            }),
            y: viewport.y,
            width: share,
            height: viewport.height,
        }
    }

    /// Computes the floating-master placements; see `spec_floating_layout`.
    pub fn layout(
        &self,
        viewport: &Viewport,
        stack: &Stack<WindowId>,
        _master: &Option<WindowId>,
    ) -> (r: Vec<(WindowId, Placement)>)
        requires
            viewport.wf(),
            stack.wf(),
        ensures
            r@ == spec_floating_layout(*viewport, stack@),
    {
        let mut result: Vec<(WindowId, Placement)> = Vec::new();
        if stack.is_empty() {
            proof {
                assert(result@ =~= spec_floating_layout(*viewport, stack@));
            }
            return result;
        }
        let master_id: WindowId = *stack.get(0);
        let n = stack.stack_len();
        if n < 2 {
            result.push((master_id, Placement::Visible(WindowGeometry::of_viewport(viewport))));
            proof {
                assert(result@ =~= spec_floating_layout(*viewport, stack@));
            }
            return result;
        }
        let mg = WindowGeometry {
            x: viewport.x + 150,
            y: viewport.y + 50,
            width: sat_sub(viewport.width, 300),
            height: sat_sub(viewport.height, 100),
        };
        result.push((master_id, Placement::VisibleRaised(mg)));
        let ghost header = seq![
            (master_id, Placement::VisibleRaised(spec_floating_master_geom(*viewport))),
        ];
        let mut j: usize = 0;
        let mut acc: usize = 0;
        proof {
            assert(result@ =~= header + Seq::new(
                spec_peers(stack@.take(0), master_id).len(),
                |i: int|
                    (
                        spec_peers(stack@.take(0), master_id)[i],
                        Placement::Visible(spec_floating_peer_geom(*viewport, i + 1)),
                    ),
            ));
        }
        while j < n
            invariant
                viewport.wf(),
                stack.wf(),
                n == stack@.len(),
                j <= n,
                acc == spec_peers(stack@.take(j as int), master_id).len(),
                acc <= j,
                result@ == header + Seq::new(
                    spec_peers(stack@.take(j as int), master_id).len(),
                    |i: int|
                        (
                            spec_peers(stack@.take(j as int), master_id)[i],
                            Placement::Visible(spec_floating_peer_geom(*viewport, i + 1)),
                        ),
                ),
            decreases n - j,
        {
            let w: WindowId = *stack.get(j);
            proof {
                assert(stack@.take(j + 1 as int).drop_last() =~= stack@.take(j as int));
                assert(stack@.take(j + 1 as int).last() == stack@[j as int]);
            }
            if w.0 != master_id.0 {
                let pg = Self::peer_geometry(viewport, acc + 1);
                result.push((w, Placement::Visible(pg)));
                acc = acc + 1;
                proof {
                    assert(result@ =~= header + Seq::new(
                        spec_peers(stack@.take(j + 1 as int), master_id).len(),
                        |i: int|
                            (
                                spec_peers(stack@.take(j + 1 as int), master_id)[i],
                                Placement::Visible(spec_floating_peer_geom(*viewport, i + 1)),
                            ),
                    ));
                }
            } else {
                proof {
                    assert(w == master_id);
                    assert(spec_peers(stack@.take(j + 1 as int), master_id) =~= spec_peers(
                        stack@.take(j as int),
                        master_id,
                    ));
                }
            }
            j += 1;
        }
        proof {
            assert(stack@.take(n as int) =~= stack@);
            assert(result@ =~= spec_floating_layout(*viewport, stack@));
        }
        result
    }
}

} // verus!
