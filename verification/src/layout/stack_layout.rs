use vstd::prelude::*;

use crate::geometry::{Viewport, WindowGeometry, WindowId};
use crate::layout::{spec_peers, Placement};
use crate::stack::Stack;

verus! {

/// The single-window layout: only the focused window is visible, filling
/// the whole viewport; every other window is hidden while unfocused.
#[derive(Debug)]
pub struct StackLayout {
    pub name: String,
}

impl Clone for StackLayout {
    fn clone(&self) -> (r: Self)
        ensures
            r == *self,
    {
        StackLayout { name: self.name.clone() }
    }
}

/// Everything the single-window layout places: each unfocused window is
/// hidden, in stack order, and the focused window is then shown over the
/// full viewport.
pub open spec fn spec_stack_layout(
    vp: Viewport,
    windows: Seq<WindowId>,
    fp: int,
) -> Seq<(WindowId, Placement)> {
    if windows.len() == 0 {
        Seq::empty()
    } else {
        let focused = windows[fp];
        let peers = spec_peers(windows, focused);
        Seq::new(peers.len(), |i: int| (peers[i], Placement::Hidden)) + seq![
            (focused, Placement::Visible(WindowGeometry::spec_of_viewport(vp))),
        ]
    }
}

impl StackLayout {
    pub fn new(name: &str) -> (l: StackLayout)
        ensures
            l.name@ == name@,
    {
        StackLayout { name: name.to_owned() }
    }

    /// Computes the single-window placements; see `spec_stack_layout`.
    pub fn layout(
        &self,
        viewport: &Viewport,
        stack: &Stack<WindowId>,
        _master: &Option<WindowId>,
    ) -> (r: Vec<(WindowId, Placement)>)
        requires
            viewport.wf(),
            stack.wf(),
        ensures
            r@ == spec_stack_layout(*viewport, stack@, stack.focus_pos()),
    {
        let mut result: Vec<(WindowId, Placement)> = Vec::new();
        if stack.is_empty() {
            proof {
                assert(result@ =~= spec_stack_layout(*viewport, stack@, stack.focus_pos()));
            }
            return result;
        }
        let focused: WindowId = match stack.focused() {
            Some(w) => *w,
            None => {
                proof {
                    assert(false);
                }
                WindowId(0)
            },
        };
        let n = stack.stack_len();
        let mut j: usize = 0;
        while j < n
            invariant
                viewport.wf(),
                stack.wf(),
                n == stack@.len(),
                j <= n,
                result@ == Seq::new(
                    spec_peers(stack@.take(j as int), focused).len(),
                    |i: int| (spec_peers(stack@.take(j as int), focused)[i], Placement::Hidden),
                ),
            decreases n - j,
        {
            let w: WindowId = *stack.get(j);
            proof {
                assert(stack@.take(j + 1 as int).drop_last() =~= stack@.take(j as int));
                assert(stack@.take(j + 1 as int).last() == stack@[j as int]);
            }
            if w.0 != focused.0 {
                result.push((w, Placement::Hidden));
                proof {
                    assert(result@ =~= Seq::new(
                        spec_peers(stack@.take(j + 1 as int), focused).len(),
                        |i: int|
                            (spec_peers(stack@.take(j + 1 as int), focused)[i], Placement::Hidden),
                    ));
                }
            } else {
                proof {
                    assert(w == focused);
                    assert(spec_peers(stack@.take(j + 1 as int), focused) =~= spec_peers(
                        stack@.take(j as int),
                        focused,
                    ));
                }
            }
            j += 1;
        }
        result.push((focused, Placement::Visible(WindowGeometry::of_viewport(viewport))));
        proof {
            assert(stack@.take(n as int) =~= stack@);
            assert(result@ =~= spec_stack_layout(*viewport, stack@, stack.focus_pos()));
        }
        result
    }
}

/// Exactly one of the placements the single-window layout produces is
/// visible, and it is the focused window over the full viewport; every
/// other entry is hidden.
pub proof fn lemma_stack_layout_one_visible(vp: Viewport, windows: Seq<WindowId>, fp: int)
    requires
        windows.len() > 0,
        0 <= fp < windows.len(),
    ensures
        ({
            let r = spec_stack_layout(vp, windows, fp);
            &&& r.len() > 0
            &&& r.last() == (
                windows[fp],
                Placement::Visible(WindowGeometry::spec_of_viewport(vp)),
            )
            &&& forall|i: int| 0 <= i < r.len() - 1 ==> (#[trigger] r[i]).1 == Placement::Hidden
        }),
{
}

} // verus!
