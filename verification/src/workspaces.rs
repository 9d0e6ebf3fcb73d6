use vstd::prelude::*;

use crate::events::{placements_to_effects, spec_placement_effect, Effect, GapKind};
use crate::geometry::{Viewport, WindowId};
use crate::layout::{Layout, Placement};
use crate::stack::{
    lemma_nonempty_has_unique_focus, spec_remove_at_fp, spec_rotate_next, spec_rotate_previous,
    Stack,
};

verus! {

/// The master a workspace caches after its window focus changed: the newly
/// focused window, or nothing when the workspace emptied.
pub open spec fn spec_master_after(windows: Seq<WindowId>, fp: int) -> Option<WindowId> {
    if windows.len() > 0 {
        Some(windows[fp])
    } else {
        None
    }
}

/// The name and default layout a workspace is created from.
#[derive(Debug)]
pub struct WorkSpaceBuilder {
    name: String,
    default_layout: String,
}

impl Clone for WorkSpaceBuilder {
    fn clone(&self) -> (r: Self)
        ensures
            r.spec_name() == self.spec_name(),
            r.spec_default_layout() == self.spec_default_layout(),
    {
        WorkSpaceBuilder { name: self.name.clone(), default_layout: self.default_layout.clone() }
    }
}

impl WorkSpaceBuilder {
    pub closed spec fn spec_name(&self) -> Seq<char> {
        self.name@
    }

    pub closed spec fn spec_default_layout(&self) -> Seq<char> {
        self.default_layout@
    }

    pub fn new(name: &str, default_layout: &str) -> (b: WorkSpaceBuilder)
        ensures
            b.spec_name() == name@,
            b.spec_default_layout() == default_layout@,
    {
        WorkSpaceBuilder { name: name.to_owned(), default_layout: default_layout.to_owned() }
    }

    /// Builds the workspace: inactive, empty, with the given layouts and the
    /// one matching the builder's default name focused; when no layout
    /// carries that name, the first stays focused.
    pub fn build(self, layouts: Vec<Layout>) -> (w: WorkSpace)
        requires
            forall|i: int| 0 <= i < layouts@.len() ==> (#[trigger] layouts@[i]).wf(),
        ensures
            w.wf(),
            w.spec_name() == self.spec_name(),
            w.windows() == Seq::<WindowId>::empty(),
            !w.is_active(),
            w.spec_master() is None,
            w.layouts() == layouts@,
            w.spec_viewport() == (Viewport { x: 0, y: 0, width: 0, height: 0 }),
            if exists|i: int|
                0 <= i < layouts@.len() && (#[trigger] layouts@[i]).spec_name()
                    == self.spec_default_layout() {
                exists|i: int|
                    {
                        &&& 0 <= i < layouts@.len()
                        &&& (#[trigger] layouts@[i]).spec_name() == self.spec_default_layout()
                        &&& (forall|j: int|
                            0 <= j < i ==> (#[trigger] layouts@[j]).spec_name()
                                != self.spec_default_layout())
                        &&& w.layout_pos() == i
                    }
            } else {
                w.layout_pos() == 0
            },
    {
        let mut layouts_stack: Stack<Layout> = Stack::from_vec(layouts);
        let target: &String = &self.default_layout;
        let pred = |l: &Layout| -> (b: bool)
            ensures
                b == (l.spec_name() == target@),
            {
                str_eq_strings(l.name(), target)
            };
        let found = layouts_stack.focus(pred);
        proof {
            if found {
                let i = choose|i: int|
                    {
                        &&& 0 <= i < layouts@.len()
                        &&& #[trigger] call_ensures(pred, (&layouts@[i],), true)
                        &&& (forall|j: int|
                            0 <= j < i ==> call_ensures(pred, (&layouts@[j],), false))
                        &&& layouts_stack.focus_pos() == i
                    };
                assert(layouts@[i].spec_name() == self.default_layout@);
                assert(forall|j: int|
                    0 <= j < i ==> (#[trigger] layouts@[j]).spec_name() != self.default_layout@);
            } else {
                assert(forall|j: int|
                    0 <= j < layouts@.len() ==> (#[trigger] layouts@[j]).spec_name()
                        != self.default_layout@);
            }
        }
        WorkSpace {
            name: self.name,
            active: false,
            stack: Stack::new(),
            layouts: layouts_stack,
            viewport: Viewport { x: 0, y: 0, width: 0, height: 0 },
            master: None,
        }
    }
}

/// String equality through the standard comparison, at the view level.
fn str_eq_strings(a: &String, b: &String) -> (r: bool)
    ensures
        r == (a@ == b@),
{
    let x: String = a.clone();
    let y: String = b.clone();
    x == y
}

/// A named, independently laid-out collection of windows.  It owns one
/// window focus-stack, one layout focus-stack, the viewport it was last
/// activated with, an activation flag, and the cached master window.
pub struct WorkSpace {
    name: String,
    active: bool,
    stack: Stack<WindowId>,
    layouts: Stack<Layout>,
    viewport: Viewport,
    master: Option<WindowId>,
}

impl WorkSpace {
    /// The windows of this workspace, in stack order.
    pub closed spec fn windows(&self) -> Seq<WindowId> {
        self.stack@
    }

    /// The index of the focused window.
    pub closed spec fn focus_pos(&self) -> int {
        self.stack.focus_pos()
    }

    /// The layouts of this workspace, in stack order.
    pub closed spec fn layouts(&self) -> Seq<Layout> {
        self.layouts@
    }

    /// The index of the active layout.
    pub closed spec fn layout_pos(&self) -> int {
        self.layouts.focus_pos()
    }

    pub closed spec fn spec_name(&self) -> Seq<char> {
        self.name@
    }

    pub closed spec fn is_active(&self) -> bool {
        self.active
    }

    pub closed spec fn spec_viewport(&self) -> Viewport {
        self.viewport
    }

    /// The cached master window: the window that master-style layouts
    /// anchor on, recomputed whenever the window focus changes.
    pub closed spec fn spec_master(&self) -> Option<WindowId> {
        self.master
    }

    /// The workspace invariant: both stacks and the viewport are well
    /// formed, every layout's parameters are in range, and the master names
    /// a window of the stack exactly when the stack is non-empty.
    pub closed spec fn wf(&self) -> bool {
        &&& self.stack.wf()
        &&& self.layouts.wf()
        &&& self.viewport.wf()
        &&& forall|i: int| 0 <= i < self.layouts@.len() ==> (#[trigger] self.layouts@[i]).wf()
        &&& (self.stack@.len() == 0 <==> self.master is None)
        &&& match self.master {
            Some(m) => self.stack@.contains(m),
            None => true,
        }
    }

    /// The outward requests one layout pass issues: the active layout's
    /// placements, then a focus request for the focused window, or an
    /// unfocus request when the workspace is empty.  An inactive workspace
    /// issues nothing.
    pub open spec fn spec_layout_effects(self) -> Seq<Effect> {
        if !self.is_active() {
            Seq::empty()
        } else {
            let placed = if self.layouts().len() > 0 {
                self.layouts()[self.layout_pos()].spec_layout(
                    self.spec_viewport(),
                    self.windows(),
                    self.focus_pos(),
                    self.spec_master(),
                ).map_values(|e: (WindowId, Placement)| spec_placement_effect(e))
            } else {
                Seq::empty()
            };
            placed + if self.windows().len() > 0 {
                seq![Effect::Focus(self.windows()[self.focus_pos()])]
            } else {
                seq![Effect::Unfocus]
            }
        }
    }

    /// Performs one layout pass; see `spec_layout_effects`.
    fn perform_layout(&self) -> (r: Vec<Effect>)
        requires
            self.wf(),
        ensures
            r@ == self.spec_layout_effects(),
    {
        let mut placed: Vec<Effect> = Vec::new();
        if !self.active {
            proof {
                assert(placed@ =~= self.spec_layout_effects());
            }
            return placed;
        }
        match self.layouts.focused() {
            Some(l) => {
                proof {
                    lemma_nonempty_has_unique_focus(self.layouts);
                    assert(self.layouts@[self.layouts.focus_pos()].wf());
                }
                let placements = l.layout(&self.viewport, &self.stack, &self.master);
                placed = placements_to_effects(placements);
            },
            None => (),
        }
        match self.stack.focused() {
            Some(w) => {
                placed.push(Effect::Focus(*w));
            },
            None => {
                placed.push(Effect::Unfocus);
            },
        }
        proof {
            assert(placed@ =~= self.spec_layout_effects());
        }
        placed
    }

    /// How many windows this workspace holds.
    pub fn window_count(&self) -> (n: usize)
        requires
            self.wf(),
        ensures
            n == self.windows().len(),
    {
        self.stack.stack_len()
    }

    pub fn name(&self) -> (r: &String)
        ensures
            r@ == self.spec_name(),
    {
        &self.name
    }

    /// Whether the given window is in this workspace's stack.
    pub fn contains(&self, window_id: &WindowId) -> (r: bool)
        requires
            self.wf(),
        ensures
            r == self.windows().contains(*window_id),
    {
        let n = self.stack.stack_len();
        let mut j: usize = 0;
        while j < n
            invariant
                self.wf(),
                n == self.windows().len(),
                j <= n,
                forall|i: int| 0 <= i < j ==> self.windows()[i] != *window_id,
            decreases n - j,
        {
            if self.stack.get(j).0 == window_id.0 {
                proof {
                    assert(self.windows()[j as int] == *window_id);
                }
                return true;
            }
            j += 1;
        }
        proof {
            assert(!self.windows().contains(*window_id));
        }
        false
    }

    /// Marks the workspace active on the given viewport and lays it out.
    pub fn activate(&mut self, viewport: Viewport) -> (r: Vec<Effect>)
        requires
            old(self).wf(),
            viewport.wf(),
        ensures
            final(self).wf(),
            final(self).is_active(),
            final(self).spec_viewport() == viewport,
            final(self).windows() == old(self).windows(),
            final(self).focus_pos() == old(self).focus_pos(),
            final(self).layouts() == old(self).layouts(),
            final(self).layout_pos() == old(self).layout_pos(),
            final(self).spec_master() == old(self).spec_master(),
            final(self).spec_name() == old(self).spec_name(),
            r@ == final(self).spec_layout_effects(),
    {
        self.active = true;
        self.viewport = viewport;
        self.perform_layout()
    }

    /// Hides every window of the stack and marks the workspace inactive;
    /// the stacks themselves are preserved for a later activation.
    pub fn deactivate(&mut self) -> (r: Vec<Effect>)
        requires
            old(self).wf(),
        ensures
            final(self).wf(),
            !final(self).is_active(),
            final(self).windows() == old(self).windows(),
            final(self).focus_pos() == old(self).focus_pos(),
            final(self).layouts() == old(self).layouts(),
            final(self).layout_pos() == old(self).layout_pos(),
            final(self).spec_master() == old(self).spec_master(),
            final(self).spec_viewport() == old(self).spec_viewport(),
            final(self).spec_name() == old(self).spec_name(),
            r@ == old(self).windows().map_values(|w: WindowId| Effect::Hide(w)),
    {
        let n = self.stack.stack_len();
        let mut r: Vec<Effect> = Vec::new();
        let mut j: usize = 0;
        while j < n
            invariant
                self.wf(),
                self == old(self),
                n == self.windows().len(),
                j <= n,
                r@ == self.windows().take(j as int).map_values(|w: WindowId| Effect::Hide(w)),
            decreases n - j,
        {
            let w: WindowId = *self.stack.get(j);
            r.push(Effect::Hide(w));
            proof {
                assert(self.windows().take(j + 1 as int) =~= self.windows().take(j as int).push(
                    self.windows()[j as int],
                ));
                assert(r@ =~= self.windows().take(j + 1 as int).map_values(
                    |w: WindowId| Effect::Hide(w),
                ));
            }
            j += 1;
        }
        proof {
            assert(self.windows().take(n as int) =~= self.windows());
        }
        self.active = false;
        r
    }

    /// Stores a fresh viewport and lays the workspace out on it.
    pub fn update_viewport(&mut self, viewport: Viewport) -> (r: Vec<Effect>)
        requires
            old(self).wf(),
            viewport.wf(),
        ensures
            final(self).wf(),
            final(self).spec_viewport() == viewport,
            final(self).is_active() == old(self).is_active(),
            final(self).windows() == old(self).windows(),
            final(self).focus_pos() == old(self).focus_pos(),
            final(self).layouts() == old(self).layouts(),
            final(self).layout_pos() == old(self).layout_pos(),
            final(self).spec_master() == old(self).spec_master(),
            final(self).spec_name() == old(self).spec_name(),
            r@ == final(self).spec_layout_effects(),
    {
        self.viewport = viewport;
        self.perform_layout()
    }

    /// Adds a window to the stack: it becomes the focused window and the
    /// master candidate, and the workspace is laid out again.
    pub fn add_window(&mut self, window_id: WindowId) -> (r: Vec<Effect>)
        requires
            old(self).wf(),
            old(self).windows().len() < usize::MAX,
        ensures
            final(self).wf(),
            final(self).windows() == old(self).windows().push(window_id),
            final(self).focus_pos() == old(self).windows().len(),
            final(self).spec_master() == Some(window_id),
            final(self).is_active() == old(self).is_active(),
            final(self).layouts() == old(self).layouts(),
            final(self).layout_pos() == old(self).layout_pos(),
            final(self).spec_viewport() == old(self).spec_viewport(),
            final(self).spec_name() == old(self).spec_name(),
            r@ == final(self).spec_layout_effects(),
    {
        self.stack.push(window_id);
        self.master = Some(window_id);
        proof {
            assert(self.stack@[self.stack@.len() - 1] == window_id);
            assert(self.stack@.contains(window_id));
        }
        self.perform_layout()
    }

    /// Recomputes the cached master from the focused window.
    fn change_master(&mut self)
        requires
            old(self).stack.wf(),
            old(self).layouts.wf(),
            old(self).viewport.wf(),
            forall|i: int| 0 <= i < old(self).layouts@.len() ==> (#[trigger] old(self).layouts@[i]).wf(),
        ensures
            final(self).wf(),
            final(self).spec_master() == spec_master_after(
                old(self).windows(),
                old(self).focus_pos(),
            ),
            final(self).windows() == old(self).windows(),
            final(self).focus_pos() == old(self).focus_pos(),
            final(self).layouts() == old(self).layouts(),
            final(self).layout_pos() == old(self).layout_pos(),
            final(self).is_active() == old(self).is_active(),
            final(self).spec_viewport() == old(self).spec_viewport(),
            final(self).spec_name() == old(self).spec_name(),
    {
        proof {
            if self.stack@.len() > 0 {
                lemma_nonempty_has_unique_focus(self.stack);
            }
        }
        match self.stack.focused() {
            Some(w) => {
                let w = *w;
                self.master = Some(w);
            },
            None => {
                self.master = None;
            },
        }
    }

    /// Removes the given window from the stack, recomputes the master from
    /// the new focus, and lays the workspace out again.  Answers the window
    /// when it was there, and nothing, changing nothing, when it was not.
    pub fn remove_window(&mut self, window_id: &WindowId) -> (r: (Option<WindowId>, Vec<Effect>))
        requires
            old(self).wf(),
        ensures
            final(self).wf(),
            final(self).layouts() == old(self).layouts(),
            final(self).layout_pos() == old(self).layout_pos(),
            final(self).is_active() == old(self).is_active(),
            final(self).spec_viewport() == old(self).spec_viewport(),
            final(self).spec_name() == old(self).spec_name(),
            match r.0 {
                Some(v) => {
                    &&& v == *window_id
                    &&& exists|i: int|
                        {
                            &&& 0 <= i < old(self).windows().len()
                            &&& old(self).windows()[i] == *window_id
                            &&& (forall|j: int|
                                0 <= j < i ==> old(self).windows()[j] != *window_id)
                            &&& final(self).windows() == old(self).windows().remove(i)
                            &&& final(self).focus_pos() == spec_remove_at_fp(
                                old(self).focus_pos(),
                                old(self).windows().len() as int,
                                i,
                            )
                        }
                    &&& final(self).spec_master() == spec_master_after(
                        final(self).windows(),
                        final(self).focus_pos(),
                    )
                    &&& r.1@ == final(self).spec_layout_effects()
                },
                None => {
                    &&& !old(self).windows().contains(*window_id)
                    &&& final(self).windows() == old(self).windows()
                    &&& final(self).focus_pos() == old(self).focus_pos()
                    &&& final(self).spec_master() == old(self).spec_master()
                    &&& r.1@ == Seq::<Effect>::empty()
                },
            },
    {
        let pred = |x: &WindowId| -> (b: bool)
            ensures
                b == (*x == *window_id),
            {
                x.0 == window_id.0
            };
        let removed = self.stack.remove(pred);
        match removed {
            Some(v) => {
                let ghost i = choose|i: int|
                    {
                        &&& 0 <= i < old(self).stack@.len()
                        &&& #[trigger] call_ensures(pred, (&old(self).stack@[i],), true)
                        &&& (forall|j: int|
                            0 <= j < i ==> call_ensures(pred, (&old(self).stack@[j],), false))
                        &&& v == old(self).stack@[i]
                        &&& self.stack@ == old(self).stack@.remove(i)
                        &&& self.stack.focus_pos() == spec_remove_at_fp(
                            old(self).stack.focus_pos(),
                            old(self).stack@.len() as int,
                            i,
                        )
                    };
                proof {
                    assert(old(self).windows()[i] == *window_id);
                    assert forall|j: int|
                        0 <= j < i implies old(self).windows()[j] != *window_id by {
                        assert(call_ensures(pred, (&old(self).stack@[j],), false));
                    }
                }
                self.change_master();
                let effects = self.perform_layout();
                (Some(v), effects)
            },
            None => {
                proof {
                    assert forall|i: int|
                        0 <= i < self.windows().len() implies self.windows()[i]
                        != *window_id by {
                        assert(call_ensures(pred, (&old(self).stack@[i],), false));
                    }
                    assert(!self.windows().contains(*window_id));
                }
                (None, Vec::new())
            },
        }
    }

    /// Removes and answers the focused window, recomputes the master, lays
    /// the workspace out again, and finally hides the removed window.  The
    /// window itself survives and may be added to another workspace.
    pub fn remove_focused(&mut self) -> (r: (Option<WindowId>, Vec<Effect>))
        requires
            old(self).wf(),
        ensures
            final(self).wf(),
            final(self).layouts() == old(self).layouts(),
            final(self).layout_pos() == old(self).layout_pos(),
            final(self).is_active() == old(self).is_active(),
            final(self).spec_viewport() == old(self).spec_viewport(),
            final(self).spec_name() == old(self).spec_name(),
            match r.0 {
                Some(v) => {
                    &&& old(self).windows().len() > 0
                    &&& v == old(self).windows()[old(self).focus_pos()]
                    &&& final(self).windows() == old(self).windows().remove(old(self).focus_pos())
                    &&& final(self).focus_pos() == spec_remove_at_fp(
                        old(self).focus_pos(),
                        old(self).windows().len() as int,
                        old(self).focus_pos(),
                    )
                    &&& final(self).spec_master() == spec_master_after(
                        final(self).windows(),
                        final(self).focus_pos(),
                    )
                    &&& r.1@ == final(self).spec_layout_effects().push(Effect::Hide(v))
                },
                None => {
                    &&& old(self).windows().len() == 0
                    &&& final(self).windows() == old(self).windows()
                    &&& final(self).spec_master() == old(self).spec_master()
                    &&& r.1@ == final(self).spec_layout_effects()
                },
            },
    {
        let removed = self.stack.remove_focused();
        self.change_master();
        let mut effects = self.perform_layout();
        match removed {
            Some(v) => {
                effects.push(Effect::Hide(v));
                (Some(v), effects)
            },
            None => (None, effects),
        }
    }

    /// Re-focuses the stack on the given window, recomputes the master, lays
    /// the workspace out again.  A window that is not here leaves the
    /// workspace unchanged.
    pub fn focus(&mut self, window_id: &WindowId) -> (r: Vec<Effect>)
        requires
            old(self).wf(),
        ensures
            final(self).wf(),
            final(self).windows() == old(self).windows(),
            final(self).layouts() == old(self).layouts(),
            final(self).layout_pos() == old(self).layout_pos(),
            final(self).is_active() == old(self).is_active(),
            final(self).spec_viewport() == old(self).spec_viewport(),
            final(self).spec_name() == old(self).spec_name(),
            if old(self).windows().contains(*window_id) {
                &&& exists|i: int|
                    {
                        &&& 0 <= i < old(self).windows().len()
                        &&& old(self).windows()[i] == *window_id
                        &&& (forall|j: int| 0 <= j < i ==> old(self).windows()[j] != *window_id)
                        &&& final(self).focus_pos() == i
                    }
                &&& final(self).spec_master() == Some(*window_id)
                &&& r@ == final(self).spec_layout_effects()
            } else {
                &&& final(self).focus_pos() == old(self).focus_pos()
                &&& final(self).spec_master() == old(self).spec_master()
                &&& r@ == Seq::<Effect>::empty()
            },
    {
        let pred = |x: &WindowId| -> (b: bool)
            ensures
                b == (*x == *window_id),
            {
                x.0 == window_id.0
            };
        let found = self.stack.focus(pred);
        if found {
            let ghost i = choose|i: int|
                {
                    &&& 0 <= i < old(self).stack@.len()
                    &&& #[trigger] call_ensures(pred, (&old(self).stack@[i],), true)
                    &&& (forall|j: int|
                        0 <= j < i ==> call_ensures(pred, (&old(self).stack@[j],), false))
                    &&& self.stack.focus_pos() == i
                };
            proof {
                assert(old(self).windows()[i] == *window_id);
                assert(old(self).windows().contains(*window_id));
                assert forall|j: int| 0 <= j < i implies old(self).windows()[j] != *window_id by {
                    assert(call_ensures(pred, (&old(self).stack@[j],), false));
                }
            }
            self.change_master();
            self.perform_layout()
        } else {
            proof {
                assert forall|i: int|
                    0 <= i < self.windows().len() implies self.windows()[i] != *window_id by {
                    assert(call_ensures(pred, (&old(self).stack@[i],), false));
                }
                assert(!self.windows().contains(*window_id));
            }
            Vec::new()
        }
    }

    /// Asks the connection collaborator to close the focused window; the
    /// window leaves the stack only when its destroy notification arrives.
    pub fn close_focused(&mut self) -> (r: Vec<Effect>)
        requires
            old(self).wf(),
        ensures
            final(self).wf(),
            final(self).windows() == old(self).windows(),
            final(self).focus_pos() == old(self).focus_pos(),
            final(self).layouts() == old(self).layouts(),
            final(self).layout_pos() == old(self).layout_pos(),
            final(self).is_active() == old(self).is_active(),
            final(self).spec_viewport() == old(self).spec_viewport(),
            final(self).spec_name() == old(self).spec_name(),
            if old(self).windows().len() > 0 {
                &&& final(self).spec_master() == spec_master_after(
                    old(self).windows(),
                    old(self).focus_pos(),
                )
                &&& r@ == seq![
                    Effect::Close(old(self).windows()[old(self).focus_pos()]),
                ]
            } else {
                &&& final(self).spec_master() == old(self).spec_master()
                &&& r@ == Seq::<Effect>::empty()
            },
    {
        proof {
            if self.stack@.len() > 0 {
                lemma_nonempty_has_unique_focus(self.stack);
            }
        }
        let mut r: Vec<Effect> = Vec::new();
        let focused: Option<WindowId> = match self.stack.focused() {
            Some(w) => Some(*w),
            None => None,
        };
        match focused {
            Some(w) => {
                r.push(Effect::Close(w));
                self.change_master();
            },
            None => (),
        }
        r
    }

    /// Rotates the window focus forward, recomputes the master, and lays
    /// the workspace out again.
    pub fn focus_next(&mut self) -> (r: Vec<Effect>)
        requires
            old(self).wf(),
        ensures
            final(self).wf(),
            final(self).windows() == old(self).windows(),
            final(self).focus_pos() == spec_rotate_next(
                old(self).focus_pos(),
                old(self).windows().len() as int,
            ),
            final(self).spec_master() == spec_master_after(
                final(self).windows(),
                final(self).focus_pos(),
            ),
            final(self).layouts() == old(self).layouts(),
            final(self).layout_pos() == old(self).layout_pos(),
            final(self).is_active() == old(self).is_active(),
            final(self).spec_viewport() == old(self).spec_viewport(),
            final(self).spec_name() == old(self).spec_name(),
            r@ == final(self).spec_layout_effects(),
    {
        self.stack.focus_next();
        self.change_master();
        self.perform_layout()
    }

    /// Rotates the window focus backward, recomputes the master, and lays
    /// the workspace out again.
    pub fn focus_previous(&mut self) -> (r: Vec<Effect>)
        requires
            old(self).wf(),
        ensures
            final(self).wf(),
            final(self).windows() == old(self).windows(),
            final(self).focus_pos() == spec_rotate_previous(
                old(self).focus_pos(),
                old(self).windows().len() as int,
            ),
            final(self).spec_master() == spec_master_after(
                final(self).windows(),
                final(self).focus_pos(),
            ),
            final(self).layouts() == old(self).layouts(),
            final(self).layout_pos() == old(self).layout_pos(),
            final(self).is_active() == old(self).is_active(),
            final(self).spec_viewport() == old(self).spec_viewport(),
            final(self).spec_name() == old(self).spec_name(),
            r@ == final(self).spec_layout_effects(),
    {
        self.stack.focus_previous();
        self.change_master();
        self.perform_layout()
    }

    /// Rotates to the next layout and lays the workspace out under it.
    pub fn layout_next(&mut self) -> (r: Vec<Effect>)
        requires
            old(self).wf(),
        ensures
            final(self).wf(),
            final(self).windows() == old(self).windows(),
            final(self).focus_pos() == old(self).focus_pos(),
            final(self).spec_master() == old(self).spec_master(),
            final(self).layouts() == old(self).layouts(),
            final(self).layout_pos() == spec_rotate_next(
                old(self).layout_pos(),
                old(self).layouts().len() as int,
            ),
            final(self).is_active() == old(self).is_active(),
            final(self).spec_viewport() == old(self).spec_viewport(),
            final(self).spec_name() == old(self).spec_name(),
            r@ == final(self).spec_layout_effects(),
    {
        self.layouts.focus_next();
        self.perform_layout()
    }

    /// Rotates to the previous layout and lays the workspace out under it.
    pub fn layout_previous(&mut self) -> (r: Vec<Effect>)
        requires
            old(self).wf(),
        ensures
            final(self).wf(),
            final(self).windows() == old(self).windows(),
            final(self).focus_pos() == old(self).focus_pos(),
            final(self).spec_master() == old(self).spec_master(),
            final(self).layouts() == old(self).layouts(),
            final(self).layout_pos() == spec_rotate_previous(
                old(self).layout_pos(),
                old(self).layouts().len() as int,
            ),
            final(self).is_active() == old(self).is_active(),
            final(self).spec_viewport() == old(self).spec_viewport(),
            final(self).spec_name() == old(self).spec_name(),
            r@ == final(self).spec_layout_effects(),
    {
        self.layouts.focus_previous();
        self.perform_layout()
    }

    /// Applies an adjustment to the active layout and lays the workspace
    /// out again; with no layouts, only the layout pass runs.
    fn adjust_active_layout(&mut self, which: LayoutAdjustment) -> (r: Vec<Effect>)
        requires
            old(self).wf(),
        ensures
            final(self).wf(),
            final(self).windows() == old(self).windows(),
            final(self).focus_pos() == old(self).focus_pos(),
            final(self).spec_master() == old(self).spec_master(),
            final(self).layout_pos() == old(self).layout_pos(),
            final(self).is_active() == old(self).is_active(),
            final(self).spec_viewport() == old(self).spec_viewport(),
            final(self).spec_name() == old(self).spec_name(),
            final(self).layouts() == if old(self).layouts().len() > 0 {
                old(self).layouts().update(
                    old(self).layout_pos(),
                    spec_adjusted(
                        old(self).layouts()[old(self).layout_pos()],
                        old(self).spec_viewport(),
                        which,
                    ),
                )
            } else {
                old(self).layouts()
            },
            r@ == spec_adjust_report(*old(self), which) + final(self).spec_layout_effects(),
    {
        proof {
            if self.layouts@.len() > 0 {
                lemma_nonempty_has_unique_focus(self.layouts);
                assert(self.layouts@[self.layouts.focus_pos()].wf());
            }
        }
        let mut effects: Vec<Effect> = Vec::new();
        let focused: Option<Layout> = match self.layouts.focused() {
            Some(l) => Some(l.clone()),
            None => None,
        };
        match focused {
            Some(mut l) => {
                match which {
                    LayoutAdjustment::IncreaseMaster => l.increase_master(&self.viewport, 160),
                    LayoutAdjustment::DecreaseMaster => l.decrease_master(&self.viewport, 160),
                    LayoutAdjustment::IncreaseInnerGaps => l.increase_innergaps(),
                    LayoutAdjustment::DecreaseInnerGaps => {
                        if l.decrease_innergaps() {
                            effects.push(Effect::ReportGapRejected(GapKind::Inner));
                        }
                    },
                    LayoutAdjustment::IncreaseOuterGaps => l.increase_outergaps(),
                    LayoutAdjustment::DecreaseOuterGaps => {
                        if l.decrease_outergaps() {
                            effects.push(Effect::ReportGapRejected(GapKind::Outer));
                        }
                    },
                }
                self.layouts.set_focused(l);
                proof {
                    assert(forall|i: int|
                        0 <= i < self.layouts@.len() ==> (#[trigger] self.layouts@[i]).wf());
                }
            },
            None => (),
        }
        let mut more = self.perform_layout();
        effects.append(&mut more);
        proof {
            assert(effects@ =~= spec_adjust_report(*old(self), which)
                + self.spec_layout_effects());
        }
        effects
    }

    /// Grows the active layout's master region; the adjustment step is 160
    /// pixels per request.
    pub fn increase_master(&mut self) -> (r: Vec<Effect>)
        requires
            old(self).wf(),
        ensures
            final(self).wf(),
            adjust_outcome(*old(self), *final(self), LayoutAdjustment::IncreaseMaster),
            ({
                let report = spec_adjust_report(*old(self), LayoutAdjustment::IncreaseMaster);
                r@ == report + final(self).spec_layout_effects()
            }),
    {
        self.adjust_active_layout(LayoutAdjustment::IncreaseMaster)
    }

    /// Shrinks the active layout's master region by the same step.
    pub fn decrease_master(&mut self) -> (r: Vec<Effect>)
        requires
            old(self).wf(),
        ensures
            final(self).wf(),
            adjust_outcome(*old(self), *final(self), LayoutAdjustment::DecreaseMaster),
            ({
                let report = spec_adjust_report(*old(self), LayoutAdjustment::DecreaseMaster);
                r@ == report + final(self).spec_layout_effects()
            }),
    {
        self.adjust_active_layout(LayoutAdjustment::DecreaseMaster)
    }

    /// Widens the active layout's inner gaps by one pixel.
    pub fn increase_innergaps(&mut self) -> (r: Vec<Effect>)
        requires
            old(self).wf(),
        ensures
            final(self).wf(),
            adjust_outcome(*old(self), *final(self), LayoutAdjustment::IncreaseInnerGaps),
            ({
                let report = spec_adjust_report(*old(self), LayoutAdjustment::IncreaseInnerGaps);
                r@ == report + final(self).spec_layout_effects()
            }),
    {
        self.adjust_active_layout(LayoutAdjustment::IncreaseInnerGaps)
    }

    /// Narrows the active layout's inner gaps; a gap already at zero stays,
    /// and the rejection is reported in the returned effects.
    pub fn decrease_innergaps(&mut self) -> (r: Vec<Effect>)
        requires
            old(self).wf(),
        ensures
            final(self).wf(),
            adjust_outcome(*old(self), *final(self), LayoutAdjustment::DecreaseInnerGaps),
            ({
                let report = spec_adjust_report(*old(self), LayoutAdjustment::DecreaseInnerGaps);
                r@ == report + final(self).spec_layout_effects()
            }),
    {
        self.adjust_active_layout(LayoutAdjustment::DecreaseInnerGaps)
    }

    /// Widens the active layout's outer gaps by one pixel.
    pub fn increase_outergaps(&mut self) -> (r: Vec<Effect>)
        requires
            old(self).wf(),
        ensures
            final(self).wf(),
            adjust_outcome(*old(self), *final(self), LayoutAdjustment::IncreaseOuterGaps),
            ({
                let report = spec_adjust_report(*old(self), LayoutAdjustment::IncreaseOuterGaps);
                r@ == report + final(self).spec_layout_effects()
            }),
    {
        self.adjust_active_layout(LayoutAdjustment::IncreaseOuterGaps)
    }

    /// Narrows the active layout's outer gaps; a gap already at zero stays,
    /// and the rejection is reported in the returned effects.
    pub fn decrease_outergaps(&mut self) -> (r: Vec<Effect>)
        requires
            old(self).wf(),
        ensures
            final(self).wf(),
            adjust_outcome(*old(self), *final(self), LayoutAdjustment::DecreaseOuterGaps),
            ({
                let report = spec_adjust_report(*old(self), LayoutAdjustment::DecreaseOuterGaps);
                r@ == report + final(self).spec_layout_effects()
            }),
    {
        self.adjust_active_layout(LayoutAdjustment::DecreaseOuterGaps)
    }
}

/// A non-empty, well-formed workspace's focus index lies inside its stack.
pub proof fn lemma_ws_focus_in_range(ws: WorkSpace)
    requires
        ws.wf(),
        ws.windows().len() > 0,
    ensures
        0 <= ws.focus_pos() < ws.windows().len(),
{
    lemma_nonempty_has_unique_focus(ws.stack);
}

/// Which live tuning parameter a keypress adjusts.
#[derive(Clone, Copy, PartialEq, Eq, Structural, Debug)]
pub enum LayoutAdjustment {
    IncreaseMaster,
    DecreaseMaster,
    IncreaseInnerGaps,
    DecreaseInnerGaps,
    IncreaseOuterGaps,
    DecreaseOuterGaps,
}

/// The report a rejected gap decrease emits: a decrease on a gap already
/// at zero is rejected and reported, never silently floored.  Any other
/// adjustment, and any adjustment of a workspace without layouts, emits no
/// report.
pub open spec fn spec_adjust_report(pre: WorkSpace, which: LayoutAdjustment) -> Seq<Effect> {
    if pre.layouts().len() > 0 {
        let l = pre.layouts()[pre.layout_pos()];
        match which {
            LayoutAdjustment::DecreaseInnerGaps => if l.spec_decrease_innergaps_rejected() {
                seq![Effect::ReportGapRejected(GapKind::Inner)]
            } else {
                Seq::empty()
            },
            LayoutAdjustment::DecreaseOuterGaps => if l.spec_decrease_outergaps_rejected() {
                seq![Effect::ReportGapRejected(GapKind::Outer)]
            } else {
                Seq::empty()
            },
            _ => Seq::empty(),
        }
    } else {
        Seq::empty()
    }
}

/// The layout after one adjustment; the master step is 160 pixels.
pub open spec fn spec_adjusted(l: Layout, vp: Viewport, which: LayoutAdjustment) -> Layout {
    match which {
        LayoutAdjustment::IncreaseMaster => l.spec_increase_master(vp, 160),
        LayoutAdjustment::DecreaseMaster => l.spec_decrease_master(vp, 160),
        LayoutAdjustment::IncreaseInnerGaps => l.spec_increase_innergaps(),
        LayoutAdjustment::DecreaseInnerGaps => l.spec_decrease_innergaps(),
        LayoutAdjustment::IncreaseOuterGaps => l.spec_increase_outergaps(),
        LayoutAdjustment::DecreaseOuterGaps => l.spec_decrease_outergaps(),
    }
}

/// How an adjustment request changes a workspace: everything is preserved
/// except the active layout, which takes the adjustment; a workspace with
/// no layouts is unchanged.
pub open spec fn adjust_outcome(pre: WorkSpace, post: WorkSpace, which: LayoutAdjustment) -> bool {
    &&& post.windows() == pre.windows()
    &&& post.focus_pos() == pre.focus_pos()
    &&& post.spec_master() == pre.spec_master()
    &&& post.layout_pos() == pre.layout_pos()
    &&& post.is_active() == pre.is_active()
    &&& post.spec_viewport() == pre.spec_viewport()
    &&& post.spec_name() == pre.spec_name()
    &&& post.layouts() == if pre.layouts().len() > 0 {
        pre.layouts().update(
            pre.layout_pos(),
            spec_adjusted(pre.layouts()[pre.layout_pos()], pre.spec_viewport(), which),
        )
    } else {
        pre.layouts()
    }
}

} // verus!
