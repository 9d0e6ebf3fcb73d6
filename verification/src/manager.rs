use vstd::prelude::*;

use crate::cmd::{clone_strings, Command};
use crate::events::{Effect, Event, WindowType};
use crate::geometry::WindowId;
use crate::keys::{KeyCombo, ModKey};
use crate::layout::Layout;
use crate::screen::{spec_has_dock, spec_screen_viewport, spec_without, Dock, Screen, Strut};
use crate::stack::{lemma_nonempty_has_unique_focus, Stack};
use vstd::pervasive::unreached;
use crate::workspaces::{lemma_ws_focus_in_range, WorkSpace, WorkSpaceBuilder};

verus! {

/// A descriptive failure a manager operation reports instead of crashing;
/// the manager keeps running through any of these.
#[derive(Clone, Copy, PartialEq, Eq, Structural, Debug)]
pub enum WmError {
    /// The window is already owned by a workspace or by the dock tracker.
    AlreadyManaged,
    /// No workspace carries the requested name.
    NoSuchWorkspace,
}

/// No window appears twice in one sequence of windows.
pub open spec fn spec_nodup(s: Seq<WindowId>) -> bool {
    forall|p: int, q: int| 0 <= p < q < s.len() ==> s[p] != s[q]
}

pub proof fn lemma_nodup_remove(s: Seq<WindowId>, i: int)
    requires
        spec_nodup(s),
        0 <= i < s.len(),
    ensures
        spec_nodup(s.remove(i)),
{
    assert forall|p: int, q: int| 0 <= p < q < s.remove(i).len() implies s.remove(i)[p] != s.remove(
        i,
    )[q] by {
        let pp = if p < i { p } else { p + 1 };
        let qq = if q < i { q } else { q + 1 };
        assert(s.remove(i)[p] == s[pp]);
        assert(s.remove(i)[q] == s[qq]);
    }
}

pub proof fn lemma_nodup_push(s: Seq<WindowId>, x: WindowId)
    requires
        spec_nodup(s),
        !s.contains(x),
    ensures
        spec_nodup(s.push(x)),
{
    assert forall|p: int, q: int| 0 <= p < q < s.push(x).len() implies s.push(x)[p] != s.push(
        x,
    )[q] by {
        if q == s.len() {
            assert(s.push(x)[q] == x);
            assert(s.push(x)[p] == s[p]);
            assert(s.contains(s[p]));
        }
    }
}

/// In how many of the listed workspaces the window appears.
pub open spec fn spec_count(wss: Seq<WorkSpace>, w: WindowId) -> int
    decreases wss.len(),
{
    if wss.len() == 0 {
        0
    } else {
        spec_count(wss.drop_last(), w) + if wss.last().windows().contains(w) {
            1int
        } else {
            0int
        }
    }
}

pub proof fn lemma_count_nonneg(wss: Seq<WorkSpace>, w: WindowId)
    ensures
        spec_count(wss, w) >= 0,
    decreases wss.len(),
{
    if wss.len() > 0 {
        lemma_count_nonneg(wss.drop_last(), w);
    }
}

/// Replacing one workspace changes the count by exactly the difference the
/// replacement makes for this window.
pub proof fn lemma_count_update(wss: Seq<WorkSpace>, k: int, nws: WorkSpace, w: WindowId)
    requires
        0 <= k < wss.len(),
    ensures
        spec_count(wss.update(k, nws), w) == spec_count(wss, w) - (if wss[k].windows().contains(w) {
            1int
        } else {
            0int
        }) + (if nws.windows().contains(w) {
            1int
        } else {
            0int
        }),
    decreases wss.len(),
{
    let upd = wss.update(k, nws);
    if k == wss.len() - 1 {
        assert(upd.drop_last() =~= wss.drop_last());
        assert(upd.last() == nws);
    } else {
        assert(upd.drop_last() =~= wss.drop_last().update(k, nws));
        assert(upd.last() == wss.last());
        lemma_count_update(wss.drop_last(), k, nws, w);
    }
}

/// A window present in some listed workspace counts at least once.
pub proof fn lemma_count_member(wss: Seq<WorkSpace>, k: int, w: WindowId)
    requires
        0 <= k < wss.len(),
        wss[k].windows().contains(w),
    ensures
        spec_count(wss, w) >= 1,
    decreases wss.len(),
{
    lemma_count_nonneg(wss.drop_last(), w);
    if k == wss.len() - 1 {
    } else {
        assert(wss.drop_last()[k] == wss[k]);
        lemma_count_member(wss.drop_last(), k, w);
    }
}

/// A window counts zero exactly when no listed workspace holds it.
pub proof fn lemma_count_zero(wss: Seq<WorkSpace>, w: WindowId)
    ensures
        (spec_count(wss, w) == 0) == (forall|k: int|
            0 <= k < wss.len() ==> !(#[trigger] wss[k].windows()).contains(w)),
    decreases wss.len(),
{
    if wss.len() == 0 {
    } else {
        lemma_count_zero(wss.drop_last(), w);
        lemma_count_nonneg(wss.drop_last(), w);
        if spec_count(wss, w) == 0 {
            assert forall|k: int|
                0 <= k < wss.len() implies !(#[trigger] wss[k].windows()).contains(w) by {
                if k < wss.len() - 1 {
                    assert(wss.drop_last()[k] == wss[k]);
                } else {
                    assert(wss[k] == wss.last());
                }
            }
        } else {
            if wss.last().windows().contains(w) {
                assert(wss[wss.len() - 1].windows().contains(w));
            } else {
                let k = choose|k: int|
                    0 <= k < wss.drop_last().len() && (#[trigger] wss.drop_last()[k].windows())
                        .contains(w);
                assert(wss[k].windows().contains(w));
            }
        }
    }
}

/// How taking one window under management changes the manager.  An
/// already-owned window is refused and nothing changes; a fresh dock-type
/// window joins the dock tracker, shrinking the current workspace's
/// viewport; any other fresh window joins the current workspace as its new
/// focused window and sole owner.
pub open spec fn spec_manage_outcome(
    pre: Volan,
    post: Volan,
    window_id: WindowId,
    is_dock: bool,
    strut: Option<Strut>,
    sw: int,
    sh: int,
    r: Result<Seq<Effect>, WmError>,
) -> bool {
    match r {
        Err(e) => {
            &&& e == WmError::AlreadyManaged
            &&& (spec_count(pre.workspaces(), window_id) != 0 || spec_has_dock(
                pre.docks(),
                window_id,
            ))
            &&& post.workspaces() == pre.workspaces()
            &&& post.docks() == pre.docks()
        },
        Ok(effects) => {
            &&& spec_count(pre.workspaces(), window_id) == 0
            &&& !spec_has_dock(pre.docks(), window_id)
            &&& {
                let pos = pre.workspace_pos();
                let pws = pre.workspaces()[pos];
                let qws = post.workspaces()[pos];
                if is_dock {
                    &&& post.docks() == pre.docks().push(
                        Dock {
                            window_id,
                            strut_partial: match strut {
                                Some(s) => Some(s.spec_capped()),
                                None => None,
                            },
                        },
                    )
                    &&& spec_count(post.workspaces(), window_id) == 0
                    &&& post.workspaces() == pre.workspaces().update(pos, qws)
                    &&& qws.windows() == pws.windows()
                    &&& qws.focus_pos() == pws.focus_pos()
                    &&& qws.spec_viewport() == spec_screen_viewport(post.docks(), sw, sh)
                    &&& qws.is_active() == pws.is_active()
                    &&& qws.spec_name() == pws.spec_name()
                    &&& effects == seq![
                        Effect::EnableKeyEvents(window_id),
                        Effect::MapWindow(window_id),
                    ] + qws.spec_layout_effects()
                } else {
                    &&& post.docks() == pre.docks()
                    &&& spec_count(post.workspaces(), window_id) == 1
                    &&& post.workspaces() == pre.workspaces().update(pos, qws)
                    &&& qws.windows() == pws.windows().push(window_id)
                    &&& qws.focus_pos() == pws.windows().len()
                    &&& qws.spec_master() == Some(window_id)
                    &&& qws.spec_viewport() == pws.spec_viewport()
                    &&& qws.is_active() == pws.is_active()
                    &&& qws.spec_name() == pws.spec_name()
                    &&& effects == seq![
                        Effect::EnableKeyEvents(window_id),
                        Effect::Track(window_id),
                    ] + qws.spec_layout_effects()
                }
            }
        },
    }
}

/// The manager core: it owns the workspace focus-stack, the immutable key
/// table, and the screen's dock tracker; it routes lifecycle events and key
/// presses to workspace operations and commands.
pub struct Volan {
    keys: Vec<(KeyCombo, Command)>,
    workspaces: Stack<WorkSpace>,
    screen: Screen,
}

impl Volan {
    /// The key-binding table, in lookup order.
    pub closed spec fn spec_keys(&self) -> Seq<(KeyCombo, Command)> {
        self.keys@
    }

    /// The workspaces, in stack order.
    pub closed spec fn workspaces(&self) -> Seq<WorkSpace> {
        self.workspaces@
    }

    /// The index of the focused (current) workspace.
    pub closed spec fn workspace_pos(&self) -> int {
        self.workspaces.focus_pos()
    }

    /// The live docks of the screen tracker.
    pub closed spec fn docks(&self) -> Seq<Dock> {
        self.screen.docks()
    }

    /// The manager invariant: there is always a current workspace, every
    /// workspace is well formed, and a window handle is owned by at most one
    /// workspace, and never both by a workspace and by the dock tracker.
    pub closed spec fn wf(&self) -> bool {
        &&& self.workspaces.wf()
        &&& self.workspaces@.len() > 0
        &&& forall|i: int| 0 <= i < self.workspaces@.len() ==> (#[trigger] self.workspaces@[i]).wf()
        &&& self.screen.wf()
        &&& forall|w: WindowId| #[trigger] spec_count(self.workspaces@, w) <= 1
        &&& forall|w: WindowId|
            #[trigger] spec_has_dock(self.screen.docks(), w) ==> spec_count(self.workspaces@, w)
                == 0
        &&& forall|i: int|
            0 <= i < self.workspaces@.len() ==> spec_nodup(
                (#[trigger] self.workspaces@[i]).windows(),
            )
    }

    /// Builds the manager state: the normalized key table and one workspace
    /// per definition, each carrying its own copy of the layout list.  The
    /// first workspace starts focused; nothing is active until `startup`.
    pub fn new(
        keys: Vec<(Vec<ModKey>, u32, Command)>,
        workspace_defs: Vec<WorkSpaceBuilder>,
        layouts: &Vec<Layout>,
    ) -> (v: Volan)
        requires
            workspace_defs@.len() > 0,
            forall|i: int| 0 <= i < layouts@.len() ==> (#[trigger] layouts@[i]).wf(),
        ensures
            v.wf(),
            v.workspace_pos() == 0,
            v.docks() == Seq::<Dock>::empty(),
            v.workspaces().len() == workspace_defs@.len(),
            forall|i: int|
                0 <= i < workspace_defs@.len() ==> {
                    let ws = #[trigger] v.workspaces()[i];
                    &&& ws.spec_name() == workspace_defs@[i].spec_name()
                    &&& ws.windows() == Seq::<WindowId>::empty()
                    &&& !ws.is_active()
                    &&& ws.layouts() == layouts@
                },
            v.spec_keys().len() == keys@.len(),
            forall|i: int|
                0 <= i < keys@.len() ==> {
                    let src = #[trigger] keys@[i];
                    let dst = v.spec_keys()[i];
                    &&& dst.0.mod_mask == crate::keys::spec_mask_of(src.0@)
                    &&& dst.0.keysym == src.1
                    &&& dst.1 == src.2
                },
    {
        let mut keys = keys;
        let ghost keys0 = keys@;
        let mut table: Vec<(KeyCombo, Command)> = Vec::new();
        let kn = keys.len();
        let mut j: usize = 0;
        while j < kn
            invariant
                kn == keys0.len(),
                keys@ == keys0.skip(j as int),
                j <= kn,
                table@.len() == j,
                forall|i: int|
                    0 <= i < j ==> {
                        let src = #[trigger] keys0[i];
                        let dst = table@[i];
                        &&& dst.0.mod_mask == crate::keys::spec_mask_of(src.0@)
                        &&& dst.0.keysym == src.1
                        &&& dst.1 == src.2
                    },
            decreases kn - j,
        {
            let entry = keys.remove(0);
            let (mods, keysym, command) = entry;
            let combo = KeyCombo::new(&mods, keysym);
            table.push((combo, command));
            proof {
                assert(keys@ =~= keys0.skip(j + 1 as int));
            }
            j += 1;
        }
        let mut defs = workspace_defs;
        let ghost defs0 = defs@;
        let mut wss: Vec<WorkSpace> = Vec::new();
        let dn = defs.len();
        let mut built: usize = 0;
        while built < dn
            invariant
                dn == defs0.len(),
                defs@ == defs0.skip(built as int),
                built <= dn,
                forall|i: int| 0 <= i < layouts@.len() ==> (#[trigger] layouts@[i]).wf(),
                wss@.len() == built,
                forall|i: int|
                    0 <= i < built ==> {
                        let ws = #[trigger] wss@[i];
                        &&& ws.wf()
                        &&& ws.spec_name() == defs0[i].spec_name()
                        &&& ws.windows() == Seq::<WindowId>::empty()
                        &&& !ws.is_active()
                        &&& ws.layouts() == layouts@
                    },
            decreases dn - built,
        {
            let def = defs.remove(0);
            let own_layouts = clone_layouts(layouts);
            let ws = def.build(own_layouts);
            wss.push(ws);
            proof {
                assert(defs@ =~= defs0.skip(built + 1 as int));
            }
            built += 1;
        }
        let workspaces: Stack<WorkSpace> = Stack::from_vec(wss);
        let v = Volan { keys: table, workspaces, screen: Screen::new() };
        proof {
            assert forall|w: WindowId| #[trigger] spec_count(v.workspaces@, w) <= 1 by {
                lemma_count_zero(v.workspaces@, w);
                assert forall|k: int|
                    0 <= k < v.workspaces@.len() implies !(#[trigger] v.workspaces@[k].windows())
                    .contains(w) by {
                    assert(v.workspaces@[k].windows() == Seq::<WindowId>::empty());
                }
            }
        }
        v
    }

    /// How many docks the screen tracker owns.
    pub fn dock_count(&self) -> (n: usize)
        ensures
            n == self.docks().len(),
    {
        self.screen.dock_count()
    }

    /// The current workspace.
    pub fn group(&self) -> (r: &WorkSpace)
        requires
            self.wf(),
        ensures
            *r == self.workspaces()[self.workspace_pos()],
    {
        proof {
            lemma_nonempty_has_unique_focus(self.workspaces);
        }
        match self.workspaces.focused() {
            Some(ws) => ws,
            None => {
                proof {
                    assert(false);
                }
                unreached()
            },
        }
    }

    /// Whether the window is a member of any workspace.
    fn is_window_managed(&self, window_id: &WindowId) -> (r: bool)
        requires
            self.wf(),
        ensures
            r == (spec_count(self.workspaces(), *window_id) != 0),
    {
        let n = self.workspaces.stack_len();
        let mut k: usize = 0;
        while k < n
            invariant
                self.wf(),
                n == self.workspaces@.len(),
                k <= n,
                forall|i: int|
                    0 <= i < k ==> !(#[trigger] self.workspaces@[i].windows()).contains(
                        *window_id,
                    ),
            decreases n - k,
        {
            if self.workspaces.get(k).contains(window_id) {
                proof {
                    lemma_count_member(self.workspaces@, k as int, *window_id);
                }
                return true;
            }
            k += 1;
        }
        proof {
            lemma_count_zero(self.workspaces@, *window_id);
        }
        false
    }

    /// Takes a window under management.  A window already owned by a
    /// workspace or by the dock tracker is refused, and nothing changes: a
    /// handle has exactly one owner.  A dock-type window goes to the screen
    /// tracker and is mapped directly, shrinking the current workspace's
    /// viewport; any other window joins the current workspace as its new
    /// focused window.  Only a fresh window needs the machine limits: the
    /// refusal of an owned handle asks nothing of the screen or the tables.
    pub fn manage_window(
        &mut self,
        window_id: WindowId,
        window_types: &Vec<WindowType>,
        strut: Option<Strut>,
        screen_width: u32,
        screen_height: u32,
    ) -> (r: Result<Vec<Effect>, WmError>)
        requires
            old(self).wf(),
            spec_count(old(self).workspaces(), window_id) == 0 && !spec_has_dock(
                old(self).docks(),
                window_id,
            ) ==> {
                &&& screen_width <= 0xFFFF
                &&& screen_height <= 0xFFFF
                &&& old(self).docks().len() < usize::MAX
                &&& old(self).workspaces()[old(self).workspace_pos()].windows().len() < usize::MAX
            },
        ensures
            final(self).wf(),
            final(self).spec_keys() == old(self).spec_keys(),
            final(self).workspace_pos() == old(self).workspace_pos(),
            final(self).workspaces().len() == old(self).workspaces().len(),
            forall|x: WindowId|
                x != window_id ==> #[trigger] spec_count(final(self).workspaces(), x) == spec_count(
                    old(self).workspaces(),
                    x,
                ),
            forall|x: WindowId|
                #[trigger] spec_has_dock(old(self).docks(), x) ==> spec_has_dock(
                    final(self).docks(),
                    x,
                ),
            spec_manage_outcome(
                *old(self),
                *final(self),
                window_id,
                window_types@.contains(WindowType::Dock),
                strut,
                screen_width as int,
                screen_height as int,
                match r {
                    Ok(effects) => Ok(effects@),
                    Err(e) => Err(e),
                },
            ),
    {
        if self.is_window_managed(&window_id) || self.screen.contains(&window_id) {
            return Err(WmError::AlreadyManaged);
        }
        proof {
            lemma_count_nonneg(self.workspaces@, window_id);
            assert(screen_width <= 0xFFFF && screen_height <= 0xFFFF);
        }
        let is_dock = contains_type(window_types, WindowType::Dock);
        let mut effects: Vec<Effect> = Vec::new();
        effects.push(Effect::EnableKeyEvents(window_id));
        if is_dock {
            effects.push(Effect::MapWindow(window_id));
            self.screen.add_dock(window_id, strut);
            let vp = self.screen.viewport(screen_width, screen_height);
            proof {
                lemma_nonempty_has_unique_focus(self.workspaces);
            }
            let ws = self.workspaces.focused_mut();
            let mut more = ws.update_viewport(vp);
            proof {
                let pos = old(self).workspace_pos();
                let qws = self.workspaces@[pos];
                assert forall|i: int|
                    0 <= i < self.workspaces@.len() implies (#[trigger] self.workspaces@[i]).wf()
                    && spec_nodup(self.workspaces@[i].windows()) by {
                    if i != pos {
                        assert(self.workspaces@[i] == old(self).workspaces@[i]);
                    }
                }
                assert forall|w: WindowId| #[trigger] spec_count(self.workspaces@, w) <= 1 by {
                    lemma_count_update(old(self).workspaces@, pos, qws, w);
                }
                assert forall|w: WindowId|
                    #[trigger] spec_has_dock(self.screen.docks(), w) implies spec_count(
                    self.workspaces@,
                    w,
                ) == 0 by {
                    lemma_count_update(old(self).workspaces@, pos, qws, w);
                    if w == window_id {
                        lemma_count_zero(old(self).workspaces@, w);
                        lemma_count_zero(self.workspaces@, w);
                    } else {
                        assert(spec_has_dock(old(self).screen.docks(), w)) by {
                            let i = choose|i: int|
                                0 <= i < self.screen.docks().len() && self.screen.docks()[i]
                                    .window_id == w;
                            assert(old(self).screen.docks()[i].window_id == w);
                        }
                    }
                }
                lemma_count_update(old(self).workspaces@, pos, qws, window_id);
                lemma_count_zero(old(self).workspaces@, window_id);
                lemma_count_zero(self.workspaces@, window_id);
            }
            effects.append(&mut more);
            proof {
                assert(effects@ =~= seq![
                    Effect::EnableKeyEvents(window_id),
                    Effect::MapWindow(window_id),
                ] + self.workspaces@[old(self).workspace_pos()].spec_layout_effects());
                let pos = old(self).workspace_pos();
                let qws = self.workspaces@[pos];
                assert forall|x: WindowId|
                    x != window_id implies #[trigger] spec_count(self.workspaces@, x)
                    == spec_count(old(self).workspaces@, x) by {
                    lemma_count_update(old(self).workspaces@, pos, qws, x);
                }
                assert forall|x: WindowId|
                    #[trigger] spec_has_dock(old(self).screen.docks(), x) implies spec_has_dock(
                    self.screen.docks(),
                    x,
                ) by {
                    let i = choose|i: int|
                        0 <= i < old(self).screen.docks().len() && old(self).screen.docks()[i]
                            .window_id == x;
                    assert(self.screen.docks()[i].window_id == x);
                }
            }
            Ok(effects)
        } else {
            effects.push(Effect::Track(window_id));
            proof {
                lemma_nonempty_has_unique_focus(self.workspaces);
                assert(self.workspaces@[self.workspaces.focus_pos()].wf());
            }
            let ws = self.workspaces.focused_mut();
            let mut more = ws.add_window(window_id);
            proof {
                let pos = old(self).workspace_pos();
                let pws = old(self).workspaces@[pos];
                let qws = self.workspaces@[pos];
                assert(qws.windows() == pws.windows().push(window_id));
                assert(!pws.windows().contains(window_id)) by {
                    lemma_count_zero(old(self).workspaces@, window_id);
                }
                assert forall|i: int|
                    0 <= i < self.workspaces@.len() implies (#[trigger] self.workspaces@[i]).wf()
                    && spec_nodup(self.workspaces@[i].windows()) by {
                    if i != pos {
                        assert(self.workspaces@[i] == old(self).workspaces@[i]);
                    } else {
                        lemma_nodup_push(pws.windows(), window_id);
                    }
                }
                assert forall|w: WindowId| #[trigger] spec_count(self.workspaces@, w) <= 1 by {
                    lemma_count_update(old(self).workspaces@, pos, qws, w);
                    if w != window_id {
                        assert(qws.windows().contains(w) == pws.windows().contains(w)) by {
                            lemma_push_contains(pws.windows(), window_id, w);
                        }
                    } else {
                        lemma_count_zero(old(self).workspaces@, w);
                    }
                }
                assert(spec_count(self.workspaces@, window_id) == 1) by {
                    lemma_count_update(old(self).workspaces@, pos, qws, window_id);
                    lemma_count_zero(old(self).workspaces@, window_id);
                    assert(qws.windows()[qws.windows().len() - 1] == window_id);
                    assert(qws.windows().contains(window_id));
                }
                assert forall|w: WindowId|
                    #[trigger] spec_has_dock(self.screen.docks(), w) implies spec_count(
                    self.workspaces@,
                    w,
                ) == 0 by {
                    lemma_count_update(old(self).workspaces@, pos, qws, w);
                    if w != window_id {
                        assert(qws.windows().contains(w) == pws.windows().contains(w)) by {
                            lemma_push_contains(pws.windows(), window_id, w);
                        }
                    }
                }
            }
            effects.append(&mut more);
            proof {
                assert(effects@ =~= seq![
                    Effect::EnableKeyEvents(window_id),
                    Effect::Track(window_id),
                ] + self.workspaces@[old(self).workspace_pos()].spec_layout_effects());
                let pos = old(self).workspace_pos();
                let pws = old(self).workspaces@[pos];
                let qws = self.workspaces@[pos];
                assert forall|x: WindowId|
                    x != window_id implies #[trigger] spec_count(self.workspaces@, x)
                    == spec_count(old(self).workspaces@, x) by {
                    lemma_count_update(old(self).workspaces@, pos, qws, x);
                    lemma_push_contains(pws.windows(), window_id, x);
                }
            }
            Ok(effects)
        }
    }

    /// Releases a window: it leaves whichever workspace holds it, or the
    /// dock tracker if it is a dock, and the current workspace is laid out
    /// again on the possibly changed viewport.
    pub fn unmanage_window(
        &mut self,
        window_id: &WindowId,
        screen_width: u32,
        screen_height: u32,
    ) -> (r: Vec<Effect>)
        requires
            old(self).wf(),
            screen_width <= 0xFFFF,
            screen_height <= 0xFFFF,
        ensures
            final(self).wf(),
            spec_unmanage_outcome(
                *old(self),
                *final(self),
                *window_id,
                screen_width as int,
                screen_height as int,
                r@,
            ),
    {
        let n = self.workspaces.stack_len();
        let mut k: usize = 0;
        let mut holder: Option<usize> = None;
        while k < n && holder.is_none()
            invariant
                self.wf(),
                self == old(self),
                n == self.workspaces@.len(),
                k <= n,
                match holder {
                    None => forall|i: int|
                        0 <= i < k ==> !(#[trigger] self.workspaces@[i].windows()).contains(
                            *window_id,
                        ),
                    Some(h) => {
                        &&& h < n
                        &&& self.workspaces@[h as int].windows().contains(*window_id)
                        &&& (forall|i: int|
                            0 <= i < h ==> !(#[trigger] self.workspaces@[i].windows()).contains(
                                *window_id,
                            ))
                    },
                },
            decreases
                    n - k,
                    (if holder.is_none() {
                        1int
                    } else {
                        0int
                    }),
        {
            if self.workspaces.get(k).contains(window_id) {
                holder = Some(k);
            } else {
                k += 1;
            }
        }
        let mut effects: Vec<Effect> = Vec::new();
        match holder {
            Some(h) => {
                let ws = self.workspaces.get_mut(h);
                let (_, mut eff) = ws.remove_window(window_id);
                effects.append(&mut eff);
                proof {
                    let mid = self.workspaces@;
                    let pre = old(self).workspaces@[h as int].windows();
                    let qws = mid[h as int];
                    let i = choose|i: int|
                        {
                            &&& 0 <= i < pre.len()
                            &&& pre[i] == *window_id
                            &&& (forall|j: int| 0 <= j < i ==> pre[j] != *window_id)
                            &&& qws.windows() == pre.remove(i)
                        };
                    assert forall|ii: int|
                        0 <= ii < mid.len() implies (#[trigger] mid[ii]).wf() && spec_nodup(
                        mid[ii].windows(),
                    ) by {
                        if ii != h {
                            assert(mid[ii] == old(self).workspaces@[ii]);
                        } else {
                            lemma_nodup_remove(pre, i);
                        }
                    }
                    assert forall|w: WindowId| #[trigger] spec_count(mid, w) <= 1 by {
                        lemma_count_update(old(self).workspaces@, h as int, qws, w);
                        lemma_count_removed_contains(pre, qws.windows(), w, *window_id);
                    }
                    assert(spec_count(mid, *window_id) == 0) by {
                        lemma_count_update(old(self).workspaces@, h as int, qws, *window_id);
                        assert(!qws.windows().contains(*window_id)) by {
                            lemma_remove_first_no_longer_contains(pre, qws.windows(), *window_id);
                        }
                        lemma_count_member(old(self).workspaces@, h as int, *window_id);
                    }
                    assert forall|x: WindowId|
                        x != *window_id implies #[trigger] spec_count(mid, x) == spec_count(
                        old(self).workspaces@,
                        x,
                    ) by {
                        lemma_count_update(old(self).workspaces@, h as int, qws, x);
                        lemma_count_removed_contains(pre, qws.windows(), x, *window_id);
                        if pre.contains(x) {
                            lemma_remove_other_still_contains(pre, i, x);
                        }
                    }
                }
            },
            None => {
                proof {
                    lemma_count_zero(self.workspaces@, *window_id);
                }
            },
        }
        self.screen.remove_dock(window_id);
        proof {
            lemma_without_has_dock(old(self).screen.docks(), *window_id);
        }
        let vp = self.screen.viewport(screen_width, screen_height);
        proof {
            lemma_nonempty_has_unique_focus(self.workspaces);
        }
        let ghost mid2 = self.workspaces@;
        let ghost eff1 = effects@;
        let ws = self.workspaces.focused_mut();
        let mut more = ws.update_viewport(vp);
        effects.append(&mut more);
        proof {
            let pos0 = old(self).workspace_pos();
            let qpos = self.workspaces@[pos0];
            match holder {
                Some(h) => {
                    assert(self.workspaces@ =~= old(self).workspaces@.update(
                        h as int,
                        mid2[h as int],
                    ).update(pos0, qpos));
                    assert(spec_count(old(self).workspaces@, *window_id) != 0) by {
                        lemma_count_member(old(self).workspaces@, h as int, *window_id);
                    }
                    assert(effects@ == eff1 + qpos.spec_layout_effects());
                    let hk = h as int;
                    let holder_ws = old(self).workspaces@[hk];
                    let pre_w = holder_ws.windows();
                    let iw = choose|i: int|
                        {
                            &&& 0 <= i < pre_w.len()
                            &&& pre_w[i] == *window_id
                            &&& (forall|j: int| 0 <= j < i ==> pre_w[j] != *window_id)
                            &&& mid2[hk].windows() == pre_w.remove(i)
                            &&& mid2[hk].focus_pos() == crate::stack::spec_remove_at_fp(
                                holder_ws.focus_pos(),
                                pre_w.len() as int,
                                i,
                            )
                        };
                    assert({
                        let midws = mid2[hk];
                        &&& 0 <= hk < old(self).workspaces().len()
                        &&& holder_ws.windows().contains(*window_id)
                        &&& (forall|j: int|
                            0 <= j < hk ==> !(#[trigger] old(self).workspaces()[j]).windows()
                                .contains(*window_id))
                        &&& 0 <= iw < holder_ws.windows().len()
                        &&& holder_ws.windows()[iw] == *window_id
                        &&& (forall|j: int|
                            0 <= j < iw ==> holder_ws.windows()[j] != *window_id)
                        &&& midws.windows() == holder_ws.windows().remove(iw)
                        &&& ws_frame(holder_ws, midws)
                        &&& self.workspaces() == old(self).workspaces().update(hk, midws).update(
                            pos0,
                            qpos,
                        )
                        &&& effects@ == midws.spec_layout_effects() + qpos.spec_layout_effects()
                    });
                },
                None => {
                    assert(self.workspaces@ =~= old(self).workspaces@.update(pos0, qpos));
                    assert(spec_count(old(self).workspaces@, *window_id) == 0) by {
                        lemma_count_zero(old(self).workspaces@, *window_id);
                    }
                    assert(effects@ =~= qpos.spec_layout_effects());
                },
            }
        }
        proof {
            let pos = old(self).workspace_pos();
            let qws = self.workspaces@[pos];
            assert forall|i: int|
                0 <= i < self.workspaces@.len() implies (#[trigger] self.workspaces@[i]).wf()
                && spec_nodup(self.workspaces@[i].windows()) by {
                if i != pos {
                    assert(self.workspaces@[i] == mid2[i]);
                }
            }
            assert forall|w: WindowId| #[trigger] spec_count(self.workspaces@, w) <= 1 by {
                lemma_count_update(mid2, pos, qws, w);
            }
            assert forall|w: WindowId|
                #[trigger] spec_has_dock(self.screen.docks(), w) implies spec_count(
                self.workspaces@,
                w,
            ) == 0 by {
                lemma_count_update(mid2, pos, qws, w);
                lemma_without_sub(old(self).screen.docks(), *window_id, w);
            }
            lemma_count_update(mid2, pos, qws, *window_id);
            assert forall|x: WindowId|
                x != *window_id implies #[trigger] spec_count(self.workspaces@, x) == spec_count(
                old(self).workspaces@,
                x,
            ) by {
                lemma_count_update(mid2, pos, qws, x);
            }
        }
        effects
    }
}

/// How releasing a window changes the manager: the window leaves whichever
/// workspace held it (the first holder, with its stack re-focused), leaves
/// the dock tracker, every other window's ownership is untouched, and the
/// current workspace is laid out again on the freshly computed viewport.
pub open spec fn spec_unmanage_outcome(
    pre: Volan,
    post: Volan,
    window_id: WindowId,
    sw: int,
    sh: int,
    effects: Seq<Effect>,
) -> bool {
    &&& post.spec_keys() == pre.spec_keys()
    &&& post.workspace_pos() == pre.workspace_pos()
    &&& post.workspaces().len() == pre.workspaces().len()
    &&& spec_count(post.workspaces(), window_id) == 0
    &&& !spec_has_dock(post.docks(), window_id)
    &&& post.docks() == spec_without(pre.docks(), window_id)
    &&& post.workspaces()[post.workspace_pos()].spec_viewport() == spec_screen_viewport(
        post.docks(),
        sw,
        sh,
    )
    &&& forall|x: WindowId|
        x != window_id ==> #[trigger] spec_count(post.workspaces(), x) == spec_count(
            pre.workspaces(),
            x,
        )
    &&& {
        let pos = pre.workspace_pos();
        let qpos = post.workspaces()[pos];
        if spec_count(pre.workspaces(), window_id) != 0 {
            exists|k: int, i: int, midws: WorkSpace|
                #![trigger pre.workspaces()[k].windows()[i], midws.windows()]
                {
                    let holder_ws = pre.workspaces()[k];
                    &&& 0 <= k < pre.workspaces().len()
                    &&& holder_ws.windows().contains(window_id)
                    &&& (forall|j: int|
                        0 <= j < k ==> !(#[trigger] pre.workspaces()[j]).windows().contains(
                            window_id,
                        ))
                    &&& 0 <= i < holder_ws.windows().len()
                    &&& holder_ws.windows()[i] == window_id
                    &&& (forall|j: int| 0 <= j < i ==> holder_ws.windows()[j] != window_id)
                    &&& midws.windows() == holder_ws.windows().remove(i)
                    &&& midws.focus_pos() == crate::stack::spec_remove_at_fp(
                        holder_ws.focus_pos(),
                        holder_ws.windows().len() as int,
                        i,
                    )
                    &&& midws.spec_master() == crate::workspaces::spec_master_after(
                        midws.windows(),
                        midws.focus_pos(),
                    )
                    &&& ws_frame(holder_ws, midws)
                    &&& post.workspaces() == pre.workspaces().update(k, midws).update(pos, qpos)
                    &&& effects == midws.spec_layout_effects() + qpos.spec_layout_effects()
                }
        } else {
            &&& post.workspaces() == pre.workspaces().update(pos, qpos)
            &&& qpos.windows() == pre.workspaces()[pos].windows()
            &&& qpos.focus_pos() == pre.workspaces()[pos].focus_pos()
            &&& qpos.spec_master() == pre.workspaces()[pos].spec_master()
            &&& effects == qpos.spec_layout_effects()
        }
    }
}

/// Pushing a fresh element does not change membership of other elements.
proof fn lemma_push_contains(s: Seq<WindowId>, pushed: WindowId, w: WindowId)
    requires
        w != pushed,
    ensures
        s.push(pushed).contains(w) == s.contains(w),
{
    if s.contains(w) {
        let i = choose|i: int| 0 <= i < s.len() && s[i] == w;
        assert(s.push(pushed)[i] == w);
    }
    if s.push(pushed).contains(w) {
        let i = choose|i: int| 0 <= i < s.push(pushed).len() && s.push(pushed)[i] == w;
        assert(i < s.len());
        assert(s[i] == w);
    }
}

/// Removing one occurrence of another window keeps membership.
proof fn lemma_remove_other_still_contains(pre: Seq<WindowId>, i: int, x: WindowId)
    requires
        0 <= i < pre.len(),
        pre[i] != x,
        pre.contains(x),
    ensures
        pre.remove(i).contains(x),
{
    let j = choose|j: int| 0 <= j < pre.len() && pre[j] == x;
    if j < i {
        assert(pre.remove(i)[j] == x);
    } else {
        assert(pre.remove(i)[j - 1] == x);
    }
}

/// Removing one element can only lose membership, never create it.
proof fn lemma_count_removed_contains(
    pre: Seq<WindowId>,
    post: Seq<WindowId>,
    w: WindowId,
    removed: WindowId,
)
    requires
        post == pre || (exists|i: int| 0 <= i < pre.len() && post == pre.remove(i)),
    ensures
        post.contains(w) ==> pre.contains(w),
{
    if post != pre && post.contains(w) {
        let i = choose|i: int| 0 <= i < pre.len() && post == pre.remove(i);
        let j = choose|j: int| 0 <= j < post.len() && post[j] == w;
        if j < i {
            assert(pre[j] == w);
        } else {
            assert(pre[j + 1] == w);
        }
    }
}

/// After the first occurrence of a window that occurs exactly once is
/// removed, the window is gone.
proof fn lemma_remove_first_no_longer_contains(
    pre: Seq<WindowId>,
    post: Seq<WindowId>,
    w: WindowId,
)
    requires
        exists|i: int|
            {
                &&& 0 <= i < pre.len()
                &&& pre[i] == w
                &&& (forall|j: int| 0 <= j < i ==> pre[j] != w)
                &&& post == pre.remove(i)
            },
        forall|i: int, j: int| 0 <= i < j < pre.len() ==> !(pre[i] == w && pre[j] == w),
    ensures
        !post.contains(w),
{
    let i = choose|i: int|
        {
            &&& 0 <= i < pre.len()
            &&& pre[i] == w
            &&& (forall|j: int| 0 <= j < i ==> pre[j] != w)
            &&& post == pre.remove(i)
        };
    if post.contains(w) {
        let j = choose|j: int| 0 <= j < post.len() && post[j] == w;
        if j < i {
            assert(pre[j] == w);
        } else {
            assert(pre[j + 1] == w);
        }
    }
}

/// Removing a window from the dock list removes exactly that window's docks.
proof fn lemma_without_has_dock(docks: Seq<Dock>, w: WindowId)
    ensures
        !spec_has_dock(spec_without(docks, w), w),
    decreases docks.len(),
{
    if docks.len() > 0 {
        lemma_without_has_dock(docks.drop_last(), w);
        if docks.last().window_id != w {
            let rest = spec_without(docks.drop_last(), w);
            if spec_has_dock(rest.push(docks.last()), w) {
                let i = choose|i: int|
                    0 <= i < rest.push(docks.last()).len() && rest.push(docks.last())[i].window_id
                        == w;
                if i < rest.len() {
                    assert(rest[i].window_id == w);
                    assert(spec_has_dock(rest, w));
                }
            }
        }
    }
}

/// Any dock still listed after a removal was listed before it.
proof fn lemma_without_sub(docks: Seq<Dock>, removed: WindowId, w: WindowId)
    requires
        spec_has_dock(spec_without(docks, removed), w),
    ensures
        spec_has_dock(docks, w),
    decreases docks.len(),
{
    if docks.len() > 0 {
        let rest = spec_without(docks.drop_last(), removed);
        if docks.last().window_id == removed {
            lemma_without_sub(docks.drop_last(), removed, w);
            let i = choose|i: int| 0 <= i < docks.drop_last().len() && docks.drop_last()[i].window_id == w;
            assert(docks[i].window_id == w);
        } else {
            let i = choose|i: int|
                0 <= i < rest.push(docks.last()).len() && rest.push(docks.last())[i].window_id == w;
            if i < rest.len() {
                assert(spec_has_dock(rest, w));
                lemma_without_sub(docks.drop_last(), removed, w);
                let j = choose|j: int|
                    0 <= j < docks.drop_last().len() && docks.drop_last()[j].window_id == w;
                assert(docks[j].window_id == w);
            } else {
                assert(docks.last().window_id == w);
                assert(docks[docks.len() - 1].window_id == w);
            }
        }
    }
}

/// An element-for-element copy of a layout list.
fn clone_layouts(v: &Vec<Layout>) -> (r: Vec<Layout>)
    ensures
        r@ == v@,
{
    let n = v.len();
    let mut r: Vec<Layout> = Vec::new();
    let mut j: usize = 0;
    while j < n
        invariant
            n == v@.len(),
            j <= n,
            r@ == v@.take(j as int),
        decreases n - j,
    {
        r.push(v[j].clone());
        proof {
            assert(r@ =~= v@.take(j + 1 as int));
        }
        j += 1;
    }
    proof {
        assert(v@.take(n as int) =~= v@);
    }
    r
}

/// Whether a window-type list names the dock type.
fn contains_type(types: &Vec<WindowType>, needle: WindowType) -> (r: bool)
    ensures
        r == types@.contains(needle),
{
    let n = types.len();
    let mut j: usize = 0;
    while j < n
        invariant
            n == types@.len(),
            j <= n,
            forall|i: int| 0 <= i < j ==> types@[i] != needle,
        decreases n - j,
    {
        if types[j] == needle {
            proof {
                assert(types@[j as int] == needle);
            }
            return true;
        }
        j += 1;
    }
    false
}

/// The parts of a workspace a window operation leaves alone.
pub open spec fn ws_frame(p: WorkSpace, q: WorkSpace) -> bool {
    &&& q.layouts() == p.layouts()
    &&& q.layout_pos() == p.layout_pos()
    &&& q.is_active() == p.is_active()
    &&& q.spec_viewport() == p.spec_viewport()
    &&& q.spec_name() == p.spec_name()
}

/// The parts of the manager a workspace-level operation leaves alone.
pub open spec fn mgr_frame(pre: Volan, post: Volan) -> bool {
    &&& post.spec_keys() == pre.spec_keys()
    &&& post.docks() == pre.docks()
    &&& post.workspace_pos() == pre.workspace_pos()
    &&& post.workspaces().len() == pre.workspaces().len()
}

/// Only the current workspace was replaced.
pub open spec fn focused_only_update(pre: Volan, post: Volan) -> bool {
    post.workspaces() == pre.workspaces().update(
        pre.workspace_pos(),
        post.workspaces()[pre.workspace_pos()],
    )
}

/// How a workspace switch changes the manager.  Switching to the current
/// workspace does nothing; switching to an unknown name fails and does
/// nothing; otherwise the current workspace is deactivated and hidden, the
/// named one becomes current and active on a freshly computed viewport, and
/// the ordered workspace names are published.
pub open spec fn spec_switch_outcome(
    pre: Volan,
    post: Volan,
    name: Seq<char>,
    sw: int,
    sh: int,
    effects: Seq<Effect>,
    err: bool,
) -> bool {
    let pos = pre.workspace_pos();
    let p = pre.workspaces()[pos];
    &&& post.spec_keys() == pre.spec_keys()
    &&& post.docks() == pre.docks()
    &&& post.workspaces().len() == pre.workspaces().len()
    &&& if p.spec_name() == name {
        &&& !err
        &&& post.workspaces() == pre.workspaces()
        &&& post.workspace_pos() == pos
        &&& effects == Seq::<Effect>::empty()
    } else if exists|t: int|
        0 <= t < pre.workspaces().len() && (#[trigger] pre.workspaces()[t]).spec_name() == name {
        &&& !err
        &&& exists|t: int|
            {
                &&& 0 <= t < pre.workspaces().len()
                &&& (#[trigger] pre.workspaces()[t]).spec_name() == name
                &&& (forall|j: int|
                    0 <= j < t ==> (#[trigger] pre.workspaces()[j]).spec_name() != name)
                &&& post.workspace_pos() == t
                &&& post.workspaces() == pre.workspaces().update(pos, post.workspaces()[pos]).update(
                    t,
                    post.workspaces()[t],
                )
                &&& {
                    let d = post.workspaces()[pos];
                    &&& d.windows() == p.windows()
                    &&& d.focus_pos() == p.focus_pos()
                    &&& d.spec_master() == p.spec_master()
                    &&& !d.is_active()
                    &&& d.layouts() == p.layouts()
                    &&& d.layout_pos() == p.layout_pos()
                    &&& d.spec_viewport() == p.spec_viewport()
                    &&& d.spec_name() == p.spec_name()
                }
                &&& {
                    let a = post.workspaces()[t];
                    let b = pre.workspaces()[t];
                    &&& a.windows() == b.windows()
                    &&& a.focus_pos() == b.focus_pos()
                    &&& a.spec_master() == b.spec_master()
                    &&& a.is_active()
                    &&& a.spec_viewport() == spec_screen_viewport(pre.docks(), sw, sh)
                    &&& a.layouts() == b.layouts()
                    &&& a.layout_pos() == b.layout_pos()
                    &&& a.spec_name() == b.spec_name()
                    &&& exists|ns: Vec<String>|
                        {
                            &&& effects == p.windows().map_values(|w: WindowId| Effect::Hide(w))
                                + a.spec_layout_effects() + seq![Effect::PublishDesktops(ns)]
                            &&& ns@.len() == post.workspaces().len()
                            &&& (forall|i: int|
                                0 <= i < ns@.len() ==> (#[trigger] ns@[i])@ == post.workspaces()[i].spec_name())
                        }
                }
            }
    } else {
        &&& err
        &&& post.workspaces() == pre.workspaces()
        &&& post.workspace_pos() == pos
        &&& effects == Seq::<Effect>::empty()
    }
}

impl Volan {
    /// The workspace names, in stack order, for the desktop-state protocol.
    fn workspace_names(&self) -> (r: Vec<String>)
        requires
            self.wf(),
        ensures
            r@.len() == self.workspaces().len(),
            forall|i: int|
                0 <= i < r@.len() ==> (#[trigger] r@[i])@ == self.workspaces()[i].spec_name(),
    {
        let n = self.workspaces.stack_len();
        let mut r: Vec<String> = Vec::new();
        let mut j: usize = 0;
        while j < n
            invariant
                self.wf(),
                n == self.workspaces@.len(),
                j <= n,
                r@.len() == j,
                forall|i: int|
                    0 <= i < j ==> (#[trigger] r@[i])@ == self.workspaces@[i].spec_name(),
            decreases n - j,
        {
            r.push(self.workspaces.get(j).name().clone());
            j += 1;
        }
        r
    }

    /// Switches to the named workspace: a switch to the current workspace
    /// does nothing, and an unknown name is refused; otherwise the current
    /// workspace is deactivated, the named one activated on a fresh
    /// viewport, and the workspace order published.
    pub fn switch_group(&mut self, name: &String, screen_width: u32, screen_height: u32) -> (r:
        Result<Vec<Effect>, WmError>)
        requires
            old(self).wf(),
            screen_width <= 0xFFFF,
            screen_height <= 0xFFFF,
        ensures
            final(self).wf(),
            match r {
                Ok(effects) => spec_switch_outcome(
                    *old(self),
                    *final(self),
                    name@,
                    screen_width as int,
                    screen_height as int,
                    effects@,
                    false,
                ),
                Err(e) => e == WmError::NoSuchWorkspace && spec_switch_outcome(
                    *old(self),
                    *final(self),
                    name@,
                    screen_width as int,
                    screen_height as int,
                    Seq::<Effect>::empty(),
                    true,
                ),
            },
    {
        proof {
            lemma_nonempty_has_unique_focus(self.workspaces);
        }
        if crate::text::str_eq(self.group().name().as_str(), name.as_str()) {
            return Ok(Vec::new());
        }
        let n = self.workspaces.stack_len();
        let mut t: usize = 0;
        let mut target: Option<usize> = None;
        while t < n && target.is_none()
            invariant
                self.wf(),
                self == old(self),
                n == self.workspaces@.len(),
                t <= n,
                match target {
                    None => forall|j: int|
                        0 <= j < t ==> (#[trigger] self.workspaces@[j]).spec_name() != name@,
                    Some(tt) => {
                        &&& tt < n
                        &&& self.workspaces@[tt as int].spec_name() == name@
                        &&& (forall|j: int|
                            0 <= j < tt ==> (#[trigger] self.workspaces@[j]).spec_name() != name@)
                    },
                },
            decreases
                    n - t,
                    (if target.is_none() {
                        1int
                    } else {
                        0int
                    }),
        {
            if crate::text::str_eq(self.workspaces.get(t).name().as_str(), name.as_str()) {
                target = Some(t);
            } else {
                t += 1;
            }
        }
        match target {
            None => Err(WmError::NoSuchWorkspace),
            Some(tt) => {
                let ghost pos = old(self).workspace_pos();
                let ws = self.workspaces.focused_mut();
                let mut effects = ws.deactivate();
                let ghost mid1 = self.workspaces@;
                proof {
                    assert forall|i: int|
                        0 <= i < mid1.len() implies (#[trigger] mid1[i]).wf() && spec_nodup(
                        mid1[i].windows(),
                    ) by {
                        if i != pos {
                            assert(mid1[i] == old(self).workspaces@[i]);
                        }
                    }
                    assert forall|w: WindowId| #[trigger] spec_count(mid1, w) <= 1 by {
                        lemma_count_update(old(self).workspaces@, pos, mid1[pos], w);
                    }
                }
                self.workspaces.focus_at(tt);
                let vp = self.screen.viewport(screen_width, screen_height);
                let ws2 = self.workspaces.focused_mut();
                let mut act = ws2.activate(vp);
                proof {
                    assert forall|i: int|
                        0 <= i < self.workspaces@.len() implies (#[trigger] self.workspaces@[i]).wf()
                        && spec_nodup(self.workspaces@[i].windows()) by {
                        if i != tt {
                            assert(self.workspaces@[i] == mid1[i]);
                        }
                    }
                    assert forall|w: WindowId| #[trigger] spec_count(self.workspaces@, w) <= 1 by {
                        lemma_count_update(mid1, tt as int, self.workspaces@[tt as int], w);
                        lemma_count_update(old(self).workspaces@, pos, mid1[pos], w);
                    }
                    assert forall|w: WindowId|
                        #[trigger] spec_has_dock(self.screen.docks(), w) implies spec_count(
                        self.workspaces@,
                        w,
                    ) == 0 by {
                        lemma_count_update(mid1, tt as int, self.workspaces@[tt as int], w);
                        lemma_count_update(old(self).workspaces@, pos, mid1[pos], w);
                        lemma_count_nonneg(self.workspaces@, w);
                    }
                }
                effects.append(&mut act);
                let names = self.workspace_names();
                let ghost nsv = names;
                effects.push(Effect::PublishDesktops(names));
                proof {
                    let fin = *self;
                    assert(tt as int != pos);
                    assert(fin.workspaces() == old(self).workspaces().update(
                        pos,
                        fin.workspaces()[pos],
                    ).update(tt as int, fin.workspaces()[tt as int])) by {
                        assert(fin.workspaces() =~= old(self).workspaces().update(
                            pos,
                            fin.workspaces()[pos],
                        ).update(tt as int, fin.workspaces()[tt as int]));
                    }
                    let p = old(self).workspaces()[pos];
                    let a = fin.workspaces()[tt as int];
                    assert(effects@ =~= p.windows().map_values(|w: WindowId| Effect::Hide(w))
                        + a.spec_layout_effects() + seq![Effect::PublishDesktops(nsv)]);
                    assert(nsv@.len() == fin.workspaces().len());
                    assert(forall|i: int|
                        0 <= i < nsv@.len() ==> (#[trigger] nsv@[i])@ == fin.workspaces()[i].spec_name());
                }
                Ok(effects)
            },
        }
    }
}

/// How moving the focused window to a named workspace changes the manager.
/// Moving to the current workspace does nothing, and an empty workspace has
/// nothing to move.  Otherwise the focused window leaves its workspace and,
/// when the destination exists, joins it as its focused window.  When the
/// destination does not exist the window is lost: removed from its source
/// and added nowhere, with the loss reported.
pub open spec fn spec_move_outcome(
    pre: Volan,
    post: Volan,
    name: Seq<char>,
    effects: Seq<Effect>,
    lost: bool,
) -> bool {
    let pos = pre.workspace_pos();
    let p = pre.workspaces()[pos];
    let q = post.workspaces()[pos];
    &&& post.spec_keys() == pre.spec_keys()
    &&& post.docks() == pre.docks()
    &&& post.workspace_pos() == pos
    &&& post.workspaces().len() == pre.workspaces().len()
    &&& if p.spec_name() == name {
        &&& !lost
        &&& post.workspaces() == pre.workspaces()
        &&& effects == Seq::<Effect>::empty()
    } else if p.windows().len() == 0 {
        &&& !lost
        &&& post.workspaces() == pre.workspaces().update(pos, q)
        &&& q.windows() == p.windows()
        &&& q.spec_master() == p.spec_master()
        &&& ws_frame(p, q)
        &&& effects == q.spec_layout_effects()
    } else {
        let w = p.windows()[p.focus_pos()];
        &&& q.windows() == p.windows().remove(p.focus_pos())
        &&& q.focus_pos() == crate::stack::spec_remove_at_fp(
            p.focus_pos(),
            p.windows().len() as int,
            p.focus_pos(),
        )
        &&& q.spec_master() == crate::workspaces::spec_master_after(q.windows(), q.focus_pos())
        &&& ws_frame(p, q)
        &&& if exists|t: int|
            {
                &&& 0 <= t < pre.workspaces().len()
                &&& (#[trigger] pre.workspaces()[t]).spec_name() == name
                &&& (forall|j: int|
                    0 <= j < t ==> (#[trigger] pre.workspaces()[j]).spec_name() != name)
                &&& pre.workspaces()[t].windows().len() < usize::MAX
            } {
            &&& !lost
            &&& exists|t: int|
                {
                    &&& 0 <= t < pre.workspaces().len()
                    &&& (#[trigger] pre.workspaces()[t]).spec_name() == name
                    &&& (forall|j: int|
                        0 <= j < t ==> (#[trigger] pre.workspaces()[j]).spec_name() != name)
                    &&& post.workspaces() == pre.workspaces().update(pos, q).update(
                        t,
                        post.workspaces()[t],
                    )
                    &&& {
                        let d = post.workspaces()[t];
                        let b = pre.workspaces()[t];
                        &&& d.windows() == b.windows().push(w)
                        &&& d.focus_pos() == b.windows().len()
                        &&& d.spec_master() == Some(w)
                        &&& ws_frame(b, d)
                        &&& effects == q.spec_layout_effects().push(Effect::Hide(w))
                            + d.spec_layout_effects()
                    }
                }
            &&& spec_count(post.workspaces(), w) == 1
        } else {
            &&& lost
            &&& post.workspaces() == pre.workspaces().update(pos, q)
            &&& spec_count(post.workspaces(), w) == 0
            &&& effects == q.spec_layout_effects().push(Effect::Hide(w))
        }
    }
}

/// Removing the one occurrence of a window from a duplicate-free sequence
/// removes the window entirely.
proof fn lemma_nodup_remove_gone(s: Seq<WindowId>, i: int)
    requires
        spec_nodup(s),
        0 <= i < s.len(),
    ensures
        !s.remove(i).contains(s[i]),
{
    if s.remove(i).contains(s[i]) {
        let j = choose|j: int| 0 <= j < s.remove(i).len() && s.remove(i)[j] == s[i];
        if j < i {
            assert(s[j] == s[i]);
        } else {
            assert(s[j + 1] == s[i]);
        }
    }
}

impl Volan {
    /// Moves the focused window of the current workspace to the named
    /// workspace; see `spec_move_outcome`.  Answers true in its second
    /// component exactly when the destination did not exist and the window
    /// was lost.
    #[verifier::rlimit(80)]
    pub fn move_focused_to_group(&mut self, name: &String) -> (r: (Vec<Effect>, bool))
        requires
            old(self).wf(),
        ensures
            final(self).wf(),
            spec_move_outcome(*old(self), *final(self), name@, r.0@, r.1),
    {
        proof {
            lemma_nonempty_has_unique_focus(self.workspaces);
        }
        if crate::text::str_eq(self.group().name().as_str(), name.as_str()) {
            return (Vec::new(), false);
        }
        let ghost pos = old(self).workspace_pos();
        let ws = self.workspaces.focused_mut();
        let (removed, mut effects) = ws.remove_focused();
        let ghost mid = self.workspaces@;
        proof {
            assert forall|i: int|
                0 <= i < mid.len() implies (#[trigger] mid[i]).wf() && spec_nodup(
                mid[i].windows(),
            ) by {
                if i != pos {
                    assert(mid[i] == old(self).workspaces@[i]);
                } else {
                    match removed {
                        Some(_) => {
                            lemma_ws_focus_in_range(old(self).workspaces@[pos]);
                            lemma_nodup_remove(
                                old(self).workspaces@[pos].windows(),
                                old(self).workspaces@[pos].focus_pos(),
                            );
                        },
                        None => {},
                    }
                }
            }
        }
        match removed {
            None => {
                proof {
                    assert(self.workspaces@ =~= old(self).workspaces@.update(pos, mid[pos]));
                    assert forall|w: WindowId| #[trigger] spec_count(mid, w) <= 1 by {
                        lemma_count_update(old(self).workspaces@, pos, mid[pos], w);
                    }
                    assert forall|w: WindowId|
                        #[trigger] spec_has_dock(self.screen.docks(), w) implies spec_count(
                        mid,
                        w,
                    ) == 0 by {
                        lemma_count_update(old(self).workspaces@, pos, mid[pos], w);
                        lemma_count_nonneg(mid, w);
                    }
                }
                (effects, false)
            },
            Some(w) => {
                proof {
                    let p = old(self).workspaces@[pos];
                    lemma_nonempty_has_unique_focus(old(self).workspaces);
                    lemma_ws_focus_in_range(p);
                    assert(0 <= p.focus_pos() < p.windows().len() && mid[pos].windows()
                        == p.windows().remove(p.focus_pos()));
                    assert forall|x: WindowId| #[trigger] spec_count(mid, x) <= 1 by {
                        lemma_count_update(old(self).workspaces@, pos, mid[pos], x);
                        lemma_count_removed_contains(p.windows(), mid[pos].windows(), x, w);
                    }
                    assert(spec_count(mid, w) == 0) by {
                        lemma_count_update(old(self).workspaces@, pos, mid[pos], w);
                        lemma_nodup_remove_gone(p.windows(), p.focus_pos());
                        lemma_count_member(old(self).workspaces@, pos, w);
                        assert(p.windows().contains(w)) by {
                            assert(p.windows()[p.focus_pos()] == w);
                        }
                    }
                    assert forall|x: WindowId|
                        x != w implies #[trigger] spec_count(mid, x) == spec_count(
                        old(self).workspaces@,
                        x,
                    ) by {
                        lemma_count_update(old(self).workspaces@, pos, mid[pos], x);
                        lemma_count_removed_contains(p.windows(), mid[pos].windows(), x, w);
                        if p.windows().contains(x) {
                            lemma_remove_other_still_contains(p.windows(), p.focus_pos(), x);
                        }
                    }
                    assert forall|x: WindowId|
                        #[trigger] spec_has_dock(self.screen.docks(), x) implies spec_count(
                        mid,
                        x,
                    ) == 0 by {
                        lemma_count_update(old(self).workspaces@, pos, mid[pos], x);
                        lemma_count_nonneg(mid, x);
                    }
                }
                proof {
                    assert(mid =~= old(self).workspaces@.update(pos, mid[pos]));
                    assert forall|j: int|
                        0 <= j < mid.len() implies (#[trigger] mid[j]).spec_name() == old(
                        self,
                    ).workspaces@[j].spec_name() by {
                        if j != pos {
                            assert(mid[j] == old(self).workspaces@[j]);
                        }
                    }
                }
                let n = self.workspaces.stack_len();
                let mut t: usize = 0;
                let mut target: Option<usize> = None;
                while t < n && target.is_none()
                    invariant
                        n == self.workspaces@.len(),
                        t <= n,
                        self.workspaces@ == mid,
                        match target {
                            None => forall|j: int|
                                0 <= j < t ==> (#[trigger] self.workspaces@[j]).spec_name()
                                    != name@,
                            Some(tt) => {
                                &&& tt < n
                                &&& self.workspaces@[tt as int].spec_name() == name@
                                &&& (forall|j: int|
                                    0 <= j < tt ==> (#[trigger] self.workspaces@[j]).spec_name()
                                        != name@)
                            },
                        },
                    decreases
                            n - t,
                            (if target.is_none() {
                                1int
                            } else {
                                0int
                            }),
                {
                    if crate::text::str_eq(self.workspaces.get(t).name().as_str(), name.as_str()) {
                        target = Some(t);
                    } else {
                        t += 1;
                    }
                }
                match target {
                    Some(tt) => {
                        proof {
                            assert(tt as int != pos);
                            assert(mid =~= old(self).workspaces@.update(pos, mid[pos]));
                            assert(mid[tt as int] == old(self).workspaces@[tt as int]);
                        }
                        let dest = self.workspaces.get_mut(tt);
                        if dest.window_count() < usize::MAX {
                            proof {
                                assert(exists|t: int|
                                    {
                                        &&& 0 <= t < old(self).workspaces().len()
                                        &&& (#[trigger] old(self).workspaces()[t]).spec_name()
                                            == name@
                                        &&& (forall|j: int|
                                            0 <= j < t ==> (#[trigger] old(
                                                self,
                                            ).workspaces()[j]).spec_name() != name@)
                                        &&& old(self).workspaces()[t].windows().len() < usize::MAX
                                    }) by {
                                    let t = tt as int;
                                    assert(mid[t].spec_name() == name@);
                                    assert(old(self).workspaces()[t].spec_name() == name@);
                                    assert forall|j: int|
                                        0 <= j < t implies (#[trigger] old(
                                        self,
                                    ).workspaces()[j]).spec_name() != name@ by {
                                        assert(mid[j].spec_name() != name@);
                                        assert(mid[j].spec_name() == old(
                                            self,
                                        ).workspaces@[j].spec_name());
                                    }
                                    assert(old(self).workspaces()[t].windows().len() < usize::MAX);
                                }
                            }
                            let mut more = dest.add_window(w);
                            effects.append(&mut more);
                            proof {
                                let fin = self.workspaces@;
                                let b = mid[tt as int];
                                let d = fin[tt as int];
                                assert(!b.windows().contains(w)) by {
                                    lemma_count_zero(mid, w);
                                }
                                assert forall|i: int|
                                    0 <= i < fin.len() implies (#[trigger] fin[i]).wf()
                                    && spec_nodup(fin[i].windows()) by {
                                    if i != tt {
                                        assert(fin[i] == mid[i]);
                                    } else {
                                        lemma_nodup_push(b.windows(), w);
                                    }
                                }
                                assert forall|x: WindowId| #[trigger] spec_count(fin, x) <= 1 by {
                                    lemma_count_update(mid, tt as int, d, x);
                                    if x != w {
                                        lemma_push_contains(b.windows(), w, x);
                                    } else {
                                        lemma_count_zero(mid, w);
                                    }
                                }
                                assert(spec_count(fin, w) == 1) by {
                                    lemma_count_update(mid, tt as int, d, w);
                                    assert(d.windows()[d.windows().len() - 1] == w);
                                    assert(d.windows().contains(w));
                                }
                                assert forall|x: WindowId|
                                    #[trigger] spec_has_dock(self.screen.docks(), x) implies
                                    spec_count(fin, x) == 0 by {
                                    lemma_count_update(mid, tt as int, d, x);
                                    if x != w {
                                        lemma_push_contains(b.windows(), w, x);
                                    } else {
                                        lemma_count_zero(mid, w);
                                        assert(spec_count(old(self).workspaces@, w) >= 1) by {
                                            lemma_count_member(old(self).workspaces@, pos, w);
                                            assert(old(self).workspaces@[pos].windows().contains(
                                                w,
                                            )) by {
                                                assert(old(self).workspaces@[pos].windows()[old(
                                                    self,
                                                ).workspaces@[pos].focus_pos()] == w);
                                            }
                                        }
                                    }
                                }
                                assert(fin =~= old(self).workspaces@.update(pos, mid[pos]).update(
                                    tt as int,
                                    d,
                                ));
                            }
                            (effects, false)
                        } else {
                            proof {
                                assert(self.workspaces@ =~= old(self).workspaces@.update(
                                    pos,
                                    mid[pos],
                                ));
                                assert(!(exists|t: int|
                                    {
                                        &&& 0 <= t < old(self).workspaces().len()
                                        &&& (#[trigger] old(self).workspaces()[t]).spec_name()
                                            == name@
                                        &&& (forall|j: int|
                                            0 <= j < t ==> (#[trigger] old(
                                                self,
                                            ).workspaces()[j]).spec_name() != name@)
                                        &&& old(self).workspaces()[t].windows().len() < usize::MAX
                                    })) by {
                                    if exists|t: int|
                                        {
                                            &&& 0 <= t < old(self).workspaces().len()
                                            &&& (#[trigger] old(self).workspaces()[t]).spec_name()
                                                == name@
                                            &&& (forall|j: int|
                                                0 <= j < t ==> (#[trigger] old(
                                                    self,
                                                ).workspaces()[j]).spec_name() != name@)
                                            &&& old(self).workspaces()[t].windows().len()
                                                < usize::MAX
                                        } {
                                        let t = choose|t: int|
                                            {
                                                &&& 0 <= t < old(self).workspaces().len()
                                                &&& (#[trigger] old(
                                                    self,
                                                ).workspaces()[t]).spec_name() == name@
                                                &&& (forall|j: int|
                                                    0 <= j < t ==> (#[trigger] old(
                                                        self,
                                                    ).workspaces()[j]).spec_name() != name@)
                                                &&& old(self).workspaces()[t].windows().len()
                                                    < usize::MAX
                                            };
                                        assert(mid[tt as int].spec_name() == name@);
                                        assert(old(self).workspaces()[tt as int].spec_name()
                                            == name@);
                                        if t < tt as int {
                                            assert(mid[t].spec_name() != name@);
                                            assert(old(self).workspaces()[t].spec_name() != name@);
                                        } else if t > tt as int {
                                            assert(old(self).workspaces()[tt as int].spec_name()
                                                != name@);
                                        } else {
                                            assert(mid[t].windows().len() >= usize::MAX);
                                            assert(old(self).workspaces()[t].windows().len()
                                                >= usize::MAX);
                                        }
                                    }
                                }
                            }
                            (effects, true)
                        }
                    },
                    None => {
                        proof {
                            assert(self.workspaces@ =~= old(self).workspaces@.update(
                                pos,
                                mid[pos],
                            ));
                            assert(!(exists|t: int|
                                {
                                    &&& 0 <= t < old(self).workspaces().len()
                                    &&& (#[trigger] old(self).workspaces()[t]).spec_name() == name@
                                    &&& (forall|j: int|
                                        0 <= j < t ==> (#[trigger] old(
                                            self,
                                        ).workspaces()[j]).spec_name() != name@)
                                    &&& old(self).workspaces()[t].windows().len() < usize::MAX
                                })) by {
                                assert forall|t: int|
                                    0 <= t < old(self).workspaces().len() implies (#[trigger] old(
                                    self,
                                ).workspaces()[t]).spec_name() != name@ by {
                                    assert(mid[t].spec_name() != name@);
                                    assert(mid[t].spec_name() == old(
                                        self,
                                    ).workspaces@[t].spec_name());
                                }
                            }
                        }
                        (effects, true)
                    },
                }
            },
        }
    }
}

/// The index of the first binding whose key combination matches, if any.
pub open spec fn spec_lookup(keys: Seq<(KeyCombo, Command)>, key: KeyCombo) -> Option<int> {
    if exists|i: int| 0 <= i < keys.len() && (#[trigger] keys[i]).0 == key {
        Some(
            choose|i: int|
                {
                    &&& 0 <= i < keys.len()
                    &&& (#[trigger] keys[i]).0 == key
                    &&& forall|j: int| 0 <= j < i ==> (#[trigger] keys[j]).0 != key
                },
        )
    } else {
        None
    }
}

/// How one command changes the manager and what it asks of the connection.
/// Workspace-level commands act on the current workspace; a spawn changes
/// nothing and asks for one process; the switch and move commands behave as
/// `spec_switch_outcome` and `spec_move_outcome` say, with a failed switch
/// swallowed into no effects.
pub open spec fn spec_run_outcome(
    pre: Volan,
    post: Volan,
    cmd: Command,
    sw: int,
    sh: int,
    effects: Seq<Effect>,
) -> bool {
    let pos = pre.workspace_pos();
    let p = pre.workspaces()[pos];
    let q = post.workspaces()[pos];
    match cmd {
        Command::CloseFocused => {
            &&& mgr_frame(pre, post)
            &&& focused_only_update(pre, post)
            &&& ws_frame(p, q)
            &&& q.windows() == p.windows()
            &&& q.focus_pos() == p.focus_pos()
            &&& if p.windows().len() > 0 {
                &&& q.spec_master() == crate::workspaces::spec_master_after(
                    p.windows(),
                    p.focus_pos(),
                )
                &&& effects == seq![Effect::Close(p.windows()[p.focus_pos()])]
            } else {
                &&& q.spec_master() == p.spec_master()
                &&& effects == Seq::<Effect>::empty()
            }
        },
        Command::FocusNext => {
            &&& mgr_frame(pre, post)
            &&& focused_only_update(pre, post)
            &&& ws_frame(p, q)
            &&& q.windows() == p.windows()
            &&& q.focus_pos() == crate::stack::spec_rotate_next(
                p.focus_pos(),
                p.windows().len() as int,
            )
            &&& q.spec_master() == crate::workspaces::spec_master_after(
                q.windows(),
                q.focus_pos(),
            )
            &&& effects == q.spec_layout_effects()
        },
        Command::FocusPrevious => {
            &&& mgr_frame(pre, post)
            &&& focused_only_update(pre, post)
            &&& ws_frame(p, q)
            &&& q.windows() == p.windows()
            &&& q.focus_pos() == crate::stack::spec_rotate_previous(
                p.focus_pos(),
                p.windows().len() as int,
            )
            &&& q.spec_master() == crate::workspaces::spec_master_after(
                q.windows(),
                q.focus_pos(),
            )
            &&& effects == q.spec_layout_effects()
        },
        Command::IncreaseMaster => {
            &&& mgr_frame(pre, post)
            &&& focused_only_update(pre, post)
            &&& crate::workspaces::adjust_outcome(
                p,
                q,
                crate::workspaces::LayoutAdjustment::IncreaseMaster,
            )
            &&& effects == crate::workspaces::spec_adjust_report(
                p,
                crate::workspaces::LayoutAdjustment::IncreaseMaster,
            ) + q.spec_layout_effects()
        },
        Command::DecreaseMaster => {
            &&& mgr_frame(pre, post)
            &&& focused_only_update(pre, post)
            &&& crate::workspaces::adjust_outcome(
                p,
                q,
                crate::workspaces::LayoutAdjustment::DecreaseMaster,
            )
            &&& effects == crate::workspaces::spec_adjust_report(
                p,
                crate::workspaces::LayoutAdjustment::DecreaseMaster,
            ) + q.spec_layout_effects()
        },
        Command::IncreaseInnerGaps => {
            &&& mgr_frame(pre, post)
            &&& focused_only_update(pre, post)
            &&& crate::workspaces::adjust_outcome(
                p,
                q,
                crate::workspaces::LayoutAdjustment::IncreaseInnerGaps,
            )
            &&& effects == crate::workspaces::spec_adjust_report(
                p,
                crate::workspaces::LayoutAdjustment::IncreaseInnerGaps,
            ) + q.spec_layout_effects()
        },
        Command::DecreaseInnerGaps => {
            &&& mgr_frame(pre, post)
            &&& focused_only_update(pre, post)
            &&& crate::workspaces::adjust_outcome(
                p,
                q,
                crate::workspaces::LayoutAdjustment::DecreaseInnerGaps,
            )
            &&& effects == crate::workspaces::spec_adjust_report(
                p,
                crate::workspaces::LayoutAdjustment::DecreaseInnerGaps,
            ) + q.spec_layout_effects()
        },
        Command::IncreaseOuterGaps => {
            &&& mgr_frame(pre, post)
            &&& focused_only_update(pre, post)
            &&& crate::workspaces::adjust_outcome(
                p,
                q,
                crate::workspaces::LayoutAdjustment::IncreaseOuterGaps,
            )
            &&& effects == crate::workspaces::spec_adjust_report(
                p,
                crate::workspaces::LayoutAdjustment::IncreaseOuterGaps,
            ) + q.spec_layout_effects()
        },
        Command::DecreaseOuterGaps => {
            &&& mgr_frame(pre, post)
            &&& focused_only_update(pre, post)
            &&& crate::workspaces::adjust_outcome(
                p,
                q,
                crate::workspaces::LayoutAdjustment::DecreaseOuterGaps,
            )
            &&& effects == crate::workspaces::spec_adjust_report(
                p,
                crate::workspaces::LayoutAdjustment::DecreaseOuterGaps,
            ) + q.spec_layout_effects()
        },
        Command::LayoutNext => {
            &&& mgr_frame(pre, post)
            &&& focused_only_update(pre, post)
            &&& q.windows() == p.windows()
            &&& q.focus_pos() == p.focus_pos()
            &&& q.spec_master() == p.spec_master()
            &&& q.layouts() == p.layouts()
            &&& q.layout_pos() == crate::stack::spec_rotate_next(
                p.layout_pos(),
                p.layouts().len() as int,
            )
            &&& q.is_active() == p.is_active()
            &&& q.spec_viewport() == p.spec_viewport()
            &&& q.spec_name() == p.spec_name()
            &&& effects == q.spec_layout_effects()
        },
        Command::Spawn(c, args) => {
            &&& post.workspaces() == pre.workspaces()
            &&& mgr_frame(pre, post)
            &&& effects.len() == 1
            &&& (effects[0] matches Effect::Spawn(c2, a2) && c2 == c && a2@ == args@)
        },
        Command::SwitchGroup(nm) => exists|err: bool|
            spec_switch_outcome(pre, post, nm@, sw, sh, effects, err),
        Command::MoveWindowToGroup(nm) => exists|lost: bool|
            spec_move_outcome(pre, post, nm@, effects, lost),
    }
}

impl Volan {
    /// Runs one bound command against the manager; see `spec_run_outcome`.
    /// A command that fails (an unknown workspace name) is swallowed: the
    /// failure is the caller's to report, and the manager keeps running.
    pub fn run_command(&mut self, cmd: &Command, screen_width: u32, screen_height: u32) -> (r:
        Vec<Effect>)
        requires
            old(self).wf(),
            screen_width <= 0xFFFF,
            screen_height <= 0xFFFF,
        ensures
            final(self).wf(),
            spec_run_outcome(
                *old(self),
                *final(self),
                *cmd,
                screen_width as int,
                screen_height as int,
                r@,
            ),
    {
        match cmd {
            Command::SwitchGroup(nm) => {
                match self.switch_group(nm, screen_width, screen_height) {
                    Ok(e) => e,
                    Err(_) => Vec::new(),
                }
            },
            Command::MoveWindowToGroup(nm) => {
                let (e, _) = self.move_focused_to_group(nm);
                e
            },
            Command::Spawn(c, args) => {
                let mut r: Vec<Effect> = Vec::new();
                r.push(Effect::Spawn(c.clone(), clone_strings(args)));
                r
            },
            _ => {
                proof {
                    lemma_nonempty_has_unique_focus(self.workspaces);
                }
                let ghost pos = old(self).workspace_pos();
                let ws = self.workspaces.focused_mut();
                let effects = match cmd {
                    Command::CloseFocused => ws.close_focused(),
                    Command::FocusNext => ws.focus_next(),
                    Command::FocusPrevious => ws.focus_previous(),
                    Command::IncreaseMaster => ws.increase_master(),
                    Command::DecreaseMaster => ws.decrease_master(),
                    Command::IncreaseInnerGaps => ws.increase_innergaps(),
                    Command::DecreaseInnerGaps => ws.decrease_innergaps(),
                    Command::IncreaseOuterGaps => ws.increase_outergaps(),
                    Command::DecreaseOuterGaps => ws.decrease_outergaps(),
                    _ => ws.layout_next(),
                };
                proof {
                    let qws = self.workspaces@[pos];
                    assert forall|i: int|
                        0 <= i < self.workspaces@.len() implies (#[trigger] self.workspaces@[i]).wf()
                        && spec_nodup(self.workspaces@[i].windows()) by {
                        if i != pos {
                            assert(self.workspaces@[i] == old(self).workspaces@[i]);
                        }
                    }
                    assert forall|w: WindowId| #[trigger] spec_count(self.workspaces@, w) <= 1 by {
                        lemma_count_update(old(self).workspaces@, pos, qws, w);
                    }
                    assert forall|w: WindowId|
                        #[trigger] spec_has_dock(self.screen.docks(), w) implies spec_count(
                        self.workspaces@,
                        w,
                    ) == 0 by {
                        lemma_count_update(old(self).workspaces@, pos, qws, w);
                        lemma_count_nonneg(self.workspaces@, w);
                    }
                }
                effects
            },
        }
    }

    /// Looks up the command bound to the pressed key combination and runs
    /// it; a key with no binding does nothing.
    pub fn on_key_press(&mut self, key: KeyCombo, screen_width: u32, screen_height: u32) -> (r:
        Vec<Effect>)
        requires
            old(self).wf(),
            screen_width <= 0xFFFF,
            screen_height <= 0xFFFF,
        ensures
            final(self).wf(),
            spec_key_press_outcome(
                *old(self),
                *final(self),
                key,
                screen_width as int,
                screen_height as int,
                r@,
            ),
    {
        let n = self.keys.len();
        let mut j: usize = 0;
        let mut found: Option<Command> = None;
        while j < n && found.is_none()
            invariant
                self == old(self),
                n == self.keys@.len(),
                j <= n,
                match found {
                    None => forall|i: int| 0 <= i < j ==> (#[trigger] self.keys@[i]).0 != key,
                    Some(c) => {
                        &&& j < n
                        &&& self.keys@[j as int].0 == key
                        &&& (forall|i: int| 0 <= i < j ==> (#[trigger] self.keys@[i]).0 != key)
                        &&& crate::cmd::spec_cloned_command(self.keys@[j as int].1, c)
                    },
                },
            decreases
                    n - j,
                    (if found.is_none() {
                        1int
                    } else {
                        0int
                    }),
        {
            if self.keys[j].0 == key {
                found = Some(self.keys[j].1.clone());
            } else {
                j += 1;
            }
        }
        match found {
            None => {
                proof {
                    assert(spec_lookup(old(self).spec_keys(), key) is None) by {
                        assert(forall|i: int|
                            0 <= i < old(self).spec_keys().len() ==> (#[trigger] old(
                                self,
                            ).spec_keys()[i]).0 != key);
                    }
                }
                Vec::new()
            },
            Some(c) => {
                let ghost ji = j as int;
                proof {
                    assert(spec_lookup(old(self).spec_keys(), key) == Some(ji)) by {
                        assert((old(self).spec_keys()[ji]).0 == key);
                        let c0 = choose|i: int|
                            {
                                &&& 0 <= i < old(self).spec_keys().len()
                                &&& (#[trigger] old(self).spec_keys()[i]).0 == key
                                &&& forall|j2: int|
                                    0 <= j2 < i ==> (#[trigger] old(self).spec_keys()[j2]).0 != key
                            };
                        if c0 < ji {
                            assert((old(self).spec_keys()[c0]).0 != key);
                        } else if c0 > ji {
                            assert((old(self).spec_keys()[ji]).0 != key);
                        }
                    }
                }
                let effects = self.run_command(&c, screen_width, screen_height);
                proof {
                    assert(crate::cmd::spec_cloned_command(old(self).spec_keys()[ji].1, c));
                }
                effects
            },
        }
    }

    /// A window asked to be mapped.  An unmanaged window is taken under
    /// management; a managed window of the current workspace is re-focused,
    /// since the application probably wants it prominent; anything else is
    /// ignored.
    pub fn on_map_request(
        &mut self,
        window_id: WindowId,
        window_types: &Vec<WindowType>,
        strut: Option<Strut>,
        screen_width: u32,
        screen_height: u32,
    ) -> (r: Vec<Effect>)
        requires
            old(self).wf(),
            screen_width <= 0xFFFF,
            screen_height <= 0xFFFF,
            old(self).docks().len() < usize::MAX,
            old(self).workspaces()[old(self).workspace_pos()].windows().len() < usize::MAX,
        ensures
            final(self).wf(),
            spec_map_request_outcome(
                *old(self),
                *final(self),
                window_id,
                window_types@,
                strut,
                screen_width as int,
                screen_height as int,
                r@,
            ),
    {
        if !self.is_window_managed(&window_id) && !self.screen.contains(&window_id) {
            let r = self.manage_window(window_id, window_types, strut, screen_width, screen_height);
            match r {
                Ok(effects) => {
                    proof {
                        if !window_types@.contains(WindowType::Dock) {
                        } else {
                            let d = Dock {
                                window_id,
                                strut_partial: match strut {
                                    Some(s) => Some(s.spec_capped()),
                                    None => None,
                                },
                            };
                            assert(final(self).docks().last() == d);
                            assert(spec_has_dock(final(self).docks(), window_id));
                        }
                    }
                    effects
                },
                Err(_) => {
                    proof {
                        assert(false);
                    }
                    Vec::new()
                },
            }
        } else {
            proof {
                lemma_nonempty_has_unique_focus(self.workspaces);
                assert(self.workspaces@[self.workspaces.focus_pos()].wf());
            }
            let in_group = self.group().contains(&window_id);
            if !in_group {
                proof {
                    lemma_count_nonneg(old(self).workspaces@, window_id);
                }
                return Vec::new();
            }
            proof {
                lemma_count_member(
                    self.workspaces@,
                    self.workspaces.focus_pos(),
                    window_id,
                );
            }
            let ghost pos = old(self).workspace_pos();
            let ws = self.workspaces.focused_mut();
            let effects = ws.focus(&window_id);
            proof {
                let qws = self.workspaces@[pos];
                assert forall|i: int|
                    0 <= i < self.workspaces@.len() implies (#[trigger] self.workspaces@[i]).wf()
                    && spec_nodup(self.workspaces@[i].windows()) by {
                    if i != pos {
                        assert(self.workspaces@[i] == old(self).workspaces@[i]);
                    }
                }
                assert forall|w: WindowId| #[trigger] spec_count(self.workspaces@, w) <= 1 by {
                    lemma_count_update(old(self).workspaces@, pos, qws, w);
                }
                assert forall|w: WindowId|
                    #[trigger] spec_has_dock(self.screen.docks(), w) implies spec_count(
                    self.workspaces@,
                    w,
                ) == 0 by {
                    lemma_count_update(old(self).workspaces@, pos, qws, w);
                    lemma_count_nonneg(self.workspaces@, w);
                }
                lemma_count_update(old(self).workspaces@, pos, qws, window_id);
                assert(self.workspaces@ =~= old(self).workspaces@.update(pos, qws));
            }
            effects
        }
    }

    /// A window was unmapped by its application; release it.  The manager's
    /// own unmaps never arrive here, because it suspends a window's event
    /// tracking around its own visibility calls.
    pub fn on_unmap_notify(
        &mut self,
        window_id: &WindowId,
        screen_width: u32,
        screen_height: u32,
    ) -> (r: Vec<Effect>)
        requires
            old(self).wf(),
            screen_width <= 0xFFFF,
            screen_height <= 0xFFFF,
        ensures
            final(self).wf(),
            spec_unmanage_outcome(
                *old(self),
                *final(self),
                *window_id,
                screen_width as int,
                screen_height as int,
                r@,
            ),
    {
        self.unmanage_window(window_id, screen_width, screen_height)
    }

    /// A window was destroyed; release it.
    pub fn on_destroy_notify(
        &mut self,
        window_id: &WindowId,
        screen_width: u32,
        screen_height: u32,
    ) -> (r: Vec<Effect>)
        requires
            old(self).wf(),
            screen_width <= 0xFFFF,
            screen_height <= 0xFFFF,
        ensures
            final(self).wf(),
            spec_unmanage_outcome(
                *old(self),
                *final(self),
                *window_id,
                screen_width as int,
                screen_height as int,
                r@,
            ),
    {
        self.unmanage_window(window_id, screen_width, screen_height)
    }

    /// The pointer entered a window: focus it in the current workspace; a
    /// window of another workspace is left alone.
    pub fn on_enter_notify(&mut self, window_id: &WindowId) -> (r: Vec<Effect>)
        requires
            old(self).wf(),
        ensures
            final(self).wf(),
            spec_enter_outcome(*old(self), *final(self), *window_id, r@),
    {
        proof {
            lemma_nonempty_has_unique_focus(self.workspaces);
        }
        let ghost pos = old(self).workspace_pos();
        let ws = self.workspaces.focused_mut();
        let effects = ws.focus(window_id);
        proof {
            let qws = self.workspaces@[pos];
            assert forall|i: int|
                0 <= i < self.workspaces@.len() implies (#[trigger] self.workspaces@[i]).wf()
                && spec_nodup(self.workspaces@[i].windows()) by {
                if i != pos {
                    assert(self.workspaces@[i] == old(self).workspaces@[i]);
                }
            }
            assert forall|w: WindowId| #[trigger] spec_count(self.workspaces@, w) <= 1 by {
                lemma_count_update(old(self).workspaces@, pos, qws, w);
            }
            assert forall|w: WindowId|
                #[trigger] spec_has_dock(self.screen.docks(), w) implies spec_count(
                self.workspaces@,
                w,
            ) == 0 by {
                lemma_count_update(old(self).workspaces@, pos, qws, w);
                lemma_count_nonneg(self.workspaces@, w);
            }
            assert(self.workspaces@ =~= old(self).workspaces@.update(pos, qws));
        }
        effects
    }

    /// Dispatches one protocol event; the single synchronous loop in the
    /// surrounding program calls this for every event, in arrival order.
    pub fn dispatch(&mut self, event: Event, screen_width: u32, screen_height: u32) -> (r: Vec<
        Effect,
    >)
        requires
            old(self).wf(),
            screen_width <= 0xFFFF,
            screen_height <= 0xFFFF,
            old(self).docks().len() < usize::MAX,
            old(self).workspaces()[old(self).workspace_pos()].windows().len() < usize::MAX,
        ensures
            final(self).wf(),
            final(self).spec_keys() == old(self).spec_keys(),
            match event {
                Event::MapRequest(w, types, strut) => spec_map_request_outcome(
                    *old(self),
                    *final(self),
                    w,
                    types@,
                    strut,
                    screen_width as int,
                    screen_height as int,
                    r@,
                ),
                Event::UnmapNotify(w) => spec_unmanage_outcome(
                    *old(self),
                    *final(self),
                    w,
                    screen_width as int,
                    screen_height as int,
                    r@,
                ),
                Event::DestroyNotify(w) => spec_unmanage_outcome(
                    *old(self),
                    *final(self),
                    w,
                    screen_width as int,
                    screen_height as int,
                    r@,
                ),
                Event::KeyPress(key) => spec_key_press_outcome(
                    *old(self),
                    *final(self),
                    key,
                    screen_width as int,
                    screen_height as int,
                    r@,
                ),
                Event::EnterNotify(w) => spec_enter_outcome(*old(self), *final(self), w, r@),
            },
    {
        match event {
            Event::MapRequest(w, types, strut) => self.on_map_request(
                w,
                &types,
                strut,
                screen_width,
                screen_height,
            ),
            Event::UnmapNotify(w) => self.on_unmap_notify(&w, screen_width, screen_height),
            Event::DestroyNotify(w) => self.on_destroy_notify(&w, screen_width, screen_height),
            Event::KeyPress(key) => self.on_key_press(key, screen_width, screen_height),
            Event::EnterNotify(w) => self.on_enter_notify(&w),
        }
    }
}

/// How one map request changes the manager: an unmanaged window is taken
/// under management, a managed window of the current workspace is
/// re-focused, and anything else is ignored.
pub open spec fn spec_map_request_outcome(
    pre: Volan,
    post: Volan,
    window_id: WindowId,
    types: Seq<WindowType>,
    strut: Option<Strut>,
    sw: int,
    sh: int,
    effects: Seq<Effect>,
) -> bool {
    &&& post.spec_keys() == pre.spec_keys()
    &&& post.workspace_pos() == pre.workspace_pos()
    &&& {
        let pos = pre.workspace_pos();
        let pws = pre.workspaces()[pos];
        let qws = post.workspaces()[pos];
        let managed = spec_count(pre.workspaces(), window_id) != 0 || spec_has_dock(
            pre.docks(),
            window_id,
        );
        if !managed {
            spec_manage_outcome(
                pre,
                post,
                window_id,
                types.contains(WindowType::Dock),
                strut,
                sw,
                sh,
                Ok(effects),
            )
        } else if pws.windows().contains(window_id) {
            &&& post.docks() == pre.docks()
            &&& post.workspaces() == pre.workspaces().update(pos, qws)
            &&& qws.windows() == pws.windows()
            &&& qws.spec_master() == Some(window_id)
            &&& exists|i: int|
                {
                    &&& 0 <= i < pws.windows().len()
                    &&& pws.windows()[i] == window_id
                    &&& (forall|j: int| 0 <= j < i ==> pws.windows()[j] != window_id)
                    &&& qws.focus_pos() == i
                }
            &&& ws_frame(pws, qws)
            &&& effects == qws.spec_layout_effects()
        } else {
            &&& post.workspaces() == pre.workspaces()
            &&& post.docks() == pre.docks()
            &&& effects == Seq::<Effect>::empty()
        }
    }
}

/// How one key press changes the manager: the first binding whose
/// combination matches runs, as `spec_run_outcome` says; a key with no
/// binding does nothing.
pub open spec fn spec_key_press_outcome(
    pre: Volan,
    post: Volan,
    key: KeyCombo,
    sw: int,
    sh: int,
    effects: Seq<Effect>,
) -> bool {
    &&& post.spec_keys() == pre.spec_keys()
    &&& (spec_lookup(pre.spec_keys(), key) is None ==> {
        &&& post.workspaces() == pre.workspaces()
        &&& post.workspace_pos() == pre.workspace_pos()
        &&& post.docks() == pre.docks()
        &&& effects == Seq::<Effect>::empty()
    })
    &&& (forall|i: int|
        spec_lookup(pre.spec_keys(), key) == Some(i) ==> exists|c: Command|
            {
                &&& crate::cmd::spec_cloned_command(pre.spec_keys()[i].1, c)
                &&& spec_run_outcome(pre, post, c, sw, sh, effects)
            })
}

/// How one pointer entry changes the manager: a window of the current
/// workspace becomes its focused window and master; a window of another
/// workspace is left alone.
pub open spec fn spec_enter_outcome(
    pre: Volan,
    post: Volan,
    window_id: WindowId,
    effects: Seq<Effect>,
) -> bool {
    &&& post.spec_keys() == pre.spec_keys()
    &&& post.workspace_pos() == pre.workspace_pos()
    &&& post.docks() == pre.docks()
    &&& {
        let pos = pre.workspace_pos();
        let pws = pre.workspaces()[pos];
        let qws = post.workspaces()[pos];
        &&& post.workspaces() == pre.workspaces().update(pos, qws)
        &&& qws.windows() == pws.windows()
        &&& ws_frame(pws, qws)
        &&& if pws.windows().contains(window_id) {
            &&& qws.spec_master() == Some(window_id)
            &&& exists|i: int|
                {
                    &&& 0 <= i < pws.windows().len()
                    &&& pws.windows()[i] == window_id
                    &&& (forall|j: int| 0 <= j < i ==> pws.windows()[j] != window_id)
                    &&& qws.focus_pos() == i
                }
            &&& effects == qws.spec_layout_effects()
        } else {
            &&& qws.focus_pos() == pws.focus_pos()
            &&& qws.spec_master() == pws.spec_master()
            &&& effects == Seq::<Effect>::empty()
        }
    }
}

/// Managing the same window twice leaves it in exactly one workspace: the
/// first request placed it, and the second is refused and changes nothing,
/// so membership is idempotent.
pub proof fn lemma_manage_twice_single_owner(mid: Volan, post: Volan, w: WindowId)
    requires
        spec_count(mid.workspaces(), w) == 1,
        spec_count(mid.workspaces(), w) != 0 ==> post.workspaces() == mid.workspaces(),
    ensures
        spec_count(post.workspaces(), w) == 1,
{
}

impl Volan {
    /// Adopts the already-existing top-level windows, activates the current
    /// workspace on the screen's viewport, and publishes the workspace
    /// order: everything the manager does between installation and its
    /// event loop.  Every listed window ends up owned, by a workspace or by
    /// the dock tracker.
    pub fn startup(
        &mut self,
        existing: Vec<(WindowId, Vec<WindowType>, Option<Strut>)>,
        screen_width: u32,
        screen_height: u32,
    ) -> (r: Vec<Effect>)
        requires
            old(self).wf(),
            screen_width <= 0xFFFF,
            screen_height <= 0xFFFF,
            old(self).docks().len() + existing@.len() < usize::MAX,
            old(self).workspaces()[old(self).workspace_pos()].windows().len() + existing@.len()
                < usize::MAX,
        ensures
            final(self).wf(),
            final(self).spec_keys() == old(self).spec_keys(),
            final(self).workspace_pos() == old(self).workspace_pos(),
            final(self).workspaces()[final(self).workspace_pos()].is_active(),
            forall|i: int|
                0 <= i < existing@.len() ==> spec_count(
                    final(self).workspaces(),
                    (#[trigger] existing@[i]).0,
                ) == 1 || spec_has_dock(final(self).docks(), existing@[i].0),
            r@.len() > 0,
            ({
                let wss = final(self).workspaces();
                r@.last() matches Effect::PublishDesktops(ns) && ns@.len() == wss.len()
            }),
    {
        let n = existing.len();
        let mut existing = existing;
        let ghost ex0 = existing@;
        let mut effects: Vec<Effect> = Vec::new();
        let mut j: usize = 0;
        while j < n
            invariant
                self.wf(),
                n == ex0.len(),
                existing@ == ex0.skip(j as int),
                j <= n,
                screen_width <= 0xFFFF,
                screen_height <= 0xFFFF,
                self.spec_keys() == old(self).spec_keys(),
                self.workspace_pos() == old(self).workspace_pos(),
                self.workspaces().len() == old(self).workspaces().len(),
                self.docks().len() <= old(self).docks().len() + j,
                self.workspaces()[self.workspace_pos()].windows().len() <= old(
                    self,
                ).workspaces()[old(self).workspace_pos()].windows().len() + j,
                old(self).docks().len() + ex0.len() < usize::MAX,
                old(self).workspaces()[old(self).workspace_pos()].windows().len() + ex0.len()
                    < usize::MAX,
                forall|i: int|
                    0 <= i < j ==> spec_count(self.workspaces(), (#[trigger] ex0[i]).0) == 1
                        || spec_has_dock(self.docks(), ex0[i].0),
            decreases n - j,
        {
            let (w, types, strut) = existing.remove(0);
            proof {
                assert(existing@ =~= ex0.skip(j + 1 as int));
            }
            let ghost pre_it = *self;
            let outcome = self.manage_window(w, &types, strut, screen_width, screen_height);
            match outcome {
                Ok(mut eff) => {
                    effects.append(&mut eff);
                    proof {
                        if types@.contains(WindowType::Dock) {
                            assert(self.docks().last().window_id == w);
                            assert(spec_has_dock(self.docks(), w));
                        }
                        assert forall|i: int|
                            0 <= i < j + 1 implies spec_count(
                            self.workspaces(),
                            (#[trigger] ex0[i]).0,
                        ) == 1 || spec_has_dock(self.docks(), ex0[i].0) by {
                            if ex0[i].0 != w {
                                assert(spec_count(self.workspaces(), ex0[i].0) == spec_count(
                                    pre_it.workspaces(),
                                    ex0[i].0,
                                ));
                            }
                        }
                    }
                },
                Err(_) => {
                    proof {
                        assert forall|i: int|
                            0 <= i < j + 1 implies spec_count(
                            self.workspaces(),
                            (#[trigger] ex0[i]).0,
                        ) == 1 || spec_has_dock(self.docks(), ex0[i].0) by {
                            if i == j as int || ex0[i].0 == w {
                                lemma_count_nonneg(pre_it.workspaces(), w);
                            }
                        }
                    }
                },
            }
            j += 1;
        }
        let vp = self.screen.viewport(screen_width, screen_height);
        proof {
            lemma_nonempty_has_unique_focus(self.workspaces);
        }
        let ghost mid = self.workspaces@;
        let ghost pos = old(self).workspace_pos();
        let ws = self.workspaces.focused_mut();
        let mut act = ws.activate(vp);
        effects.append(&mut act);
        proof {
            let qws = self.workspaces@[pos];
            assert forall|i: int|
                0 <= i < self.workspaces@.len() implies (#[trigger] self.workspaces@[i]).wf()
                && spec_nodup(self.workspaces@[i].windows()) by {
                if i != pos {
                    assert(self.workspaces@[i] == mid[i]);
                }
            }
            assert forall|w: WindowId| #[trigger] spec_count(self.workspaces@, w) <= 1 by {
                lemma_count_update(mid, pos, qws, w);
            }
            assert forall|w: WindowId|
                #[trigger] spec_has_dock(self.screen.docks(), w) implies spec_count(
                self.workspaces@,
                w,
            ) == 0 by {
                lemma_count_update(mid, pos, qws, w);
                lemma_count_nonneg(self.workspaces@, w);
            }
            assert forall|i: int|
                0 <= i < ex0.len() implies spec_count(self.workspaces(), (#[trigger] ex0[i]).0)
                == 1 || spec_has_dock(self.docks(), ex0[i].0) by {
                lemma_count_update(mid, pos, qws, ex0[i].0);
            }
        }
        let names = self.workspace_names();
        effects.push(Effect::PublishDesktops(names));
        effects
    }
}

/// Expands workspace definitions into the extra key bindings they imply and
/// the builders for the workspaces themselves: each definition binds its
/// key to switching to the workspace, and its key with an added shift
/// modifier to moving the focused window there.  The given bindings follow
/// the generated ones.
pub fn gen_workspaces(
    keys: Vec<(Vec<ModKey>, u32, Command)>,
    groupdef: Vec<(ModKey, u32, String, String)>,
) -> (r: (Vec<(Vec<ModKey>, u32, Command)>, Vec<WorkSpaceBuilder>))
    requires
        2 * groupdef@.len() + keys@.len() < usize::MAX,
    ensures
        r.0@.len() == 2 * groupdef@.len() + keys@.len(),
        r.1@.len() == groupdef@.len(),
        forall|i: int|
            0 <= i < groupdef@.len() ==> {
                let src = #[trigger] groupdef@[i];
                &&& r.0@[2 * i].0@ == seq![src.0, ModKey::Shift]
                &&& r.0@[2 * i].1 == src.1
                &&& (r.0@[2 * i].2 matches Command::MoveWindowToGroup(nm) && nm@ == src.2@)
                &&& r.0@[2 * i + 1].0@ == seq![src.0]
                &&& r.0@[2 * i + 1].1 == src.1
                &&& (r.0@[2 * i + 1].2 matches Command::SwitchGroup(nm) && nm@ == src.2@)
                &&& r.1@[i].spec_name() == src.2@
                &&& r.1@[i].spec_default_layout() == src.3@
            },
        forall|i: int|
            0 <= i < keys@.len() ==> r.0@[2 * groupdef@.len() + i] == keys@[i],
{
    let mut keys = keys;
    let mut defs = groupdef;
    let ghost defs0 = defs@;
    let dn = defs.len();
    let mut additional: Vec<(Vec<ModKey>, u32, Command)> = Vec::new();
    let mut builders: Vec<WorkSpaceBuilder> = Vec::new();
    let mut j: usize = 0;
    while j < dn
        invariant
            dn == defs0.len(),
            defs@ == defs0.skip(j as int),
            j <= dn,
            additional@.len() == 2 * j,
            builders@.len() == j,
            forall|i: int|
                0 <= i < j ==> {
                    let src = #[trigger] defs0[i];
                    &&& additional@[2 * i].0@ == seq![src.0, ModKey::Shift]
                    &&& additional@[2 * i].1 == src.1
                    &&& (additional@[2 * i].2 matches Command::MoveWindowToGroup(nm) && nm@
                        == src.2@)
                    &&& additional@[2 * i + 1].0@ == seq![src.0]
                    &&& additional@[2 * i + 1].1 == src.1
                    &&& (additional@[2 * i + 1].2 matches Command::SwitchGroup(nm) && nm@
                        == src.2@)
                    &&& builders@[i].spec_name() == src.2@
                    &&& builders@[i].spec_default_layout() == src.3@
                },
        decreases dn - j,
    {
        let entry = defs.remove(0);
        proof {
            assert(defs@ =~= defs0.skip(j + 1 as int));
        }
        let (mask, xk_key, group_name, layout_name) = entry;
        let mut move_mods: Vec<ModKey> = Vec::new();
        move_mods.push(mask);
        move_mods.push(ModKey::Shift);
        proof {
            assert(move_mods@ =~= seq![mask, ModKey::Shift]);
        }
        additional.push((move_mods, xk_key, Command::MoveWindowToGroup(group_name.clone())));
        let mut switch_mods: Vec<ModKey> = Vec::new();
        switch_mods.push(mask);
        proof {
            assert(switch_mods@ =~= seq![mask]);
        }
        builders.push(WorkSpaceBuilder::new(group_name.as_str(), layout_name.as_str()));
        additional.push((switch_mods, xk_key, Command::SwitchGroup(group_name)));
        proof {
            let ji = j as int;
            assert(entry == defs0[ji]);
            assert(additional@.len() == 2 * ji + 2);
            assert(additional@[2 * ji].0@ == seq![defs0[ji].0, ModKey::Shift]);
            assert(additional@[2 * ji + 1].0@ == seq![defs0[ji].0]);
        }
        j += 1;
    }
    let ghost before_append = additional@;
    let ghost keys0 = keys@;
    additional.append(&mut keys);
    proof {
        assert(additional@ == before_append + keys0);
        assert forall|i: int|
            0 <= i < keys0.len() implies additional@[2 * defs0.len() + i] == keys0[i] by {
            assert(additional@[before_append.len() + i] == keys0[i]);
        }
        assert forall|i: int|
            0 <= i < defs0.len() implies {
                let src = #[trigger] defs0[i];
                &&& additional@[2 * i].0@ == seq![src.0, ModKey::Shift]
                &&& additional@[2 * i].1 == src.1
                &&& (additional@[2 * i].2 matches Command::MoveWindowToGroup(nm) && nm@ == src.2@)
                &&& additional@[2 * i + 1].0@ == seq![src.0]
                &&& additional@[2 * i + 1].1 == src.1
                &&& (additional@[2 * i + 1].2 matches Command::SwitchGroup(nm) && nm@ == src.2@)
            } by {
            assert(additional@[2 * i] == before_append[2 * i]);
            assert(additional@[2 * i + 1] == before_append[2 * i + 1]);
        }
    }
    (additional, builders)
}

} // verus!
