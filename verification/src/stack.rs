use vstd::prelude::*;

verus! {

/// An ordered container with one distinguished "focused" element.
///
/// The elements are kept in two runs: the elements strictly before the focus
/// and the elements from the focus onward.  The first element of `after` is
/// the focused one.  A non-empty stack therefore always has exactly one
/// focused element, and iteration in `before`-then-`after` order visits the
/// elements in one stable overall order.
pub struct Stack<T> {
    before: Vec<T>,
    after: Vec<T>,
}

impl<T> View for Stack<T> {
    type V = Seq<T>;

    closed spec fn view(&self) -> Seq<T> {
        self.before@ + self.after@
    }
}

/// Where the focus lands after the element at `i` is removed from a stack of
/// `len` elements whose focus was at `fp`.
///
/// Removing an element before the focus shifts the focus index down without
/// changing which element is focused.  Removing the focused element promotes
/// the next element, or the previous one when the focused element was last.
pub open spec fn spec_remove_at_fp(fp: int, len: int, i: int) -> int {
    if i < fp {
        fp - 1
    } else if fp + 1 < len {
        fp
    } else if len >= 2 {
        len - 2
    } else {
        0
    }
}

/// The focus index after one forward rotation of a stack of `len` elements.
pub open spec fn spec_rotate_next(fp: int, len: int) -> int {
    if len < 2 {
        fp
    } else {
        (fp + 1) % len
    }
}

/// The focus index after one backward rotation of a stack of `len` elements.
pub open spec fn spec_rotate_previous(fp: int, len: int) -> int {
    if len < 2 {
        fp
    } else if fp == 0 {
        len - 1
    } else {
        fp - 1
    }
}

/// The focus index after `n` forward rotations.
pub open spec fn spec_rotate_n(fp: int, len: int, n: nat) -> int
    decreases n,
{
    if n == 0 {
        fp
    } else {
        spec_rotate_next(spec_rotate_n(fp, len, (n - 1) as nat), len)
    }
}

impl<T> Stack<T> {
    /// The index of the focused element; meaningful only when the stack is
    /// non-empty and well formed.
    pub closed spec fn focus_pos(&self) -> int {
        self.before@.len() as int
    }

    /// The structural invariant: the focused run is empty only when the whole
    /// stack is, and the total element count fits in a machine word.
    pub closed spec fn wf(&self) -> bool {
        &&& (self.after@.len() == 0 ==> self.before@.len() == 0)
        &&& self.before@.len() + self.after@.len() <= usize::MAX
    }

    pub fn new() -> (s: Stack<T>)
        ensures
            s@ == Seq::<T>::empty(),
            s.wf(),
            s.focus_pos() == 0,
    {
        let s = Stack { before: Vec::new(), after: Vec::new() };
        proof {
            assert(s@ =~= Seq::<T>::empty());
        }
        s
    }

    /// A stack over the given elements, focused on the first.
    pub fn from_vec(v: Vec<T>) -> (s: Stack<T>)
        ensures
            s@ == v@,
            s.wf(),
            s.focus_pos() == 0,
    {
        let n = v.len();
        let s = Stack { before: Vec::new(), after: v };
        proof {
            assert(s@ =~= s.after@);
            assert(s.after@.len() == n);
        }
        s
    }

    pub fn stack_len(&self) -> (n: usize)
        requires
            self.wf(),
        ensures
            n == self@.len(),
    {
        self.before.len() + self.after.len()
    }

    pub fn is_empty(&self) -> (b: bool)
        requires
            self.wf(),
        ensures
            b == (self@.len() == 0),
    {
        self.before.is_empty() && self.after.is_empty()
    }

    /// A shared reference to the element at position `i` of the overall order.
    pub fn get(&self, i: usize) -> (r: &T)
        requires
            i < self@.len(),
        ensures
            *r == self@[i as int],
    {
        if i < self.before.len() {
            &self.before[i]
        } else {
            &self.after[i - self.before.len()]
        }
    }

    /// Pushes a new element and makes it the focus.  All elements that were at
    /// or after the old focus move to the `before` run, so no element is lost
    /// and the relative order of the old elements is preserved.
    pub fn push(&mut self, value: T)
        requires
            old(self).wf(),
            old(self)@.len() < usize::MAX,
        ensures
            final(self).wf(),
            final(self)@ == old(self)@.push(value),
            final(self).focus_pos() == old(self)@.len(),
    {
        self.before.append(&mut self.after);
        self.after.push(value);
        proof {
            assert(final(self)@ =~= old(self)@.push(value));
        }
    }

    /// The focused element, if the stack is non-empty.
    pub fn focused(&self) -> (r: Option<&T>)
        requires
            self.wf(),
        ensures
            match r {
                Some(v) => self@.len() > 0 && *v == self@[self.focus_pos()],
                None => self@.len() == 0,
            },
    {
        if self.after.len() > 0 {
            Some(&self.after[0])
        } else {
            None
        }
    }

    /// A mutable reference to the focused element of a non-empty stack; the
    /// stack afterwards holds whatever the caller wrote through it.
    pub fn focused_mut(&mut self) -> (r: &mut T)
        requires
            old(self).wf(),
            old(self)@.len() > 0,
        ensures
            *r == old(self)@[old(self).focus_pos()],
            final(self)@ =~= old(self)@.update(old(self).focus_pos(), *final(r)),
            final(self).focus_pos() == old(self).focus_pos(),
            final(self).wf(),
    {
        &mut self.after[0]
    }

    /// A mutable reference to the element at position `i` of the overall
    /// order; the stack afterwards holds whatever the caller wrote there.
    pub fn get_mut(&mut self, i: usize) -> (r: &mut T)
        requires
            old(self).wf(),
            i < old(self)@.len(),
        ensures
            *r == old(self)@[i as int],
            final(self)@ =~= old(self)@.update(i as int, *final(r)),
            final(self).focus_pos() == old(self).focus_pos(),
            final(self).wf(),
    {
        if i < self.before.len() {
            &mut self.before[i]
        } else {
            let k = i - self.before.len();
            &mut self.after[k]
        }
    }

    /// Replaces the focused element, leaving the focus position unchanged.
    pub fn set_focused(&mut self, value: T)
        requires
            old(self).wf(),
            old(self)@.len() > 0,
        ensures
            final(self).wf(),
            final(self)@ == old(self)@.update(old(self).focus_pos(), value),
            final(self).focus_pos() == old(self).focus_pos(),
    {
        self.after[0] = value;
        proof {
            assert(final(self)@ =~= old(self)@.update(old(self).focus_pos(), value));
        }
    }

    /// Restores the invariant after a removal emptied the focused run: the
    /// last `before` element wraps around and becomes focused.
    fn ensure_after_not_empty(&mut self)
        requires
            old(self).wf() || old(self).after@.len() == 0,
            old(self).before@.len() + old(self).after@.len() <= usize::MAX,
        ensures
            final(self).wf(),
            final(self)@ == old(self)@,
            final(self).focus_pos() == if old(self).after@.len() == 0 && old(self).before@.len()
                > 0 {
                old(self)@.len() - 1
            } else {
                old(self).focus_pos()
            },
    {
        if self.after.is_empty() && !self.before.is_empty() {
            let moved = self.before.pop().unwrap();
            self.after.push(moved);
            proof {
                assert(final(self)@ =~= old(self)@);
            }
        }
    }

    /// Removes and returns the focused element.  The next element becomes
    /// focused; if the focused element was last, the focus wraps to the
    /// previous one.
    pub fn remove_focused(&mut self) -> (r: Option<T>)
        requires
            old(self).wf(),
        ensures
            final(self).wf(),
            match r {
                Some(v) => {
                    &&& old(self)@.len() > 0
                    &&& v == old(self)@[old(self).focus_pos()]
                    &&& final(self)@ == old(self)@.remove(old(self).focus_pos())
                    &&& final(self).focus_pos() == spec_remove_at_fp(
                        old(self).focus_pos(),
                        old(self)@.len() as int,
                        old(self).focus_pos(),
                    )
                },
                None => {
                    &&& old(self)@.len() == 0
                    &&& final(self)@ == old(self)@
                    &&& final(self).focus_pos() == old(self).focus_pos()
                },
            },
    {
        if self.after.is_empty() {
            None
        } else {
            let removed = self.after.remove(0);
            proof {
                assert(self@ =~= old(self)@.remove(old(self).focus_pos()));
            }
            self.ensure_after_not_empty();
            Some(removed)
        }
    }

    /// Removes and returns the element at position `i` of the overall order,
    /// re-focusing as `spec_remove_at_fp` describes.
    pub fn remove_at(&mut self, i: usize) -> (r: T)
        requires
            old(self).wf(),
            i < old(self)@.len(),
        ensures
            final(self).wf(),
            r == old(self)@[i as int],
            final(self)@ == old(self)@.remove(i as int),
            final(self).focus_pos() == spec_remove_at_fp(
                old(self).focus_pos(),
                old(self)@.len() as int,
                i as int,
            ),
    {
        if i < self.before.len() {
            let removed = self.before.remove(i);
            proof {
                assert(final(self)@ =~= old(self)@.remove(i as int));
            }
            removed
        } else {
            let removed = self.after.remove(i - self.before.len());
            proof {
                assert(self@ =~= old(self)@.remove(i as int));
            }
            self.ensure_after_not_empty();
            removed
        }
    }

    /// Re-splits the stack so the element at position `i` becomes focused.
    /// The overall order of the elements does not change.
    pub fn focus_at(&mut self, i: usize)
        requires
            old(self).wf(),
            i < old(self)@.len(),
        ensures
            final(self).wf(),
            final(self)@ == old(self)@,
            final(self).focus_pos() == i,
    {
        while self.before.len() > i
            invariant
                i <= self@.len(),
                self@ == old(self)@,
                self.before@.len() + self.after@.len() <= usize::MAX,
            decreases self.before@.len(),
        {
            let moved = self.before.pop().unwrap();
            self.after.insert(0, moved);
            proof {
                assert(self@ =~= old(self)@);
            }
        }
        while self.before.len() < i
            invariant
                i < self@.len(),
                self@ == old(self)@,
                self.before@.len() + self.after@.len() <= usize::MAX,
                self.before@.len() <= i,
            decreases i - self.before@.len(),
        {
            let moved = self.after.remove(0);
            self.before.push(moved);
            proof {
                assert(self@ =~= old(self)@);
            }
        }
    }

    /// Rotates the focus forward by one, wrapping to the first element; stacks
    /// of fewer than two elements are left unchanged.
    pub fn focus_next(&mut self)
        requires
            old(self).wf(),
        ensures
            final(self).wf(),
            final(self)@ == old(self)@,
            final(self).focus_pos() == spec_rotate_next(
                old(self).focus_pos(),
                old(self)@.len() as int,
            ),
    {
        if self.stack_len() < 2 {
            return ;
        }
        let moved = self.after.remove(0);
        self.before.push(moved);
        proof {
            assert(self@ =~= old(self)@);
        }
        if self.after.is_empty() {
            core::mem::swap(&mut self.after, &mut self.before);
            proof {
                assert(self@ =~= old(self)@);
            }
        }
        proof {
            let len = old(self)@.len() as int;
            let fp = old(self).focus_pos();
            if fp + 1 == len {
                vstd::arithmetic::div_mod::lemma_mod_self_0(len);
            } else {
                vstd::arithmetic::div_mod::lemma_small_mod((fp + 1) as nat, len as nat);
            }
        }
    }

    /// Rotates the focus backward by one, wrapping to the last element; stacks
    /// of fewer than two elements are left unchanged.
    pub fn focus_previous(&mut self)
        requires
            old(self).wf(),
        ensures
            final(self).wf(),
            final(self)@ == old(self)@,
            final(self).focus_pos() == spec_rotate_previous(
                old(self).focus_pos(),
                old(self)@.len() as int,
            ),
    {
        if self.before.is_empty() {
            core::mem::swap(&mut self.after, &mut self.before);
            proof {
                assert(self@ =~= old(self)@);
            }
        }
        let popped = self.before.pop();
        match popped {
            Some(moved) => {
                self.after.insert(0, moved);
                proof {
                    assert(self@ =~= old(self)@);
                }
            },
            None => {
                proof {
                    assert(self@ =~= old(self)@);
                }
            },
        }
    }

    /// Removes the first element, in overall order, for which `pred` answers
    /// true; answers `None`, changing nothing, when no element matches.
    pub fn remove<F: Fn(&T) -> bool>(&mut self, pred: F) -> (r: Option<T>)
        requires
            old(self).wf(),
            forall|i: int|
                0 <= i < old(self)@.len() ==> call_requires(pred, (&old(self)@[i],)),
        ensures
            final(self).wf(),
            match r {
                Some(v) => exists|i: int|
                    {
                        &&& 0 <= i < old(self)@.len()
                        &&& #[trigger] call_ensures(pred, (&old(self)@[i],), true)
                        &&& forall|j: int|
                            0 <= j < i ==> call_ensures(pred, (&old(self)@[j],), false)
                        &&& v == old(self)@[i]
                        &&& final(self)@ == old(self)@.remove(i)
                        &&& final(self).focus_pos() == spec_remove_at_fp(
                            old(self).focus_pos(),
                            old(self)@.len() as int,
                            i,
                        )
                    },
                None => {
                    &&& final(self)@ == old(self)@
                    &&& final(self).focus_pos() == old(self).focus_pos()
                    &&& forall|j: int|
                        0 <= j < old(self)@.len() ==> call_ensures(pred, (&old(self)@[j],), false)
                },
            },
    {
        let n = self.stack_len();
        let mut j: usize = 0;
        while j < n
            invariant
                *self == *old(self),
                self.wf(),
                n == self@.len(),
                j <= n,
                forall|i: int| 0 <= i < self@.len() ==> call_requires(pred, (&self@[i],)),
                forall|k: int| 0 <= k < j ==> call_ensures(pred, (&self@[k],), false),
            decreases n - j,
        {
            let matched = pred(self.get(j));
            if matched {
                let removed = self.remove_at(j);
                return Some(removed);
            }
            j += 1;
        }
        None
    }

    /// Re-focuses the stack on the first element, in overall order, for which
    /// `pred` answers true; answers false, changing nothing, when no element
    /// matches.
    pub fn focus<F: Fn(&T) -> bool>(&mut self, pred: F) -> (found: bool)
        requires
            old(self).wf(),
            forall|i: int|
                0 <= i < old(self)@.len() ==> call_requires(pred, (&old(self)@[i],)),
        ensures
            final(self).wf(),
            final(self)@ == old(self)@,
            if found {
                exists|i: int|
                    {
                        &&& 0 <= i < old(self)@.len()
                        &&& #[trigger] call_ensures(pred, (&old(self)@[i],), true)
                        &&& forall|j: int|
                            0 <= j < i ==> call_ensures(pred, (&old(self)@[j],), false)
                        &&& final(self).focus_pos() == i
                    }
            } else {
                &&& final(self).focus_pos() == old(self).focus_pos()
                &&& forall|j: int|
                    0 <= j < old(self)@.len() ==> call_ensures(pred, (&old(self)@[j],), false)
            },
    {
        let n = self.stack_len();
        let mut j: usize = 0;
        while j < n
            invariant
                *self == *old(self),
                self.wf(),
                n == self@.len(),
                j <= n,
                forall|i: int| 0 <= i < self@.len() ==> call_requires(pred, (&self@[i],)),
                forall|k: int| 0 <= k < j ==> call_ensures(pred, (&self@[k],), false),
            decreases n - j,
        {
            let matched = pred(self.get(j));
            if matched {
                self.focus_at(j);
                return true;
            }
            j += 1;
        }
        false
    }

    /// All elements in overall order: the `before` run, then the focused run.
    /// Every element of the stack appears exactly once, at its own position.
    pub fn iter(&self) -> (r: Vec<&T>)
        requires
            self.wf(),
        ensures
            r@.len() == self@.len(),
            forall|i: int| 0 <= i < self@.len() ==> *r@[i] == self@[i],
    {
        let n = self.stack_len();
        let mut r: Vec<&T> = Vec::new();
        let mut j: usize = 0;
        while j < n
            invariant
                self.wf(),
                n == self@.len(),
                j <= n,
                r@.len() == j,
                forall|i: int| 0 <= i < j ==> *r@[i] == self@[i],
            decreases n - j,
        {
            r.push(self.get(j));
            j += 1;
        }
        r
    }
}

/// A non-empty, well-formed stack reports exactly one focused element: the
/// one at `focus_pos`, which always lies strictly inside the stack.
pub proof fn lemma_nonempty_has_unique_focus<T>(s: Stack<T>)
    requires
        s.wf(),
        s@.len() > 0,
    ensures
        0 <= s.focus_pos() < s@.len(),
{
}

/// Pushing `x` and then removing the focused element yields `x` back and
/// restores the remaining elements, whatever the stack held before.
pub proof fn lemma_push_then_remove_focused<T>(v: Seq<T>, x: T)
    ensures
        v.push(x)[v.len() as int] == x,
        v.push(x).remove(v.len() as int) == v,
{
    assert(v.push(x).remove(v.len() as int) =~= v);
}

/// Rotating the focus forward `n` times on a stack of `n` elements returns
/// the focus to where it started: the full-rotation wraparound law.
pub proof fn lemma_full_rotation(fp: int, len: int)
    requires
        0 <= fp < len,
    ensures
        spec_rotate_n(fp, len, len as nat) == fp,
{
    if len < 2 {
        assert(spec_rotate_n(fp, len, 1) == fp) by {
            reveal_with_fuel(spec_rotate_n, 2);
        }
    } else {
        lemma_rotate_n_adds(fp, len, len as nat);
        assert((fp + len) % len == fp) by {
            vstd::arithmetic::div_mod::lemma_mod_add_multiples_vanish(fp, len);
            vstd::arithmetic::div_mod::lemma_small_mod(fp as nat, len as nat);
        }
    }
}

/// Each forward rotation advances the focus index by one, modulo the length.
proof fn lemma_rotate_n_adds(fp: int, len: int, n: nat)
    requires
        0 <= fp < len,
        len >= 2,
    ensures
        spec_rotate_n(fp, len, n) == (fp + n) % len,
    decreases n,
{
    if n == 0 {
        vstd::arithmetic::div_mod::lemma_small_mod(fp as nat, len as nat);
    } else {
        lemma_rotate_n_adds(fp, len, (n - 1) as nat);
        assert(((fp + (n - 1)) % len + 1) % len == (fp + n) % len) by {
            vstd::arithmetic::div_mod::lemma_mod_bound(fp + n - 1, len);
            vstd::arithmetic::div_mod::lemma_mod_twice(fp + n - 1, len);
            vstd::arithmetic::div_mod::lemma_add_mod_noop(fp + n - 1, 1, len);
            vstd::arithmetic::div_mod::lemma_small_mod(1nat, len as nat);
        }
    }
}

} // verus!
