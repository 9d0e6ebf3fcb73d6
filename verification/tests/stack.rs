use volanwm::Stack;

fn stack_of(values: &[u32]) -> Stack<u32> {
    let mut s: Stack<u32> = Stack::new();
    for v in values {
        s.push(*v);
    }
    s
}

#[test]
fn new_stack_is_empty() {
    let s: Stack<u32> = Stack::new();
    assert!(s.is_empty());
    assert_eq!(s.stack_len(), 0);
    assert!(s.focused().is_none());
}

#[test]
fn push_focuses_the_new_element() {
    let mut s = stack_of(&[1, 2]);
    assert_eq!(s.focused(), Some(&2));
    s.push(3);
    assert_eq!(s.focused(), Some(&3));
    assert_eq!(s.stack_len(), 3);
}

#[test]
fn nonempty_stack_has_exactly_one_focused_and_iter_yields_all() {
    // A non-empty stack reports exactly one focused element, and iteration
    // yields every element exactly once.
    let mut s = stack_of(&[10, 20, 30, 40]);
    for _ in 0..4 {
        let items: Vec<u32> = s.iter().into_iter().copied().collect();
        assert_eq!(items.len(), 4);
        let mut sorted = items.clone();
        sorted.sort();
        assert_eq!(sorted, vec![10, 20, 30, 40]);
        let focused = *s.focused().expect("non-empty stack must focus something");
        assert_eq!(items.iter().filter(|w| **w == focused).count(), 1);
        s.focus_next();
    }
}

#[test]
fn push_then_remove_focused_returns_the_pushed_element() {
    // On a stack of any prior size, push(x) then remove_focused() == Some(x).
    for prior in 0..4 {
        let mut s = stack_of(&[100, 200, 300, 400][..prior]);
        s.push(77);
        assert_eq!(s.remove_focused(), Some(77));
        assert_eq!(s.stack_len(), prior);
    }
}

#[test]
fn full_rotation_returns_to_original_focus() {
    // focus_next applied n times (n == stack length) restores the focus.
    let mut s = stack_of(&[1, 2, 3, 4, 5]);
    let before = *s.focused().unwrap();
    for _ in 0..5 {
        s.focus_next();
    }
    assert_eq!(*s.focused().unwrap(), before);
}

#[test]
fn focus_next_and_previous_wrap() {
    let mut s = stack_of(&[1, 2, 3]);
    assert_eq!(s.focused(), Some(&3));
    s.focus_next();
    assert_eq!(s.focused(), Some(&1));
    s.focus_previous();
    assert_eq!(s.focused(), Some(&3));
    s.focus_previous();
    assert_eq!(s.focused(), Some(&2));
}

#[test]
fn focus_rotation_is_noop_on_small_stacks() {
    let mut s = stack_of(&[9]);
    s.focus_next();
    assert_eq!(s.focused(), Some(&9));
    s.focus_previous();
    assert_eq!(s.focused(), Some(&9));
    let mut empty: Stack<u32> = Stack::new();
    empty.focus_next();
    empty.focus_previous();
    assert!(empty.is_empty());
}

#[test]
fn remove_focused_promotes_next_then_wraps() {
    // View is [1, 2, 3] with 3 focused (the last): removal wraps to 2.
    let mut s = stack_of(&[1, 2, 3]);
    assert_eq!(s.remove_focused(), Some(3));
    assert_eq!(s.focused(), Some(&2));
    // Focus 1 (the first), remove it: the next element 2 takes the focus.
    assert!(s.focus(|w: &u32| *w == 1));
    assert_eq!(s.remove_focused(), Some(1));
    assert_eq!(s.focused(), Some(&2));
}

#[test]
fn remove_focused_on_empty_is_none() {
    let mut s: Stack<u32> = Stack::new();
    assert_eq!(s.remove_focused(), None);
}

#[test]
fn remove_by_predicate_removes_first_match_only() {
    let mut s = stack_of(&[5, 6, 7]);
    assert_eq!(s.remove(|w: &u32| *w == 6), Some(6));
    assert_eq!(s.stack_len(), 2);
    assert_eq!(s.remove(|w: &u32| *w == 6), None);
    assert_eq!(s.stack_len(), 2);
}

#[test]
fn focus_by_predicate_finds_and_reports_misses() {
    let mut s = stack_of(&[5, 6, 7]);
    assert!(s.focus(|w: &u32| *w == 5));
    assert_eq!(s.focused(), Some(&5));
    assert!(!s.focus(|w: &u32| *w == 99));
    assert_eq!(s.focused(), Some(&5));
}

#[test]
fn iter_keeps_stable_order() {
    let mut s = stack_of(&[1, 2, 3]);
    let order1: Vec<u32> = s.iter().into_iter().copied().collect();
    s.focus_next();
    let order2: Vec<u32> = s.iter().into_iter().copied().collect();
    assert_eq!(order1, order2);
}

#[test]
fn from_vec_focuses_first() {
    let s: Stack<u32> = Stack::from_vec(vec![8, 9]);
    assert_eq!(s.focused(), Some(&8));
    assert_eq!(s.stack_len(), 2);
}
