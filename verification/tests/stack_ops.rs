use scene_engine::Stack;

#[test]
fn push_pop_order_is_lifo() {
    let mut s: Stack<u32> = Stack::new();
    assert!(s.empty());
    assert_eq!(s.len(), 0);
    s.push(1);
    s.push(2);
    s.push(3);
    assert_eq!(s.len(), 3);
    assert!(!s.empty());
    assert_eq!(s.pop(), Some(3));
    assert_eq!(s.pop(), Some(2));
    assert_eq!(s.pop(), Some(1));
    assert_eq!(s.pop(), None);
    assert!(s.empty());
}

#[test]
fn peek_does_not_change_depth() {
    let mut s: Stack<u32> = Stack::new();
    assert!(s.peek().is_none());
    s.push(7);
    assert_eq!(s.peek(), Some(&7));
    assert_eq!(s.len(), 1);
}

#[test]
fn peek_mut_edits_top_in_place() {
    let mut s: Stack<u32> = Stack::new();
    s.push(1);
    s.push(2);
    if let Some(top) = s.peek_mut() {
        *top = 9;
    }
    assert_eq!(s.len(), 2);
    assert_eq!(s.pop(), Some(9));
    assert_eq!(s.pop(), Some(1));
}

#[test]
fn replace_on_non_empty_keeps_len_and_returns_old_top() {
    let mut s: Stack<u32> = Stack::new();
    s.push(1);
    s.push(2);
    let evicted = s.replace(5);
    assert_eq!(evicted, Some(2));
    assert_eq!(s.len(), 2);
    assert_eq!(s.pop(), Some(5));
    assert_eq!(s.pop(), Some(1));
}

#[test]
fn replace_on_empty_acts_as_push_and_returns_none() {
    let mut s: Stack<u32> = Stack::new();
    let evicted = s.replace(5);
    assert_eq!(evicted, None);
    assert_eq!(s.len(), 1);
    assert_eq!(s.pop(), Some(5));
}

#[test]
fn pop_on_empty_is_a_no_op() {
    let mut s: Stack<u32> = Stack::new();
    assert_eq!(s.pop(), None);
    assert_eq!(s.len(), 0);
}

#[test]
fn depth_equals_net_count_of_operations() {
    // Pushes minus pops, with a replace on an empty stack counting as a push:
    // push, push, pop, replace (net 0), pop, pop (on empty: net 0), replace
    // on empty (net +1), push.
    let mut s: Stack<u32> = Stack::new();
    s.push(1);
    s.push(2);
    s.pop();
    s.replace(3);
    s.pop();
    s.pop();
    assert_eq!(s.len(), 0);
    s.replace(4);
    s.push(5);
    assert_eq!(s.len(), 2);
}
