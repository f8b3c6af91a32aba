use smarttype::stack::Stack;

#[test]
fn stack_push_pop_peek() {
    let mut stack = Stack::new();
    assert!(stack.is_empty());
    stack.push(1);
    stack.push(2);
    assert_eq!(stack.len(), 2);
    assert_eq!(stack.peek(), Some(&2));
    assert_eq!(stack.pop(), Some(2));
    assert_eq!(stack.pop(), Some(1));
    assert!(stack.pop().is_none());
}

#[test]
fn empty_stack_has_no_top() {
    let stack: Stack<&str> = Stack::new();
    assert_eq!(stack.peek(), None);
    assert_eq!(stack.len(), 0);
}
