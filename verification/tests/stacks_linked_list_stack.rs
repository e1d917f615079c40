use linear_containers::stacks::LinkedListStack;

fn bracketed(values: &[i32]) -> String {
    let shown: Vec<String> = values.iter().map(|value| value.to_string()).collect();
    format!("[{}]", shown.concat())
}

#[test]
fn linked_list_stack_push_works() {
    let mut stack = LinkedListStack::new();
    stack.push(1);
    stack.push(2);
    stack.push(3);
    println!("stack: {}", bracketed(&stack.collect()));

    let vec = stack.collect();
    assert_eq!(vec, vec![1, 2, 3]);
    assert_eq!(stack.len(), 3);
}

#[test]
fn linked_list_stack_pop_returns_none_for_empty_list() {
    let mut stack: LinkedListStack<i32> = LinkedListStack::new();
    println!("stack: {}", bracketed(&stack.collect()));

    assert_eq!(stack.pop(), None);
    assert_eq!(stack.len(), 0);
}

#[test]
fn linked_list_stack_pop_works() {
    let mut stack = LinkedListStack::new();
    stack.push(1);
    stack.push(2);
    stack.push(3);
    println!("stack: {}", bracketed(&stack.collect()));

    match stack.pop() {
        Some(val) => assert_eq!(val, 3),
        None => panic!("Expected to find {}", 3),
    }

    let vec = stack.collect();
    assert_eq!(vec, vec![1, 2]);

    match stack.pop() {
        Some(val) => assert_eq!(val, 2),
        None => panic!("Expected to find {}", 2),
    }

    match stack.pop() {
        Some(val) => assert_eq!(val, 1),
        None => panic!("Expected to find {}", 1),
    }

    assert_eq!(stack.len(), 0);
}

#[test]
fn linked_list_stack_top_is_the_last_pushed() {
    let mut stack = LinkedListStack::new();
    assert_eq!(stack.top(), None);
    assert!(stack.is_empty());
    stack.push(1);
    assert_eq!(stack.top(), Some(&1));
    stack.push(2);
    assert_eq!(stack.top(), Some(&2));
    assert_eq!(stack.len(), 2);
    assert!(!stack.is_empty());
    stack.pop();
    assert_eq!(stack.top(), Some(&1));
    stack.pop();
    assert_eq!(stack.top(), None);
    assert!(stack.is_empty());
}

#[test]
fn linked_list_stack_pop_then_push_restores() {
    let mut stack = LinkedListStack::new();
    stack.push(4);
    stack.push(5);
    let before = stack.collect();

    let top = stack.pop();
    assert_eq!(top, Some(5));
    stack.push(5);

    assert_eq!(stack.collect(), before);
}
