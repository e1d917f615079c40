use linear_containers::lists::{IndexError, DoublyLinkedList};

fn spaced(values: &[i32]) -> String {
    let shown: Vec<String> = values.iter().map(|value| value.to_string()).collect();
    shown.join(" ")
}

#[test]
fn doubly_linked_list_push_front_works() {
    let mut list = DoublyLinkedList::new();
    list.push_front(1);
    list.push_front(2);
    list.push_front(3);
    println!("list: {}", spaced(&list.collect()));

    let vec = list.collect();
    assert_eq!(vec, vec![3, 2, 1]);
    assert_eq!(list.len(), 3);
}

#[test]
fn doubly_linked_list_push_back_works() {
    let mut list = DoublyLinkedList::new();
    list.push_back(1);
    list.push_back(2);
    list.push_back(3);
    println!("list: {}", spaced(&list.collect()));

    let vec = list.collect();
    assert_eq!(vec, vec![1, 2, 3]);
    assert_eq!(list.len(), 3);
}

#[test]
fn doubly_linked_list_insert_works() {
    let mut list = DoublyLinkedList::new();
    list.push_back(1);
    list.push_back(1);
    list.push_back(1);
    list.push_back(1);
    list.push_back(1);
    list.insert(0, 1);
    list.insert(6, 2);
    list.insert(2, 2);
    list.insert(6, 3);

    println!("list: {}", spaced(&list.collect()));

    let vec = list.collect();
    assert_eq!(vec, vec![1, 1, 2, 1, 1, 1, 3, 1, 2]);
    assert_eq!(list.len(), 9);
}

#[test]
fn doubly_linked_list_pop_front_returns_none_for_empty_list() {
    let mut list: DoublyLinkedList<i32> = DoublyLinkedList::new();
    println!("list: {}", spaced(&list.collect()));

    assert_eq!(list.pop_front(), None);
    assert_eq!(list.len(), 0);
}

#[test]
fn doubly_linked_list_pop_front_works() {
    let mut list = DoublyLinkedList::new();
    list.push_front(1);
    list.push_front(2);
    list.push_front(3);
    println!("list: {}", spaced(&list.collect()));

    match list.pop_front() {
        Some(val) => assert_eq!(val, 3),
        None => panic!("Expected to find {}", 3),
    }

    let vec = list.collect();
    assert_eq!(vec, vec![2, 1]);
    assert_eq!(list.len(), 2);
}

#[test]
fn doubly_linked_list_pop_back_returns_none_for_empty_list() {
    let mut list: DoublyLinkedList<i32> = DoublyLinkedList::new();
    println!("list: {}", spaced(&list.collect()));

    assert_eq!(list.pop_back(), None);
    assert_eq!(list.len(), 0);
}

#[test]
fn doubly_linked_list_pop_back_works() {
    let mut list = DoublyLinkedList::new();
    list.push_back(1);
    list.push_back(2);
    list.push_back(3);
    println!("list: {}", spaced(&list.collect()));

    match list.pop_back() {
        Some(val) => assert_eq!(val, 3),
        None => panic!("Expected to find {}", 3),
    }

    let vec = list.collect();
    assert_eq!(vec, vec![1, 2]);

    match list.pop_back() {
        Some(val) => assert_eq!(val, 2),
        None => panic!("Expected to find {}", 2),
    }

    match list.pop_back() {
        Some(val) => assert_eq!(val, 1),
        None => panic!("Expected to find {}", 1),
    }

    assert_eq!(list.len(), 0);
}

#[test]
fn doubly_linked_list_remove_works() {
    let mut list = DoublyLinkedList::new();
    list.insert(0, 1);
    list.insert(1, 3);
    list.insert(1, 2);
    list.insert(3, 4);
    list.insert(4, 5);

    match list.remove(0) {
        Some(val) => assert_eq!(val, 1),
        None => panic!("Expected to find {}", 1),
    }

    match list.remove(3) {
        Some(val) => assert_eq!(val, 5),
        None => panic!("Expected to find {}", 5),
    }

    println!("list: {}", spaced(&list.collect()));

    match list.remove(1) {
        Some(val) => assert_eq!(val, 3),
        None => panic!("Expected to find {}", 3),
    }

    let vec = list.collect();
    assert_eq!(vec, vec![2, 4]);
    assert_eq!(list.len(), 2);
}

#[test]
fn doubly_linked_list_get_works() {
    let mut list = DoublyLinkedList::new();
    list.push_back(1);
    list.push_back(2);
    list.push_back(3);

    match list.get(1) {
        Some(val) => assert_eq!(*val, 2),
        None => panic!("Expected to find {}", 2),
    }

    let vec = list.collect();
    assert_eq!(vec, vec![1, 2, 3])
}

#[test]
fn doubly_linked_list_contains_works() {
    let mut list = DoublyLinkedList::new();
    list.push_back(1);
    list.push_back(2);
    list.push_back(3);

    assert!(list.contains(2));
    assert!(!list.contains(5));

    let vec = list.collect();
    assert_eq!(vec, vec![1, 2, 3])
}

#[test]
fn doubly_linked_list_new_is_empty() {
    let mut list: DoublyLinkedList<i32> = DoublyLinkedList::new();

    assert_eq!(list.len(), 0);
    assert!(list.is_empty());
    assert_eq!(list.pop_front(), None);
    assert_eq!(list.pop_back(), None);
    assert_eq!(list.len(), 0);
    assert!(!list.contains(0));
    assert_eq!(list.collect(), vec![]);
}

#[test]
fn doubly_linked_list_push_back_keeps_order() {
    let values = vec![7, 3, 9, 3, 1, 8];
    let mut list = DoublyLinkedList::new();
    for value in values.iter() {
        list.push_back(*value);
    }

    assert_eq!(list.collect(), values);
}

#[test]
fn doubly_linked_list_push_front_turns_order() {
    let values = vec![7, 3, 9, 3, 1, 8];
    let mut list = DoublyLinkedList::new();
    for value in values.iter() {
        list.push_front(*value);
    }

    assert_eq!(list.collect(), vec![8, 1, 3, 9, 3, 7]);
}

#[test]
fn doubly_linked_list_len_counts_the_values() {
    let mut list = DoublyLinkedList::new();
    assert_eq!(list.len(), 0);
    assert!(list.is_empty());
    list.push_back(1);
    list.push_front(2);
    list.insert(1, 3);
    assert_eq!(list.len(), 3);
    assert!(!list.is_empty());
    list.remove(1);
    assert_eq!(list.len(), 2);
    list.pop_front();
    list.pop_back();
    assert_eq!(list.len(), 0);
    assert!(list.is_empty());
    list.pop_back();
    list.pop_front();
    assert_eq!(list.len(), 0);
    assert!(list.is_empty());
}

#[test]
fn doubly_linked_list_pop_back_then_push_back_restores() {
    let mut list = DoublyLinkedList::new();
    list.push_back(4);
    list.push_back(5);
    list.push_back(6);
    let before = list.collect();

    let last = list.pop_back();
    assert_eq!(last, Some(6));
    list.push_back(6);

    assert_eq!(list.collect(), before);
    assert_eq!(list.len(), 3);
}

#[test]
fn doubly_linked_list_insert_at_both_ends_and_between() {
    let mut list = DoublyLinkedList::new();
    list.push_back(1);
    list.push_back(1);
    list.push_back(1);
    list.push_back(1);
    list.push_back(1);
    list.insert(0, 1);
    assert_eq!(list.collect(), vec![1, 1, 1, 1, 1, 1]);
    list.insert(6, 2);
    assert_eq!(list.collect(), vec![1, 1, 1, 1, 1, 1, 2]);
    list.insert(2, 2);
    assert_eq!(list.collect(), vec![1, 1, 2, 1, 1, 1, 1, 2]);
    list.insert(6, 3);
    assert_eq!(list.collect(), vec![1, 1, 2, 1, 1, 1, 3, 1, 2]);
    assert_eq!(list.len(), 9);
}

#[test]
fn doubly_linked_list_get_reaches_every_place() {
    let mut list = DoublyLinkedList::new();
    for value in 0..9 {
        list.push_back(value * 10);
    }

    for index in 0..9 {
        assert_eq!(list.get(index), Some(&((index as i32) * 10)));
    }
}

#[test]
fn doubly_linked_list_remove_reaches_every_place() {
    for index in 0..7 {
        let mut list = DoublyLinkedList::new();
        let mut expected = vec![];
        for value in 0..7 {
            list.push_back(value);
            expected.push(value);
        }

        assert_eq!(list.remove(index), Some(index as i32));
        expected.remove(index);

        assert_eq!(list.collect(), expected);
        assert_eq!(list.len(), 6);
    }
}

#[test]
fn doubly_linked_list_insert_reaches_every_place() {
    for index in 0..8 {
        let mut list = DoublyLinkedList::new();
        let mut expected = vec![];
        for value in 0..7 {
            list.push_back(value);
            expected.push(value);
        }

        list.insert(index, 99);
        expected.insert(index, 99);

        assert_eq!(list.collect(), expected);
        assert_eq!(list.len(), 8);
    }
}

#[test]
fn doubly_linked_list_single_value_leaves_an_empty_list() {
    let mut list = DoublyLinkedList::new();
    list.push_back(1);
    assert_eq!(list.pop_back(), Some(1));
    assert!(list.is_empty());
    list.push_front(2);
    assert_eq!(list.pop_front(), Some(2));
    assert!(list.is_empty());
    list.insert(0, 3);
    assert_eq!(list.remove(0), Some(3));
    assert!(list.is_empty());
    list.push_back(4);
    assert_eq!(list.collect(), vec![4]);
}

#[test]
fn doubly_linked_list_clear_leaves_an_empty_list() {
    let mut list = DoublyLinkedList::new();
    for value in 0..5 {
        list.push_back(value);
    }

    list.clear();

    assert_eq!(list.len(), 0);
    assert_eq!(list.collect(), vec![]);
    list.push_back(9);
    assert_eq!(list.collect(), vec![9]);
}

#[test]
fn doubly_linked_list_takes_freed_slots_again() {
    let mut list = DoublyLinkedList::new();
    for value in 0..6 {
        list.push_back(value);
    }
    assert_eq!(list.slots(), 6);
    assert_eq!(list.free_slots(), 0);

    list.remove(2);
    list.pop_front();
    list.pop_back();
    assert_eq!(list.slots(), 6);
    assert_eq!(list.free_slots(), 3);

    list.push_front(10);
    list.insert(1, 11);
    assert_eq!(list.slots(), 6);
    assert_eq!(list.free_slots(), 1);
    list.push_back(12);
    list.push_back(13);
    assert_eq!(list.slots(), 7);
    assert_eq!(list.free_slots(), 0);

    assert_eq!(list.collect(), vec![10, 11, 1, 3, 4, 12, 13]);
}

#[test]
fn doubly_linked_list_accounts_for_every_slot() {
    let mut list = DoublyLinkedList::new();
    let mut step = 0;
    while step < 40 {
        if step % 3 == 2 {
            list.pop_front();
        } else if step % 7 == 5 && !list.is_empty() {
            list.remove(list.len() / 2);
        } else if step % 5 == 1 {
            list.insert(list.len() / 2, step);
        } else {
            list.push_back(step);
        }
        assert_eq!(list.slots(), list.len() + list.free_slots());
        step += 1;
    }

    let slots = list.slots();
    list.clear();
    assert_eq!(list.len(), 0);
    assert_eq!(list.slots(), slots);
    assert_eq!(list.free_slots(), slots);
}

#[test]
fn doubly_linked_list_try_insert_refuses_a_place_behind_the_end() {
    let mut list = DoublyLinkedList::new();
    list.push_back(1);
    list.push_back(2);
    list.push_back(3);

    assert_eq!(list.try_insert(4, 5), Err(IndexError { index: 4, len: 3 }));
    assert_eq!(list.try_insert(usize::MAX, 5), Err(IndexError { index: usize::MAX, len: 3 }));
    assert_eq!(list.collect(), vec![1, 2, 3]);

    assert_eq!(list.try_insert(3, 4), Ok(()));
    assert_eq!(list.try_insert(0, 0), Ok(()));
    assert_eq!(list.collect(), vec![0, 1, 2, 3, 4]);
    assert_eq!(list.len(), 5);
}

#[test]
fn doubly_linked_list_try_remove_refuses_a_place_without_a_value() {
    let mut list = DoublyLinkedList::new();
    assert_eq!(list.try_remove(0), Err(IndexError { index: 0, len: 0 }));
    list.push_back(1);
    list.push_back(2);
    list.push_back(3);

    assert_eq!(list.try_remove(4), Err(IndexError { index: 4, len: 3 }));
    assert_eq!(list.try_remove(3), Err(IndexError { index: 3, len: 3 }));
    assert_eq!(list.collect(), vec![1, 2, 3]);

    assert_eq!(list.try_remove(2), Ok(3));
    assert_eq!(list.try_remove(0), Ok(1));
    assert_eq!(list.collect(), vec![2]);
}

#[test]
fn doubly_linked_list_try_get_refuses_a_place_without_a_value() {
    let mut list = DoublyLinkedList::new();
    assert_eq!(list.try_get(0), Err(IndexError { index: 0, len: 0 }));
    list.push_back(1);
    list.push_back(2);
    list.push_back(3);

    assert_eq!(list.try_get(4), Err(IndexError { index: 4, len: 3 }));
    assert_eq!(list.try_get(3), Err(IndexError { index: 3, len: 3 }));
    assert_eq!(list.try_get(2), Ok(&3));
    assert_eq!(list.try_get(0), Ok(&1));
}
