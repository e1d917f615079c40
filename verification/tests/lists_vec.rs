use linear_containers::lists::{IndexError, RawVec, Vec};
use std::cell::Cell;
use std::rc::Rc;

#[test]
fn vec_push_works() {
    let mut list = Vec::new();
    list.push(1);
    list.push(2);
    list.push(3);

    assert_eq!(list[0], 1);
    assert_eq!(list[1], 2);
    assert_eq!(list[2], 3);
}

#[test]
fn pop_returns_none_for_empty_vec() {
    let mut list: Vec<i32> = Vec::new();

    assert_eq!(list.pop(), None);
}

#[test]
fn vec_pop_works() {
    let mut list = Vec::new();
    list.push(1);
    list.push(2);
    list.push(3);

    assert_eq!(list.pop(), Some(3));
    assert_eq!(list.pop(), Some(2));
    assert_eq!(list.pop(), Some(1));
}

#[test]
fn vec_insert_works() {
    let mut list = Vec::new();
    list.push(1);
    list.push(2);
    list.push(3);

    list.insert(1, 4);

    assert_eq!(list[0], 1);
    assert_eq!(list[1], 4);
    assert_eq!(list[2], 2);
    assert_eq!(list[3], 3);
}

#[test]
fn delete_works() {
    let mut list = Vec::new();
    list.push(1);
    list.push(2);
    list.push(3);

    list.remove(1);

    assert_eq!(list[0], 1);
    assert_eq!(list[1], 3);
}

#[test]
fn vec_new_is_empty() {
    let mut list: Vec<i32> = Vec::new();

    assert_eq!(list.len(), 0);
    assert!(list.is_empty());
    assert_eq!(list.cap(), 0);
    assert_eq!(list.pop(), None);
    assert_eq!(list.collect(), vec![]);
}

#[test]
fn vec_insert_at_both_ends_and_between() {
    let mut list = Vec::new();
    list.push(1);
    list.push(1);
    list.push(1);
    list.push(1);
    list.push(1);
    list.insert(0, 1);
    assert_eq!(list.collect(), vec![1, 1, 1, 1, 1, 1]);
    list.insert(6, 2);
    assert_eq!(list.collect(), vec![1, 1, 1, 1, 1, 1, 2]);
    list.insert(2, 2);
    assert_eq!(list.collect(), vec![1, 1, 2, 1, 1, 1, 1, 2]);
    list.insert(6, 3);
    assert_eq!(list.collect(), vec![1, 1, 2, 1, 1, 1, 3, 1, 2]);
    assert_eq!(list.len(), 9);
}

#[test]
fn vec_remove_hands_out_the_element_and_closes_the_gap() {
    let mut list = Vec::new();
    for value in [10, 20, 30, 40, 50] {
        list.push(value);
    }

    assert_eq!(list.remove(0), 10);
    assert_eq!(list.collect(), vec![20, 30, 40, 50]);
    assert_eq!(list.remove(3), 50);
    assert_eq!(list.collect(), vec![20, 30, 40]);
    assert_eq!(list.remove(1), 30);
    assert_eq!(list.collect(), vec![20, 40]);
    assert_eq!(list.len(), 2);
}

#[test]
fn vec_push_keeps_order() {
    let values = vec![7, 3, 9, 3, 1, 8];
    let mut list = Vec::new();
    for value in values.iter() {
        list.push(*value);
    }

    assert_eq!(list.collect(), values);
}

#[test]
fn vec_len_counts_the_elements() {
    let mut list = Vec::new();
    assert_eq!(list.len(), 0);
    assert!(list.is_empty());
    list.push(1);
    list.insert(0, 2);
    assert_eq!(list.len(), 2);
    assert!(!list.is_empty());
    list.remove(1);
    assert_eq!(list.len(), 1);
    list.pop();
    assert_eq!(list.len(), 0);
    assert!(list.is_empty());
    list.pop();
    assert_eq!(list.len(), 0);
}

#[test]
fn vec_pop_then_push_restores() {
    let mut list = Vec::new();
    list.push(4);
    list.push(5);
    list.push(6);
    let before = list.collect();

    let last = list.pop();
    assert_eq!(last, Some(6));
    list.push(6);

    assert_eq!(list.collect(), before);
}

#[test]
fn vec_capacity_doubles() {
    let mut list = Vec::new();
    let mut seen = vec![list.cap()];
    for value in 0..9 {
        list.push(value);
        seen.push(list.cap());
    }

    assert_eq!(seen, vec![0, 1, 2, 4, 4, 8, 8, 8, 8, 16]);
}

#[test]
fn vec_capacity_stays_when_elements_leave() {
    let mut list = Vec::new();
    for value in 0..5 {
        list.push(value);
    }
    assert_eq!(list.cap(), 8);
    list.pop();
    list.remove(0);
    assert_eq!(list.cap(), 8);
    list.insert(1, 7);
    assert_eq!(list.cap(), 8);
}

#[test]
fn vec_of_zero_sized_elements_needs_no_growth() {
    let mut list: Vec<()> = Vec::new();
    assert_eq!(list.cap(), usize::MAX);
    for _ in 0..100 {
        list.push(());
    }
    list.insert(50, ());

    assert_eq!(list.len(), 101);
    assert_eq!(list.cap(), usize::MAX);
    assert_eq!(list.remove(7), ());
    assert_eq!(list.pop(), Some(()));
    assert_eq!(list.len(), 99);
}

#[test]
fn vec_get_mut_writes_in_place() {
    let mut list = Vec::new();
    list.push(1);
    list.push(2);
    list.push(3);

    *list.get_mut(1) = 20;

    assert_eq!(*list.get(1), 20);
    assert_eq!(list.collect(), vec![1, 20, 3]);
}

#[test]
fn vec_clear_gives_the_storage_back() {
    let mut list = Vec::new();
    for value in 0..5 {
        list.push(value);
    }

    list.clear();

    assert_eq!(list.len(), 0);
    assert_eq!(list.cap(), 0);
    list.push(9);
    assert_eq!(list.collect(), vec![9]);
}

struct Counted {
    drops: Rc<Cell<usize>>,
}

impl Drop for Counted {
    fn drop(&mut self) {
        self.drops.set(self.drops.get() + 1);
    }
}

#[test]
fn vec_drops_each_element_once() {
    let drops = Rc::new(Cell::new(0));
    let make = || Counted { drops: drops.clone() };
    let mut made = 0;
    {
        let mut list = Vec::new();
        for _ in 0..10 {
            list.push(make());
            made += 1;
        }
        list.insert(3, make());
        made += 1;
        list.insert(0, make());
        made += 1;

        let popped = list.pop();
        assert!(popped.is_some());
        assert_eq!(drops.get(), 0);
        drop(popped);
        assert_eq!(drops.get(), 1);

        let removed = list.remove(4);
        drop(removed);
        assert_eq!(drops.get(), 2);

        assert_eq!(list.len(), 10);
    }

    assert_eq!(made, 12);
    assert_eq!(drops.get(), made);
}

#[test]
fn vec_clear_drops_each_element_once() {
    let drops = Rc::new(Cell::new(0));
    let mut list = Vec::new();
    for _ in 0..6 {
        list.push(Counted { drops: drops.clone() });
    }

    list.clear();
    assert_eq!(drops.get(), 6);
    drop(list);
    assert_eq!(drops.get(), 6);
}

#[test]
fn raw_vec_starts_without_slots() {
    let buffer: RawVec<u64> = RawVec::new();
    assert_eq!(buffer.cap(), 0);

    let unit: RawVec<()> = RawVec::new();
    assert_eq!(unit.cap(), usize::MAX);
}

#[test]
fn raw_vec_grow_doubles_and_keeps_the_slots() {
    let mut buffer: RawVec<u64> = RawVec::new();
    buffer.grow();
    assert_eq!(buffer.cap(), 1);
    buffer.write(0, 11);
    buffer.grow();
    assert_eq!(buffer.cap(), 2);
    buffer.write(1, 22);
    buffer.grow();
    assert_eq!(buffer.cap(), 4);

    assert_eq!(*buffer.get(0), 11);
    assert_eq!(*buffer.get(1), 22);
}

#[test]
fn raw_vec_read_empties_the_slot() {
    let mut buffer: RawVec<String> = RawVec::new();
    buffer.grow();
    buffer.grow();
    buffer.write(1, String::from("one"));

    assert_eq!(buffer.read(1), "one");
    buffer.write(1, String::from("two"));
    buffer.get_mut(1).push_str("!");
    assert_eq!(buffer.read(1), "two!");
}

#[test]
fn raw_vec_release_gives_the_slots_back() {
    let mut buffer: RawVec<u8> = RawVec::new();
    buffer.grow();
    buffer.grow();
    buffer.grow();
    assert_eq!(buffer.cap(), 4);

    buffer.release();
    assert_eq!(buffer.cap(), 0);
    buffer.grow();
    assert_eq!(buffer.cap(), 1);
}

#[test]
fn vec_try_insert_refuses_a_place_behind_the_end() {
    let mut list = Vec::new();
    list.push(1);
    list.push(2);
    list.push(3);

    assert_eq!(list.try_insert(4, 5), Err(IndexError { index: 4, len: 3 }));
    assert_eq!(list.try_insert(usize::MAX, 5), Err(IndexError { index: usize::MAX, len: 3 }));
    assert_eq!(list.collect(), vec![1, 2, 3]);

    assert_eq!(list.try_insert(3, 4), Ok(()));
    assert_eq!(list.try_insert(0, 0), Ok(()));
    assert_eq!(list.collect(), vec![0, 1, 2, 3, 4]);
    assert_eq!(list.len(), 5);
}

#[test]
fn vec_try_remove_refuses_a_place_without_a_value() {
    let mut list = Vec::new();
    assert_eq!(list.try_remove(0), Err(IndexError { index: 0, len: 0 }));
    list.push(1);
    list.push(2);
    list.push(3);

    assert_eq!(list.try_remove(4), Err(IndexError { index: 4, len: 3 }));
    assert_eq!(list.try_remove(3), Err(IndexError { index: 3, len: 3 }));
    assert_eq!(list.collect(), vec![1, 2, 3]);

    assert_eq!(list.try_remove(2), Ok(3));
    assert_eq!(list.try_remove(0), Ok(1));
    assert_eq!(list.collect(), vec![2]);
}

#[test]
fn vec_try_get_refuses_a_place_without_a_value() {
    let mut list = Vec::new();
    assert_eq!(list.try_get(0), Err(IndexError { index: 0, len: 0 }));
    list.push(1);
    list.push(2);
    list.push(3);

    assert_eq!(list.try_get(4), Err(IndexError { index: 4, len: 3 }));
    assert_eq!(list.try_get(3), Err(IndexError { index: 3, len: 3 }));
    assert_eq!(list.try_get(2), Ok(&3));
    assert_eq!(list.try_get(0), Ok(&1));
}

#[test]
fn vec_can_push_while_the_buffer_may_grow() {
    let mut list = Vec::new();
    assert!(list.can_push());
    for value in 0..5 {
        list.push(value);
        assert!(list.can_push());
    }
}

#[test]
fn raw_vec_can_grow_within_the_byte_limit() {
    let mut buffer: RawVec<u64> = RawVec::new();
    assert!(buffer.can_grow());
    buffer.grow();
    assert!(buffer.can_grow());

    let unit: RawVec<()> = RawVec::new();
    assert!(!unit.can_grow());
}

#[test]
fn vec_of_zero_sized_elements_has_room_without_growing() {
    let mut list: Vec<()> = Vec::new();
    assert!(list.can_push());
    list.push(());
    assert!(list.can_push());
}
