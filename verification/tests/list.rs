use linked_list::LinkedList;

fn contents(list: &LinkedList<u64>) -> Vec<u64> {
    let mut out: Vec<u64> = Vec::new();
    let mut i: usize = 0;
    while let Some(v) = list.get(i) {
        out.push(*v);
        i += 1;
    }
    out
}

#[test]
fn new_list_is_empty() {
    let list: LinkedList<u64> = LinkedList::new();
    assert!(list.get(0).is_none());
    assert_eq!(contents(&list), Vec::<u64>::new());
}

#[test]
fn head_insert_order() {
    let values: [u64; 5] = [11, 22, 33, 44, 55];
    let mut list: LinkedList<u64> = LinkedList::new();
    for v in values {
        list.insert(v);
    }
    assert_eq!(list.get(0), Some(&55));
    assert_eq!(list.get(4), Some(&11));
    assert_eq!(contents(&list), vec![55, 44, 33, 22, 11]);
}

#[test]
fn tail_insert_order() {
    let values: [u64; 4] = [10, 20, 30, 40];
    let mut list: LinkedList<u64> = LinkedList::new();
    for v in values {
        list.insert_at_tail(v);
    }
    for (i, v) in values.iter().enumerate() {
        assert_eq!(list.get(i), Some(v));
    }
    assert_eq!(contents(&list), vec![10, 20, 30, 40]);
}

#[test]
fn insert_at_index_then_get() {
    let mut list: LinkedList<u64> = LinkedList::new();
    list.insert_at_tail(1);
    list.insert_at_tail(2);
    list.insert_at_tail(3);
    list.insert_at_index(1, 99);
    assert_eq!(list.get(1), Some(&99));
    assert_eq!(list.get(2), Some(&2));
    assert_eq!(contents(&list), vec![1, 99, 2, 3]);
}

#[test]
fn insert_at_index_zero_prepends() {
    let mut list: LinkedList<u64> = LinkedList::new();
    list.insert_at_tail(5);
    list.insert_at_index(0, 4);
    assert_eq!(contents(&list), vec![4, 5]);
}

#[test]
fn insert_at_index_at_length_appends() {
    let mut list: LinkedList<u64> = LinkedList::new();
    list.insert_at_tail(1);
    list.insert_at_tail(2);
    list.insert_at_index(2, 7);
    assert_eq!(contents(&list), vec![1, 2, 7]);
}

#[test]
fn insert_at_index_out_of_bounds_is_no_op() {
    let mut list: LinkedList<u64> = LinkedList::new();
    list.insert_at_tail(1);
    list.insert_at_tail(2);
    list.insert_at_index(3, 7);
    assert_eq!(contents(&list), vec![1, 2]);
    let mut empty: LinkedList<u64> = LinkedList::new();
    empty.insert_at_index(1, 7);
    assert!(empty.get(0).is_none());
}

#[test]
fn delete_removes_one_and_shifts_left() {
    let mut list: LinkedList<u64> = LinkedList::new();
    for v in [1u64, 2, 3, 4] {
        list.insert_at_tail(v);
    }
    list.delete(1);
    assert_eq!(contents(&list), vec![1, 3, 4]);
    assert_eq!(contents(&list).len(), 3);
}

#[test]
fn delete_head_and_last() {
    let mut list: LinkedList<u64> = LinkedList::new();
    for v in [1u64, 2, 3] {
        list.insert_at_tail(v);
    }
    list.delete(0);
    assert_eq!(contents(&list), vec![2, 3]);
    list.delete(1);
    assert_eq!(contents(&list), vec![2]);
    list.delete(0);
    assert_eq!(contents(&list), Vec::<u64>::new());
}

#[test]
fn delete_out_of_bounds_is_no_op() {
    let mut list: LinkedList<u64> = LinkedList::new();
    list.insert_at_tail(1);
    list.insert_at_tail(2);
    list.delete(2);
    assert_eq!(contents(&list), vec![1, 2]);
    list.delete(100);
    assert_eq!(contents(&list), vec![1, 2]);
    let mut empty: LinkedList<u64> = LinkedList::new();
    empty.delete(0);
    assert!(empty.get(0).is_none());
}

#[test]
fn update_changes_only_that_position() {
    let mut list: LinkedList<u64> = LinkedList::new();
    for v in [1u64, 2, 3] {
        list.insert_at_tail(v);
    }
    list.update(1, 9);
    assert_eq!(contents(&list), vec![1, 9, 3]);
}

#[test]
fn update_out_of_bounds_is_no_op() {
    let mut list: LinkedList<u64> = LinkedList::new();
    list.insert_at_tail(1);
    list.insert_at_tail(2);
    list.update(2, 9);
    assert_eq!(contents(&list), vec![1, 2]);
    list.update(100, 9);
    assert_eq!(contents(&list), vec![1, 2]);
}

#[test]
fn get_out_of_bounds_is_none() {
    let mut list: LinkedList<u64> = LinkedList::new();
    list.insert_at_tail(1);
    list.insert_at_tail(2);
    assert!(list.get(2).is_none());
    assert!(list.get(100).is_none());
    assert_eq!(list.get(1), Some(&2));
}

#[test]
fn end_to_end_scenario() {
    let mut list: LinkedList<u64> = LinkedList::new();
    list.insert(9);
    assert_eq!(contents(&list), vec![9]);
    list.insert(6);
    assert_eq!(contents(&list), vec![6, 9]);
    list.insert(4);
    assert_eq!(contents(&list), vec![4, 6, 9]);
    list.insert_at_tail(4);
    assert_eq!(contents(&list), vec![4, 6, 9, 4]);
    list.insert_at_index(2, 5);
    assert_eq!(contents(&list), vec![4, 6, 5, 9, 4]);
    list.delete(1);
    assert_eq!(contents(&list), vec![4, 5, 9, 4]);
    list.update(1, 6);
    assert_eq!(contents(&list), vec![4, 6, 9, 4]);
    assert_eq!(list.get(2), Some(&9));
}

#[test]
fn holds_generic_values() {
    let mut list: LinkedList<String> = LinkedList::new();
    list.insert_at_tail(String::from("beta"));
    list.insert(String::from("alpha"));
    list.insert_at_tail(String::from("gamma"));
    assert_eq!(list.get(0), Some(&String::from("alpha")));
    assert_eq!(list.get(1), Some(&String::from("beta")));
    assert_eq!(list.get(2), Some(&String::from("gamma")));
    assert!(list.get(3).is_none());
}
