use simple_linked_list::SimpleLinkedList;

#[test]
fn pops_come_back_in_reverse_push_order_then_none() {
    let mut list: SimpleLinkedList<u64> = SimpleLinkedList::new();
    for v in [10u64, 20, 30, 40, 50] {
        list.push(v);
    }
    assert_eq!(list.pop(), Some(50));
    assert_eq!(list.pop(), Some(40));
    assert_eq!(list.pop(), Some(30));
    assert_eq!(list.pop(), Some(20));
    assert_eq!(list.pop(), Some(10));
    for _ in 0..3 {
        assert_eq!(list.pop(), None);
        assert_eq!(list.len(), 0);
    }
    list.push(7);
    assert_eq!(list.pop(), Some(7));
}

#[test]
fn length_is_pushes_less_pops() {
    let mut list: SimpleLinkedList<u8> = SimpleLinkedList::new();
    list.push(1);
    list.push(2);
    list.pop();
    list.push(3);
    list.push(4);
    list.pop();
    assert_eq!(list.len(), 2);
    for i in 0..100u8 {
        list.push(i);
    }
    for _ in 0..40 {
        list.pop();
    }
    assert_eq!(list.len(), 62);
}

#[test]
fn is_empty_agrees_with_len() {
    let mut list: SimpleLinkedList<i32> = SimpleLinkedList::new();
    assert_eq!(list.is_empty(), list.len() == 0);
    list.push(-1);
    assert_eq!(list.is_empty(), list.len() == 0);
    assert!(!list.is_empty());
    list.pop();
    assert_eq!(list.is_empty(), list.len() == 0);
    assert!(list.is_empty());
}

#[test]
fn peek_twice_is_stable() {
    let mut list: SimpleLinkedList<String> = SimpleLinkedList::new();
    assert_eq!(list.peek(), None);
    assert_eq!(list.peek(), None);
    list.push(String::from("a"));
    list.push(String::from("b"));
    let first = list.peek().cloned();
    let second = list.peek().cloned();
    assert_eq!(first, Some(String::from("b")));
    assert_eq!(first, second);
    assert_eq!(list.len(), 2);
}

#[test]
fn into_vec_is_head_first() {
    let mut list: SimpleLinkedList<char> = SimpleLinkedList::new();
    for c in ['a', 'b', 'c', 'd'] {
        list.push(c);
    }
    assert_eq!(list.into_vec(), vec!['d', 'c', 'b', 'a']);
}

#[test]
fn into_vec_of_empty_list_is_empty() {
    let list: SimpleLinkedList<u32> = SimpleLinkedList::new();
    assert_eq!(list.into_vec(), Vec::<u32>::new());
}

#[test]
fn rev_reverses_pop_order_and_twice_restores_it() {
    let mut list: SimpleLinkedList<u32> = SimpleLinkedList::new();
    list.push(3);
    list.push(2);
    list.push(1);
    let once = list.rev();
    let mut twice = once.rev();
    assert_eq!(twice.pop(), Some(1));
    assert_eq!(twice.pop(), Some(2));
    assert_eq!(twice.pop(), Some(3));
    assert_eq!(twice.pop(), None);

    let mut list: SimpleLinkedList<u32> = SimpleLinkedList::new();
    list.push(3);
    list.push(2);
    list.push(1);
    assert_eq!(list.rev().into_vec(), vec![3, 2, 1]);
}

#[test]
fn rev_of_empty_and_single() {
    let empty: SimpleLinkedList<u32> = SimpleLinkedList::new();
    let r = empty.rev();
    assert!(r.is_empty());
    let mut one: SimpleLinkedList<u32> = SimpleLinkedList::new();
    one.push(9);
    let mut r = one.rev();
    assert_eq!(r.len(), 1);
    assert_eq!(r.pop(), Some(9));
}

#[test]
fn scenario_push_one_two_three() {
    let mut list: SimpleLinkedList<u32> = SimpleLinkedList::new();
    list.push(1);
    list.push(2);
    list.push(3);
    assert_eq!(list.len(), 3);
    assert_eq!(list.peek(), Some(&3));
    assert_eq!(list.into_vec(), vec![3, 2, 1]);

    let mut list: SimpleLinkedList<u32> = SimpleLinkedList::new();
    list.push(1);
    list.push(2);
    list.push(3);
    assert_eq!(list.rev().into_vec(), vec![1, 2, 3]);
}

#[test]
fn scenario_pop_on_fresh_list() {
    let mut list: SimpleLinkedList<u32> = SimpleLinkedList::new();
    assert_eq!(list.pop(), None);
    assert_eq!(list.len(), 0);
}

#[test]
fn from_vec_pops_last_first_then_none() {
    let mut list = SimpleLinkedList::from_vec(vec!["1", "2", "3", "4"]);
    assert_eq!(list.len(), 4);
    assert_eq!(list.pop(), Some("4"));
    assert_eq!(list.pop(), Some("3"));
    assert_eq!(list.pop(), Some("2"));
    assert_eq!(list.pop(), Some("1"));
    assert_eq!(list.pop(), None);
}

#[test]
fn from_empty_vec_is_empty() {
    let list: SimpleLinkedList<u32> = SimpleLinkedList::from_vec(Vec::new());
    assert!(list.is_empty());
    assert_eq!(list.peek(), None);
}

#[test]
fn absence_is_distinct_from_a_stored_none() {
    let mut list: SimpleLinkedList<Option<u32>> = SimpleLinkedList::new();
    list.push(None);
    assert_eq!(list.peek(), Some(&None));
    assert_eq!(list.pop(), Some(None));
    assert_eq!(list.pop(), None);
}
