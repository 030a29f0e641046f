use workpool::mylinkedlist_v1;
use workpool::mylinkedlist_v2;

#[test]
fn mylinkedlist_v1_basics() {
    let mut list = mylinkedlist_v1::MyLinkedList::new();

    // Check empty list behaves right
    assert_eq!(list.pop(), None);

    // Populate list
    list.push(1);
    list.push(2);
    list.push(3);

    // Check normal removal
    assert_eq!(list.pop(), Some(3));
    assert_eq!(list.pop(), Some(2));

    // Push some more just to make sure nothing's corrupted
    list.push(4);
    list.push(5);

    // Check normal removal
    assert_eq!(list.pop(), Some(5));
    assert_eq!(list.pop(), Some(4));

    // Check exhaustion
    assert_eq!(list.pop(), Some(1));
    assert_eq!(list.pop(), None);
}

#[test]
fn mylinkedlist_v1_long_list() {
    let mut list = mylinkedlist_v1::MyLinkedList::new();

    for i in 0..100000 {
        list.push(i);
    }
    drop(list);
}

#[test]
fn mylinkedlist_v2_basics() {
    let mut list = mylinkedlist_v2::MyLinkedList::new();

    // Check empty list behaves right
    assert_eq!(list.pop(), None);

    // Populate list
    list.push(1);
    list.push(2);
    list.push(3);

    // Check normal removal
    assert_eq!(list.pop(), Some(3));
    assert_eq!(list.pop(), Some(2));

    // Push some more just to make sure nothing's corrupted
    list.push(4);
    list.push(5);

    // Check normal removal
    assert_eq!(list.pop(), Some(5));
    assert_eq!(list.pop(), Some(4));

    // Check exhaustion
    assert_eq!(list.pop(), Some(1));
    assert_eq!(list.pop(), None);
}

#[test]
fn mylinkedlist_v2_long_list() {
    let mut list = mylinkedlist_v2::MyLinkedList::new();

    for i in 0..100000 {
        list.push(i);
    }
    drop(list);
}

#[test]
fn generics_check() {
    let mut list = mylinkedlist_v2::MyLinkedList::new();
    list.push('s');
    list.push('r');
    assert_eq!(list.pop(), Some('r'));
    assert_eq!(list.pop(), Some('s'));
    assert_eq!(list.pop(), None);
}

#[test]
fn peek() {
    let mut list = mylinkedlist_v2::MyLinkedList::new();
    assert_eq!(list.peek(), None);
    assert_eq!(list.peek_mut(), None);
    list.push(1);
    list.push(2);
    list.push(3);

    assert_eq!(list.peek(), Some(&3));
    assert_eq!(list.peek_mut(), Some(&mut 3));
    if let Some(value) = list.peek_mut() {
        *value = 42;
    }
    assert_eq!(list.peek(), Some(&42));
    assert_eq!(list.pop(), Some(42));
}

#[test]
fn into_iter() {
    let mut list = mylinkedlist_v2::MyLinkedList::new();
    list.push(1);
    list.push(2);
    list.push(3);

    let mut iter = list.into_iter();
    assert_eq!(iter.next(), Some(3));
    assert_eq!(iter.next(), Some(2));
    assert_eq!(iter.next(), Some(1));
    assert_eq!(iter.next(), None);
}

#[test]
fn iter() {
    let mut list = mylinkedlist_v2::MyLinkedList::new();
    list.push(1);
    list.push(2);
    list.push(3);

    let mut iter = list.iter();
    assert_eq!(iter.next(), Some(&3));
    assert_eq!(iter.next(), Some(&2));
    assert_eq!(iter.next(), Some(&1));
}
