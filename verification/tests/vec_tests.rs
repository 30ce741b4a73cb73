use mini_std::vec::MyVec;

#[test]
fn new_vec_is_empty_with_no_capacity() {
    let v: MyVec<i32> = MyVec::new();
    assert_eq!(v.len(), 0);
    assert_eq!(v.cap(), 0);
    assert!(v.is_empty());
}

#[test]
fn push_appends_and_doubles_capacity() {
    let mut v: MyVec<u64> = MyVec::new();
    let mut caps = Vec::new();
    for i in 0..9u64 {
        v.push(i * 10);
        caps.push(v.cap());
    }
    assert_eq!(&v[..], &[0, 10, 20, 30, 40, 50, 60, 70, 80]);
    assert_eq!(caps, vec![1, 2, 4, 4, 8, 8, 8, 8, 16]);
}

#[test]
fn pop_undoes_push() {
    let mut v: MyVec<String> = MyVec::new();
    v.push(String::from("a"));
    v.push(String::from("b"));
    v.push(String::from("c"));
    assert_eq!(v.pop(), Some(String::from("c")));
    assert_eq!(v.len(), 2);
    assert_eq!(v[0], "a");
    assert_eq!(v[1], "b");
    assert_eq!(v.cap(), 4);
}

#[test]
fn pop_on_empty_gives_none() {
    let mut v: MyVec<u8> = MyVec::new();
    assert_eq!(v.pop(), None);
    assert_eq!(v.len(), 0);
    v.push(7);
    assert_eq!(v.pop(), Some(7));
    assert_eq!(v.pop(), None);
}

#[test]
fn insert_shifts_later_values() {
    let mut v: MyVec<i32> = MyVec::new();
    v.push(1);
    v.push(2);
    v.push(3);
    v.insert(1, 9);
    assert_eq!(&v[..], &[1, 9, 2, 3]);
    v.insert(0, 0);
    assert_eq!(&v[..], &[0, 1, 9, 2, 3]);
    v.insert(5, 4);
    assert_eq!(&v[..], &[0, 1, 9, 2, 3, 4]);
    assert_eq!(v.cap(), 8);
}

#[test]
fn insert_into_empty_grows_to_one() {
    let mut v: MyVec<i32> = MyVec::new();
    v.insert(0, 42);
    assert_eq!(&v[..], &[42]);
    assert_eq!(v.cap(), 1);
}

#[test]
fn remove_undoes_insert() {
    let mut v: MyVec<i32> = MyVec::new();
    v.push(1);
    v.push(2);
    v.push(3);
    v.insert(2, 8);
    assert_eq!(v.remove(2), 8);
    assert_eq!(&v[..], &[1, 2, 3]);
}

#[test]
fn remove_first_and_last() {
    let mut v: MyVec<i32> = MyVec::new();
    for i in 1..=4 {
        v.push(i);
    }
    assert_eq!(v.remove(0), 1);
    assert_eq!(v.remove(2), 4);
    assert_eq!(&v[..], &[2, 3]);
    assert_eq!(v.cap(), 4);
}

#[test]
fn slice_writes_show_in_vector() {
    let mut v: MyVec<i32> = MyVec::new();
    v.push(1);
    v.push(2);
    v[1] = 20;
    v.iter_mut().for_each(|x| *x += 1);
    assert_eq!(&v[..], &[2, 21]);
}

#[test]
fn into_iter_gives_values_in_order() {
    let mut v: MyVec<i32> = MyVec::new();
    for i in 1..=3 {
        v.push(i);
    }
    let mut it = v.into_iter();
    assert_eq!(it.next(), Some(1));
    assert_eq!(it.next(), Some(2));
    assert_eq!(it.next(), Some(3));
    assert_eq!(it.next(), None);
}

#[test]
fn into_iter_from_both_ends() {
    let mut v: MyVec<i32> = MyVec::new();
    for i in 1..=5 {
        v.push(i);
    }
    let mut it = v.into_iter();
    assert_eq!(it.next_back(), Some(5));
    assert_eq!(it.next(), Some(1));
    assert_eq!(it.next_back(), Some(4));
    assert_eq!(it.next(), Some(2));
    assert_eq!(it.next_back(), Some(3));
    assert_eq!(it.next(), None);
    assert_eq!(it.next_back(), None);
}

#[test]
fn into_iter_of_empty_vector() {
    let v: MyVec<i32> = MyVec::new();
    let mut it = v.into_iter();
    assert_eq!(it.next(), None);
    assert_eq!(it.next_back(), None);
}

#[test]
fn capacity_after_pushes_is_next_power_of_two() {
    let mut v: MyVec<u32> = MyVec::new();
    for n in 1..=100usize {
        v.push(n as u32);
        assert_eq!(v.cap(), n.next_power_of_two());
        assert!(v.cap() < 2 * n);
    }
}

#[test]
fn writing_through_slice_keeps_length_and_capacity() {
    let mut v: MyVec<i32> = MyVec::new();
    v.push(1);
    v.push(2);
    v.push(3);
    (&mut *v)[1] = 7;
    assert_eq!(&*v, &[1, 7, 3]);
    assert_eq!(v.cap(), 4);
    v.push(4);
    assert_eq!(&*v, &[1, 7, 3, 4]);
}

#[test]
fn draining_then_more_calls_give_none() {
    let mut v: MyVec<i32> = MyVec::new();
    for i in 0..4 {
        v.push(i);
    }
    let mut it = v.into_iter();
    let mut got = Vec::new();
    while let Some(x) = it.next() {
        got.push(x);
    }
    assert_eq!(got, vec![0, 1, 2, 3]);
    assert_eq!(it.next(), None);
    assert_eq!(it.next_back(), None);
}
