use stack_vec::{InsertError, IntoIter, NotEnoughSpaceError, StackVec};

fn items<T: Copy, const N: usize>(v: &StackVec<T, N>) -> Vec<T> {
    v.as_slice().into_iter().copied().collect()
}

#[test]
fn pushes_then_pops_come_back_last_in_first_out() {
    let mut vec = StackVec::<u32, 5>::new();
    for (k, x) in [10, 20, 30, 40, 50].into_iter().enumerate() {
        assert_eq!(vec.len(), k);
        vec.push(x);
        assert_eq!(vec.len(), k + 1);
    }
    let mut out = Vec::new();
    while let Some(x) = vec.pop() {
        out.push(x);
    }
    assert_eq!(out, vec![50, 40, 30, 20, 10]);
    assert!(vec.is_empty());
}

#[test]
fn push_on_full_container_fails_and_keeps_it() {
    let mut vec = StackVec::<u8, 2>::from_array([1, 2]).unwrap();
    assert_eq!(vec.try_push(3), Err(NotEnoughSpaceError));
    assert_eq!(items(&vec), vec![1, 2]);
    let mut zero = StackVec::<u8, 0>::new();
    assert_eq!(zero.try_push(1), Err(NotEnoughSpaceError));
    assert_eq!(zero.capacity(), 0);
}

#[test]
fn insert_shifts_the_tail() {
    let mut vec = StackVec::<char, 6>::from_array(['a', 'b', 'c', 'd']).unwrap();
    vec.insert(2, 'x');
    assert_eq!(items(&vec), vec!['a', 'b', 'x', 'c', 'd']);
    vec.insert(5, 'y');
    assert_eq!(items(&vec), vec!['a', 'b', 'x', 'c', 'd', 'y']);
}

#[test]
fn insert_reports_index_before_space() {
    let mut vec = StackVec::<i32, 2>::from_array([1, 2]).unwrap();
    assert_eq!(vec.try_insert(3, 0), Err(InsertError::IndexOutOfRange));
    assert_eq!(vec.try_insert(2, 0), Err(InsertError::NotEnoughSpace));
    assert_eq!(items(&vec), vec![1, 2]);
    let mut empty = StackVec::<i32, 2>::new();
    assert_eq!(empty.try_insert(1, 0), Err(InsertError::IndexOutOfRange));
    assert_eq!(empty.try_insert(0, 7), Ok(()));
    assert_eq!(items(&empty), vec![7]);
}

#[test]
fn remove_undoes_insert() {
    let mut vec = StackVec::<i32, 6>::from_array([5, 6, 7]).unwrap();
    for idx in 0..=3 {
        vec.insert(idx, 100);
        assert_eq!(vec.remove(idx), 100);
        assert_eq!(items(&vec), vec![5, 6, 7]);
    }
}

#[test]
fn truncate_keeps_the_prefix() {
    let mut vec = StackVec::<i32, 5>::from_array([1, 2, 3, 4, 5]).unwrap();
    vec.truncate(5);
    assert_eq!(items(&vec), vec![1, 2, 3, 4, 5]);
    vec.truncate(3);
    assert_eq!(items(&vec), vec![1, 2, 3]);
}

#[test]
fn resize_grow_then_shrink_round_trips() {
    let mut vec = StackVec::<i32, 8>::from_array([1, 2, 3]).unwrap();
    vec.resize(7, 0);
    assert_eq!(items(&vec), vec![1, 2, 3, 0, 0, 0, 0]);
    vec.resize(3, 9);
    assert_eq!(items(&vec), vec![1, 2, 3]);
    vec.resize(3, 9);
    assert_eq!(items(&vec), vec![1, 2, 3]);
}

#[test]
fn extend_with_and_extend_append() {
    let mut vec = StackVec::<i32, 6>::from_array([1]).unwrap();
    vec.extend_with(2, 4);
    assert_eq!(items(&vec), vec![1, 4, 4]);
    vec.extend(vec![7, 8, 9]);
    assert_eq!(items(&vec), vec![1, 4, 4, 7, 8, 9]);
    vec.extend(Vec::new());
    assert_eq!(vec.len(), 6);
}

#[test]
fn constructors_check_the_capacity() {
    assert!(StackVec::<i32, 2>::from_array([1, 2, 3]).is_none());
    assert_eq!(
        items(&StackVec::<i32, 3>::from_array([1, 2, 3]).unwrap()),
        vec![1, 2, 3]
    );
    assert!(StackVec::<i32, 2>::from_value(1, 3).is_none());
    assert_eq!(items(&StackVec::<i32, 4>::from_value(6, 3).unwrap()), vec![6, 6, 6]);
    assert_eq!(StackVec::<i32, 4>::from_value(6, 0).unwrap().len(), 0);
}

#[test]
fn equality_ignores_the_capacity_slack() {
    let a = StackVec::<i32, 5>::from_array([1, 2]).unwrap();
    let mut b = StackVec::<i32, 5>::from_array([1, 2, 3]).unwrap();
    assert_ne!(a, b);
    b.pop();
    assert_eq!(a, b);
    b.pop();
    b.push(3);
    assert_ne!(a, b);
}

#[test]
fn scenario_insert_full_then_remove() {
    let mut vec = StackVec::<i32, 4>::from_array([1, 2, 3]).unwrap();
    vec.insert(1, 9);
    assert_eq!(items(&vec), vec![1, 9, 2, 3]);
    assert_eq!(vec.try_insert(1, 99), Err(InsertError::NotEnoughSpace));
    assert_eq!(vec.remove(0), 1);
    assert_eq!(items(&vec), vec![9, 2, 3]);
}

#[derive(Clone, Copy, Debug, PartialEq)]
struct Unit;

#[test]
fn scenario_full_of_zero_sized_values() {
    let mut vec = StackVec::<Unit, 3>::from_value(Unit, 3).unwrap();
    assert_eq!(vec.len(), 3);
    assert_eq!(vec.try_push(Unit), Err(NotEnoughSpaceError));
    assert_eq!(vec.len(), 3);
}

#[test]
fn iterator_yields_from_both_ends() {
    let vec = StackVec::<i32, 8>::from_array([1, 2, 3, 4, 5]).unwrap();
    let mut iter: IntoIter<i32, 8> = vec.into_iter();
    assert_eq!(iter.len(), 5);
    assert_eq!(iter.size_hint(), (5, Some(5)));
    assert_eq!(iter.next(), Some(1));
    assert_eq!(iter.next_back(), Some(5));
    assert_eq!(iter.next_back(), Some(4));
    assert_eq!(iter.len(), 2);
    assert_eq!(iter.next(), Some(2));
    assert_eq!(iter.next(), Some(3));
    assert_eq!(iter.next(), None);
    assert_eq!(iter.next_back(), None);
    assert_eq!(iter.len(), 0);
}

#[test]
fn writes_through_mutable_view_land_in_the_container() {
    let mut vec = StackVec::<i32, 4>::from_array([1, 2, 3]).unwrap();
    {
        let mut refs = vec.as_mut_slice();
        assert_eq!(refs.len(), 3);
        *refs[0] += 10;
        *refs[2] = 30;
    }
    assert_eq!(items(&vec), vec![11, 2, 30]);
    assert_eq!(vec.len(), 3);
}
