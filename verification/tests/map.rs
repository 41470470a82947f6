use higher_order_functions::MapOver;

use std::cell::Cell;
use std::cell::RefCell;
use std::collections::VecDeque;

#[test]
fn map_empty_array() {
    let src: Vec<()> = vec![];
    let arr: Vec<()> = src.map(|_: ()| panic!("Shouldn't call map function"));
    assert_eq!(arr, vec![]);
}

#[test]
fn map_singleton_array() {
    let called = Cell::new(false);
    let arr: Vec<i32> = vec![321].map(|x| {
        assert_eq!(x, 321);
        if called.get() {
            panic!("Should only call map function once");
        } else {
            called.set(true);
        }
        123
    });
    assert!(called.get());
    assert_eq!(arr, vec![123]);
}

#[test]
fn double_array() {
    let arr: Vec<i32> = vec![1, 4, 6, -3, 6].map(|x| x * 2);

    assert_eq!(arr, vec![2, 8, 12, -6, 12]);
}

#[test]
fn cast_array() {
    let arr: Vec<f64> = vec![1, 4, 6, -3, 6].map(f64::from);

    assert_eq!(arr, vec![1.0, 4.0, 6.0, -3.0, 6.0]);
}

#[test]
fn map_2d_array() {
    let src: Vec<Vec<i32>> = vec![vec![1, 2, 3], vec![4, 5, 6]];
    let arr: Vec<Vec<i32>> = src.map(|a| a.map(|x| x * 2));

    assert_eq!(arr, vec![vec![2, 4, 6], vec![8, 10, 12]]);
}

#[test]
fn map_empty_vec() {
    let src: Vec<()> = vec![];
    let vec: Vec<()> = src.map(|_: ()| panic!("Shouldn't call map function"));
    assert_eq!(vec, vec![]);
}

#[test]
fn map_singleton_vec() {
    let called = Cell::new(false);
    let vec: Vec<i32> = vec![321].map(|x| {
        assert_eq!(x, 321);
        if called.get() {
            panic!("Should only call map function once");
        } else {
            called.set(true);
        }
        123
    });
    assert!(called.get());
    assert_eq!(vec, vec![123]);
}

#[test]
fn double_vec() {
    let vec: Vec<i32> = vec![1, 4, 6, -3, 6].map(|x| x * 2);

    assert_eq!(vec, vec![2, 8, 12, -6, 12]);
}

#[test]
fn cast_vec() {
    let vec: Vec<f64> = vec![1, 4, 6, -3, 6].map(f64::from);

    assert_eq!(vec, vec![1.0, 4.0, 6.0, -3.0, 6.0]);
}

#[test]
fn double_vec_deque() {
    let src: VecDeque<i32> = VecDeque::from(vec![1, 4, 6, -3, 6]);

    let deque: VecDeque<i32> = src.map(|x| x * 2);

    assert_eq!(deque, VecDeque::from(vec![2, 8, 12, -6, 12]));
}

#[test]
fn map_applies_in_ascending_order() {
    let seen = RefCell::new(Vec::new());
    let vec: Vec<i32> = vec![7, 8, 9].map(|x| {
        seen.borrow_mut().push(x);
        x + 1
    });
    assert_eq!(*seen.borrow(), vec![7, 8, 9]);
    assert_eq!(vec, vec![8, 9, 10]);
}
