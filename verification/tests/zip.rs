use higher_order_functions::Zip;

use std::cell::Cell;
use std::cell::RefCell;

#[test]
fn zip_empty_arrays() {
    let a: Vec<()> = vec![];
    let b: Vec<()> = vec![];
    let arr: Vec<()> = a.zip_with(b, |_: (), _: ()| panic!("Shouldn't call map function"));
    assert_eq!(arr, vec![]);
}

#[test]
fn zip_singleton_arrays() {
    let called = Cell::new(false);
    let arr: Vec<i32> = vec![123].zip_with(vec![456], |a, b| {
        assert_eq!(a, 123);
        assert_eq!(b, 456);
        if called.get() {
            panic!("Should only call zip function once");
        } else {
            called.set(true);
        }
        321
    });
    assert!(called.get());
    assert_eq!(arr, vec![321]);
}

#[test]
fn zip_tuples() {
    let a = vec![1, 2, 3];
    let b = vec!["a", "b", "c"];

    let arr: Vec<(i32, &str)> = a.zip_with(b, |ax, bx| (ax, bx));

    assert_eq!(arr, vec![(1, "a"), (2, "b"), (3, "c")]);
}

#[test]
fn zip_multiply() {
    let a = vec![1, 2, 3];
    let b = vec![4, 5, 6];

    let arr: Vec<i32> = a.zip_with(b, |ax, bx| ax * bx);

    assert_eq!(arr, vec![4, 10, 18]);
}

#[test]
fn zip_combines_in_ascending_order() {
    let seen = RefCell::new(Vec::new());
    let a = vec![1, 2, 3];
    let b = vec![40, 50, 60];
    let arr: Vec<i32> = a.zip_with(b, |ax, bx| {
        seen.borrow_mut().push((ax, bx));
        ax + bx
    });
    assert_eq!(*seen.borrow(), vec![(1, 40), (2, 50), (3, 60)]);
    assert_eq!(arr, vec![41, 52, 63]);
}
