use higher_order_functions::Section;

#[test]
fn empty_array_section() {
    let a: Vec<()> = vec![];

    let arr: Vec<()> = a.section((0, 0));

    assert_eq!(arr, vec![]);
}

#[test]
fn empty_section() {
    let a = vec![1, 2, 3, 4, 5];

    let arr: Vec<i32> = a.section((1, 0));

    assert_eq!(arr, vec![]);
}

#[test]
fn start_section() {
    let a = vec![1, 2, 3, 4, 5];

    let arr: Vec<i32> = a.section((0, 3));

    assert_eq!(arr, vec![1, 2, 3]);
}

#[test]
fn end_section() {
    let a = vec![1, 2, 3, 4, 5];

    let arr: Vec<i32> = a.section((2, 3));

    assert_eq!(arr, vec![3, 4, 5]);
}

#[test]
fn full_section() {
    let a = vec![1, 2, 3, 4, 5];

    let arr: Vec<i32> = a.section((0, 5));

    assert_eq!(arr, vec![1, 2, 3, 4, 5]);
}

#[test]
fn empty_section_at_end() {
    let a = vec![1, 2, 3, 4, 5];

    let arr: Vec<i32> = a.section((5, 0));

    assert_eq!(arr, vec![]);
}

#[test]
fn section_of_eight_example() {
    let a: Vec<u32> = vec![1, 2, 3, 4, 5, 6, 7, 8];

    let arr: Vec<u32> = a.section((3, 4));

    assert_eq!(arr, vec![4, 5, 6, 7]);
}
