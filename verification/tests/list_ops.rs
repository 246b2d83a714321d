use shape_algebra::list::{
    LAppend, LAssertEqual, LConcat, LIndexOf, LIndexOfMany, LInsertAt, LPrepend, LRemoveAt,
    LRemoveMany, LReverseWithTail, LSetEqual, TList,
};

const A: u64 = 1;
const B: u64 = 2;
const C: u64 = 3;
const D: u64 = 4;
const E: u64 = 5;

#[test]
fn tlist_test() {
    let empty: Vec<u64> = vec![];
    let some: Vec<u64> = vec![A, B, C];
    let another: Vec<u64> = vec![D, E];

    // prepend empty list
    assert!(empty.prepend(A).assert_equal(&vec![A]));

    // append empty list
    assert!(empty.append(D).assert_equal(&vec![D]));

    // prepend non-empty list
    assert!(some.prepend(D).assert_equal(&vec![D, A, B, C]));

    // append non-empty list
    assert!(some.append(D).assert_equal(&vec![A, B, C, D]));

    // insert in middle
    assert!(some.insert_at(D, B).unwrap().assert_equal(&vec![A, B, D, C]));

    // insert at end
    assert!(some.insert_at(D, C).unwrap().assert_equal(&vec![A, B, C, D]));

    // remove
    assert!(some.remove_at(B).unwrap().assert_equal(&vec![A, C]));

    // remove multiple items
    assert!(some.remove_many(&vec![A, C]).unwrap().assert_equal(&vec![B]));

    // remove until empty
    assert!(some.remove_many(&vec![B, A, C]).unwrap().assert_equal(&vec![]));

    // reverse list
    let no_tail: Vec<u64> = vec![];
    assert!(some.reverse_with_tail(&no_tail).assert_equal(&vec![C, B, A]));

    // assert identical set of items
    assert!(some.set_equal(&vec![C, A, B]));

    // concat
    assert!(some.concat(&another).assert_equal(&vec![A, B, C, D, E]));

    // index of item
    assert_eq!(some.index_of(A).unwrap(), 0);
    assert_eq!(some.index_of(B).unwrap(), 1);
    assert_eq!(some.index_of(C).unwrap(), 2);

    // index of multiple items
    assert_eq!(some.indexes_of(&vec![C, A, B]).unwrap(), vec![2, 0, 1]);
    assert_eq!(some.length(), 3);
}

#[test]
fn list_inverse_indexes() {
    let some: Vec<u64> = vec![A, B, C, D];
    assert_eq!(some.inverse_indexes(&vec![C, A]).unwrap(), vec![1, 3]);
    assert_eq!(some.inverse_indexes(&vec![]).unwrap(), vec![0, 1, 2, 3]);
}

#[test]
fn list_reverse_with_tail() {
    let some: Vec<u64> = vec![A, B, C];
    let tail: Vec<u64> = vec![D, E];
    assert!(some.reverse_with_tail(&tail).assert_equal(&vec![C, B, A, D, E]));
}

#[test]
fn list_set_equal_negative() {
    let some: Vec<u64> = vec![A, B, C];
    assert!(!some.set_equal(&vec![A, B]));
    assert!(!some.set_equal(&vec![A, B, B]));
    assert!(!some.assert_equal(&vec![C, B, A]));
}
