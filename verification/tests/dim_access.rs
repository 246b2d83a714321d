use shape_algebra::access::{DDimAtIndex, DDimAtReverseIndex, DLength};
use shape_algebra::dim::{Axis, Shape};
use shape_algebra::edit::{DAppendFunctor, DPrependFunctor};
use shape_algebra::error::ShapeError;
use shape_algebra::misc::DReverseFunctor;
use shape_algebra::size::Size;

const A: u64 = 1;
const B: u64 = 2;
const C: u64 = 3;
const D: u64 = 4;
const E: u64 = 5;

fn known(name: u64, size: u64) -> Axis {
    Axis { name, size: Size::Known(size) }
}

fn some_dims() -> Shape {
    Shape::from_axes(vec![known(A, 3), known(B, 2), known(C, 4)])
}

#[test]
fn access_dim_test() {
    let some = some_dims();

    // index of name
    assert_eq!(some.index_of(A).unwrap(), 0);
    assert_eq!(some.index_of(B).unwrap(), 1);
    assert_eq!(some.index_of(C).unwrap(), 2);

    // size of specified dimension
    assert_eq!(some.size_at(B).unwrap(), Size::Known(2));

    // indexes of multiple names
    assert_eq!(some.indexes_of(&vec![C, A]).unwrap(), vec![2, 0]);

    // name-size at position
    assert_eq!(some.dim_at(0).unwrap(), known(A, 3));
    assert_eq!(some.dim_at(1).unwrap(), known(B, 2));
    assert_eq!(some.dim_at(2).unwrap(), known(C, 4));

    // name-size at backward position
    assert_eq!(some.dim_at_reverse(1).unwrap(), known(C, 4));
    assert_eq!(some.dim_at_reverse(2).unwrap(), known(B, 2));
    assert_eq!(some.dim_at_reverse(3).unwrap(), known(A, 3));
}

#[test]
fn indexing_dim_test() {
    let empty = Shape::scalar();
    let some = some_dims();
    let another = Shape::from_axes(vec![known(D, 1), known(E, 0)]);
    let the_other = Shape::from_axes(vec![known(A, 3), known(B, 4), known(C, 4)]);

    // index of name
    assert_eq!(some.index_of(A).unwrap(), 0);
    assert_eq!(some.index_of(B).unwrap(), 1);
    assert_eq!(some.index_of(C).unwrap(), 2);

    // size of specified dimension
    assert_eq!(some.size_at(B).unwrap(), Size::Known(2));

    // length of dimension
    assert_eq!(empty.length(), 0);
    assert_eq!(some.length(), 3);
    assert_eq!(another.length(), 2);
    assert_eq!(the_other.length(), 3);

    // indexes of multiple names
    assert_eq!(some.indexes_of(&vec![C, A]).unwrap(), vec![2, 0]);

    // name or size at position
    assert_eq!(some.dim_at(1).unwrap(), known(B, 2));

    // name or size at a position counted on the reversed list
    let reversed = DReverseFunctor::apply(&another);
    assert_eq!(reversed.dim_at(1).unwrap(), known(D, 1));

    // index of multiple names
    assert_eq!(some.indexes_of(&vec![C, A]).unwrap(), vec![2, 0]);
}

#[test]
fn insert_dim_test() {
    let empty = Shape::scalar();
    let some = some_dims();

    // prepend to non-empty dims
    assert_eq!(
        DPrependFunctor::apply(&some, known(D, 5)),
        Shape::from_axes(vec![known(D, 5), known(A, 3), known(B, 2), known(C, 4)])
    );

    // prepend to empty dims
    assert_eq!(
        DPrependFunctor::apply(&empty, known(D, 5)),
        Shape::from_axes(vec![known(D, 5)])
    );

    // append to non-empty dims
    assert_eq!(
        DAppendFunctor::apply(&some, known(D, 5)),
        Shape::from_axes(vec![known(A, 3), known(B, 2), known(C, 4), known(D, 5)])
    );

    // append to empty dims
    assert_eq!(
        DAppendFunctor::apply(&empty, known(D, 5)),
        Shape::from_axes(vec![known(D, 5)])
    );

    // insert single dim at the position of another
    let position = some.index_of(B).unwrap();
    assert_eq!(
        some.insert_at_position(position, known(D, 5)),
        Shape::from_axes(vec![known(A, 3), known(D, 5), known(B, 2), known(C, 4)])
    );
}

#[test]
fn insert_after_named_axis() {
    let some = some_dims();
    assert_eq!(
        some.insert_after(B, known(D, 5)).unwrap(),
        Shape::from_axes(vec![known(A, 3), known(B, 2), known(D, 5), known(C, 4)])
    );
    assert_eq!(
        some.insert_after(E, known(D, 5)),
        Err(ShapeError::NameNotFound(E))
    );
}

#[test]
fn expand_with_singleton_axes() {
    let some = some_dims();
    assert_eq!(
        some.expand_at(B, D).unwrap(),
        Shape::from_axes(vec![known(A, 3), known(B, 2), known(D, 1), known(C, 4)])
    );
    assert_eq!(some.expand_at(E, D), Err(ShapeError::NameNotFound(E)));
    assert_eq!(
        some.expand_at_end(D),
        Shape::from_axes(vec![known(A, 3), known(B, 2), known(C, 4), known(D, 1)])
    );
}

#[test]
fn access_out_of_range() {
    let some = some_dims();
    assert_eq!(some.dim_at(3), Err(ShapeError::RankMismatch));
    assert_eq!(some.dim_at_reverse(0), Err(ShapeError::RankMismatch));
    assert_eq!(some.dim_at_reverse(4), Err(ShapeError::RankMismatch));
    assert_eq!(some.index_of(E), Err(ShapeError::NameNotFound(E)));
}
