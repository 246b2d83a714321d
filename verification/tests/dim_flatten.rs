use shape_algebra::dim::{Axis, Shape};
use shape_algebra::error::ShapeError;
use shape_algebra::flatten::{DFlattenFromOp, DFlattenOp, DFlattenUntilOp};
use shape_algebra::size::Size;

const A: u64 = 1;
const B: u64 = 2;
const C: u64 = 3;
const D: u64 = 4;
const NEW: u64 = 9;

fn known(name: u64, size: u64) -> Axis {
    Axis { name, size: Size::Known(size) }
}

fn dims() -> Shape {
    Shape::from_axes(vec![known(A, 3), known(B, 2), known(C, 5), known(D, 7)])
}

#[test]
fn dim_flatten_test() {
    // flatten the whole shape
    let (flat, begin, end) = dims().flatten(NEW, A, D).unwrap();
    assert_eq!(flat, Shape::from_axes(vec![known(NEW, 210)]));
    assert_eq!(begin, 0);
    assert_eq!(end, 3);

    // flatten an inner run
    let (flat, begin, end) = dims().flatten(NEW, B, C).unwrap();
    assert_eq!(flat, Shape::from_axes(vec![known(A, 3), known(NEW, 10), known(D, 7)]));
    assert_eq!(begin, 1);
    assert_eq!(end, 2);

    // flatten a run of one axis
    let (flat, begin, end) = dims().flatten(NEW, B, B).unwrap();
    assert_eq!(
        flat,
        Shape::from_axes(vec![known(A, 3), known(NEW, 2), known(C, 5), known(D, 7)])
    );
    assert_eq!(begin, 1);
    assert_eq!(end, 1);

    // flatten from a named axis through the tail
    let (flat, begin) = dims().flatten_from(NEW, A).unwrap();
    assert_eq!(flat, Shape::from_axes(vec![known(NEW, 210)]));
    assert_eq!(begin, 0);

    let (flat, begin) = dims().flatten_from(NEW, C).unwrap();
    assert_eq!(flat, Shape::from_axes(vec![known(A, 3), known(B, 2), known(NEW, 35)]));
    assert_eq!(begin, 2);

    let (flat, begin) = dims().flatten_from(NEW, D).unwrap();
    assert_eq!(
        flat,
        Shape::from_axes(vec![known(A, 3), known(B, 2), known(C, 5), known(NEW, 7)])
    );
    assert_eq!(begin, 3);

    // flatten from the head through a named axis
    let (flat, end) = dims().flatten_until(NEW, D).unwrap();
    assert_eq!(flat, Shape::from_axes(vec![known(NEW, 210)]));
    assert_eq!(end, 3);

    let (flat, end) = dims().flatten_until(NEW, B).unwrap();
    assert_eq!(flat, Shape::from_axes(vec![known(NEW, 6), known(C, 5), known(D, 7)]));
    assert_eq!(end, 1);

    let (flat, end) = dims().flatten_until(NEW, A).unwrap();
    assert_eq!(
        flat,
        Shape::from_axes(vec![known(NEW, 3), known(B, 2), known(C, 5), known(D, 7)])
    );
    assert_eq!(end, 0);
}

#[test]
fn flatten_unknown_poisons_product() {
    let dims = Shape::from_axes(vec![
        known(A, 3),
        Axis { name: B, size: Size::Unknown },
        known(C, 5),
    ]);
    let (flat, begin, end) = dims.flatten(NEW, A, C).unwrap();
    assert_eq!(flat, Shape::from_axes(vec![Axis { name: NEW, size: Size::Unknown }]));
    assert_eq!(begin, 0);
    assert_eq!(end, 2);
}

#[test]
fn flatten_rejects_bad_runs() {
    // the end name stands before the begin name
    assert_eq!(dims().flatten(NEW, C, A), Err(ShapeError::OrderViolation));

    // absent names, the begin name first
    assert_eq!(dims().flatten(NEW, NEW, C), Err(ShapeError::NameNotFound(NEW)));
    assert_eq!(dims().flatten(NEW, A, NEW), Err(ShapeError::NameNotFound(NEW)));
    assert_eq!(dims().flatten_from(NEW, NEW), Err(ShapeError::NameNotFound(NEW)));
    assert_eq!(dims().flatten_until(NEW, NEW), Err(ShapeError::NameNotFound(NEW)));
}
