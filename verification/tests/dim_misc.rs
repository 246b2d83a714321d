use shape_algebra::access::DLength;
use shape_algebra::dim::{Axis, Shape};
use shape_algebra::edit::{DMark, DMarkMany};
use shape_algebra::error::ShapeError;
use shape_algebra::list::LSetEqual;
use shape_algebra::misc::{
    DConcatAtOp, DExtendFunctor, DFromKVListFunctor, DNamesFunctor, DRankFunctor, DReverseFunctor,
    names_distinct,
};
use shape_algebra::remove::{
    DRemovePositionRangeFromOp, DRemovePositionRangeOp, DRemovePositionRangeToOp,
};
use shape_algebra::size::Size;

const A: u64 = 1;
const B: u64 = 2;
const C: u64 = 3;
const D: u64 = 4;
const E: u64 = 5;

fn known(name: u64, size: u64) -> Axis {
    Axis { name, size: Size::Known(size) }
}

fn some_dims() -> Shape {
    Shape::from_axes(vec![known(A, 3), known(B, 2), known(C, 4)])
}

fn another_dims() -> Shape {
    Shape::from_axes(vec![known(D, 1), known(E, 0)])
}

fn the_other_dims() -> Shape {
    Shape::from_axes(vec![known(A, 3), known(B, 4), known(C, 4)])
}

#[test]
fn dim_misc_test() {
    let empty = Shape::scalar();
    let some = some_dims();
    let another = another_dims();
    let the_other = the_other_dims();

    // extract dim names
    assert_eq!(DNamesFunctor::apply(&some), vec![A, B, C]);

    // length of dimension
    assert_eq!(DRankFunctor::apply(&empty), 0);
    assert_eq!(DRankFunctor::apply(&some), 3);
    assert_eq!(DRankFunctor::apply(&another), 2);
    assert_eq!(DRankFunctor::apply(&the_other), 3);

    // reduce size to one
    let (set, _) = some.set_size(A, Size::Known(1)).unwrap();
    assert_eq!(set, Shape::from_axes(vec![known(A, 1), known(B, 2), known(C, 4)]));

    // reduce many sizes to one
    let (set, _) = some.set_many_sizes(&vec![C, A, B], Size::Known(1)).unwrap();
    assert_eq!(set, Shape::from_axes(vec![known(A, 1), known(B, 1), known(C, 1)]));

    // reverse
    assert_eq!(
        DReverseFunctor::apply(&some),
        Shape::from_axes(vec![known(C, 4), known(B, 2), known(A, 3)])
    );

    // assert identical sets of names
    let reversed = Shape::from_axes(vec![known(C, 4), known(B, 2), known(A, 3)]);
    assert!(DNamesFunctor::apply(&some).set_equal(&DNamesFunctor::apply(&reversed)));

    // permute names
    let (permuted, order) = some.permute(&vec![C, A, B]).unwrap();
    assert_eq!(permuted, Shape::from_axes(vec![known(C, 4), known(A, 3), known(B, 2)]));
    assert_eq!(order, vec![2, 0, 1]);

    // extend dims
    assert_eq!(
        DExtendFunctor::apply(&some, &another),
        Shape::from_axes(vec![known(A, 3), known(B, 2), known(C, 4), known(D, 1), known(E, 0)])
    );

    // concatenate dim
    let (merged, at) = some.concat_at(&the_other, B).unwrap();
    assert_eq!(merged, Shape::from_axes(vec![known(A, 3), known(B, 6), known(C, 4)]));
    assert_eq!(at, 1);
}

#[test]
fn dim_remove_test() {
    let some = some_dims();

    // remove single dim
    let (removed, at) = some.remove_at(B).unwrap();
    assert_eq!(removed, Shape::from_axes(vec![known(A, 3), known(C, 4)]));
    assert_eq!(at, 1);

    // remove multiple dims
    let (removed, _) = some.remove_many(&vec![A, C]).unwrap();
    assert_eq!(removed, Shape::from_axes(vec![known(B, 2)]));

    // remove until empty
    let (removed, _) = some.remove_many(&vec![C, A, B]).unwrap();
    assert_eq!(removed, Shape::scalar());

    // remove position range
    assert_eq!(
        some.remove_position_range(1, 2).unwrap(),
        Shape::from_axes(vec![known(A, 3)])
    );

    // remove position range from
    assert_eq!(
        some.remove_position_range_from(1).unwrap(),
        Shape::from_axes(vec![known(A, 3)])
    );

    // remove position range to
    assert_eq!(
        some.remove_position_range_to(1).unwrap(),
        Shape::from_axes(vec![known(C, 4)])
    );
}

#[test]
fn dim_makr_test() {
    let some = some_dims();

    // mark one axis
    let (flags, at) = some.mark(B).unwrap();
    assert_eq!(flags, vec![false, true, false]);
    assert_eq!(at, 1);

    // mark several axes against the unchanged shape
    let (flags, positions) = some.mark_many(&vec![C, A]).unwrap();
    assert_eq!(flags, vec![true, false, true]);
    assert_eq!(positions, vec![2, 0]);

    // an absent target is reported by name
    assert_eq!(some.mark(D), Err(ShapeError::NameNotFound(D)));
}

#[test]
fn build_from_pairs() {
    let pairs: Vec<(u64, Size)> = vec![(A, Size::Known(3)), (B, Size::Unknown)];
    assert!(names_distinct(&pairs));
    let built = DFromKVListFunctor::apply(&pairs);
    assert_eq!(built.length(), 2);
    assert_eq!(built.size_at(A).unwrap(), Size::Known(3));
    assert_eq!(built.size_at(B).unwrap(), Size::Unknown);

    let clashing: Vec<(u64, Size)> = vec![(A, Size::Known(3)), (A, Size::Known(4))];
    assert!(!names_distinct(&clashing));
}

#[test]
fn remove_range_rejections() {
    let some = some_dims();
    assert_eq!(some.remove_position_range(2, 1), Err(ShapeError::OrderViolation));
    assert_eq!(some.remove_position_range(1, 3), Err(ShapeError::RankMismatch));
    assert_eq!(some.remove_position_range_from(3), Err(ShapeError::RankMismatch));
    assert_eq!(some.remove_position_range_to(3), Err(ShapeError::RankMismatch));
}
