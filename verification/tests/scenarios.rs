use shape_algebra::broadcast::DBroadcastBothFunctor;
use shape_algebra::dim::{Axis, Dim, Shape};
use shape_algebra::marker::{MatrixDim, ScalarDim, VectorDim};
use shape_algebra::error::ShapeError;
use shape_algebra::flatten::DFlattenOp;
use shape_algebra::kind::{ComplexKind, FloatKind, IntegerKind, Kind};
use shape_algebra::matmul::{DMatMulBroadcastedFunctor, DMatMulFunctor};
use shape_algebra::misc::DConcatAtOp;
use shape_algebra::reduce::Reduction;
use shape_algebra::size::{DimSize, Size, SizeToOption, Unknown};

const A: u64 = 1;
const B: u64 = 2;
const C: u64 = 3;
const M: u64 = 4;
const N: u64 = 5;
const P: u64 = 6;
const X: u64 = 7;
const Y: u64 = 8;
const F: u64 = 9;

fn known(name: u64, size: u64) -> Axis {
    Axis { name, size: Size::Known(size) }
}

#[test]
fn matmul_shape_examples() {
    // plain matrix product
    let lhs = Shape::from_axes(vec![known(M, 3), known(N, 2)]);
    let rhs = Shape::from_axes(vec![known(N, 2), known(P, 5)]);
    assert_eq!(
        DMatMulBroadcastedFunctor::apply(&lhs, &rhs).unwrap(),
        Shape::from_axes(vec![known(M, 3), known(P, 5)])
    );

    // a vector on the left drops the contracted axis entirely
    let vector = Shape::from_axes(vec![known(N, 2)]);
    assert_eq!(
        DMatMulBroadcastedFunctor::apply(&vector, &rhs).unwrap(),
        Shape::from_axes(vec![known(P, 5)])
    );

    // batch axes broadcast: size one against size eleven gives eleven
    let batched_lhs = Shape::from_axes(vec![known(X, 7), known(Y, 1), known(M, 3), known(N, 2)]);
    let batched_rhs = Shape::from_axes(vec![known(Y, 11), known(N, 2), known(P, 5)]);
    assert_eq!(
        DMatMulBroadcastedFunctor::apply(&batched_lhs, &batched_rhs).unwrap(),
        Shape::from_axes(vec![known(X, 7), known(Y, 11), known(M, 3), known(P, 5)])
    );
}

#[test]
fn matmul_incompatible_contraction() {
    let lhs = Shape::from_axes(vec![known(M, 3), known(N, 2)]);
    let rhs = Shape::from_axes(vec![known(N, 5), known(P, 5)]);
    assert_eq!(
        DMatMulBroadcastedFunctor::apply(&lhs, &rhs),
        Err(ShapeError::IncompatibleContraction)
    );
    assert_eq!(DMatMulFunctor::apply(&lhs, &rhs), Err(ShapeError::IncompatibleContraction));

    // the strict form takes only matrices
    let vector = Shape::from_axes(vec![known(N, 2)]);
    assert_eq!(DMatMulFunctor::apply(&vector, &rhs), Err(ShapeError::RankMismatch));
    assert_eq!(
        DMatMulBroadcastedFunctor::apply(&Shape::scalar(), &rhs),
        Err(ShapeError::RankMismatch)
    );
}

#[test]
fn concat_examples() {
    let lhs = Shape::from_axes(vec![known(A, 3), known(B, 2), known(C, 4)]);
    let rhs = Shape::from_axes(vec![known(A, 3), known(B, 4), known(C, 4)]);
    let (merged, at) = lhs.concat_at(&rhs, B).unwrap();
    assert_eq!(merged, Shape::from_axes(vec![known(A, 3), known(B, 6), known(C, 4)]));
    assert_eq!(at, 1);

    // operands differing outside the target axis are rejected
    let differing = Shape::from_axes(vec![known(A, 7), known(B, 4), known(C, 4)]);
    assert_eq!(lhs.concat_at(&differing, B), Err(ShapeError::ShapeMismatch));

    // an absent target is reported by name
    assert_eq!(lhs.concat_at(&rhs, F), Err(ShapeError::NameNotFound(F)));

    // concatenation wants both target sizes known
    let vague = Shape::from_axes(vec![
        known(A, 3),
        Axis { name: B, size: Size::Unknown },
        known(C, 4),
    ]);
    assert_eq!(lhs.concat_at(&vague, B), Err(ShapeError::ShapeMismatch));
}

#[test]
fn reduction_examples() {
    let tensor = Shape::from_axes(vec![known(A, 3), known(B, 2), known(C, 4)]);

    // keeping singletons preserves every position
    let (kept, positions) = tensor.reduce(&vec![C, A, B], true).unwrap();
    assert_eq!(kept, Shape::from_axes(vec![known(A, 1), known(B, 1), known(C, 1)]));
    assert_eq!(positions, vec![2, 0, 1]);

    // dropping the axes empties the shape
    let (dropped, positions) = tensor.reduce(&vec![C, A, B], false).unwrap();
    assert_eq!(dropped, Shape::scalar());
    assert_eq!(positions, vec![2, 0, 1]);

    // an absent target is reported by name
    assert_eq!(tensor.reduce(&vec![C, F], false), Err(ShapeError::NameNotFound(F)));
}

#[test]
fn flatten_size_examples() {
    // the flattened size is the product of the run
    let dims = Shape::from_axes(vec![known(A, 2), known(B, 3), known(C, 4)]);
    let (flat, _, _) = dims.flatten(F, A, C).unwrap();
    assert_eq!(flat, Shape::from_axes(vec![known(F, 24)]));

    // one unknown size in the run poisons the product
    let vague = Shape::from_axes(vec![
        known(A, 2),
        Axis { name: B, size: Size::Unknown },
        known(C, 4),
    ]);
    let (flat, _, _) = vague.flatten(F, A, C).unwrap();
    assert_eq!(flat, Shape::from_axes(vec![Axis { name: F, size: Size::Unknown }]));
}

#[test]
fn broadcast_identity_examples() {
    let dims = Shape::from_axes(vec![known(A, 3), Axis { name: B, size: Size::Unknown }]);

    // a shape broadcast against itself is unchanged
    assert_eq!(DBroadcastBothFunctor::apply(&dims, &dims).unwrap(), dims);

    // a shape broadcast against the scalar shape is unchanged
    assert_eq!(DBroadcastBothFunctor::apply(&dims, &Shape::scalar()).unwrap(), dims);
    assert_eq!(DBroadcastBothFunctor::apply(&Shape::scalar(), &dims).unwrap(), dims);
}

#[test]
fn broadcast_association_example() {
    let a = Shape::from_axes(vec![known(A, 1), known(B, 2)]);
    let b = Shape::from_axes(vec![known(B, 1)]);
    let c = Shape::from_axes(vec![known(A, 4), known(B, 2)]);

    let ab = DBroadcastBothFunctor::apply(&a, &b).unwrap();
    let left = DBroadcastBothFunctor::apply(&ab, &c).unwrap();
    let bc = DBroadcastBothFunctor::apply(&b, &c).unwrap();
    let right = DBroadcastBothFunctor::apply(&a, &bc).unwrap();
    assert_eq!(left, right);
    assert_eq!(left, Shape::from_axes(vec![known(A, 4), known(B, 2)]));
}

#[test]
fn permute_identity_example() {
    let dims = Shape::from_axes(vec![known(A, 3), known(B, 2), known(C, 4)]);
    let (permuted, order) = dims.permute(&vec![A, B, C]).unwrap();
    assert_eq!(permuted, dims);
    assert_eq!(order, vec![0, 1, 2]);

    // a target list that is no total reordering is rejected
    assert_eq!(dims.permute(&vec![A, B]), Err(ShapeError::RankMismatch));
    assert_eq!(dims.permute(&vec![A, B, B]), Err(ShapeError::RankMismatch));
    assert_eq!(dims.permute(&vec![A, B, F]), Err(ShapeError::NameNotFound(F)));
}

#[test]
fn remove_round_trip_example() {
    let dims = Shape::from_axes(vec![known(A, 3), known(B, 2), known(C, 4)]);
    let (removed, position) = dims.remove_at(B).unwrap();
    assert_eq!(removed.index_of(B), Err(ShapeError::NameNotFound(B)));
    assert_eq!(removed.insert_at_position(position, known(B, 2)), dims);
}

#[test]
fn size_arithmetic() {
    assert_eq!(Size::Known(3).plus(Size::Known(4)), Size::Known(7));
    assert_eq!(Size::Known(3).times(Size::Known(4)), Size::Known(12));
    assert_eq!(Size::Known(3).plus(Unknown::new()), Size::Unknown);
    assert_eq!(Unknown::new().times(Size::Known(4)), Size::Unknown);
    assert_eq!(Size::Known(3).to_option(), Some(3));
    assert_eq!(Unknown::new().to_option(), None);
}

#[test]
fn shape_classifications() {
    let scalar = Shape::scalar();
    let vector = Shape::from_axes(vec![known(A, 3)]);
    let matrix = Shape::from_axes(vec![known(A, 3), known(B, 2)]);

    assert!(scalar.is_scalar());
    assert!(!vector.is_scalar());
    assert!(vector.is_vector());
    assert!(!matrix.is_vector());
    assert!(matrix.is_matrix());
    assert!(!vector.is_matrix());

    // axis accessors
    let axis = matrix.axis_at(1);
    assert_eq!(axis.name(), B);
    assert_eq!(axis.size(), Size::Known(2));
}

#[test]
fn kind_families() {
    assert!(Kind::Uint8.is_integer());
    assert!(Kind::Int64.is_integer());
    assert!(!Kind::Float.is_integer());
    assert!(Kind::Half.is_float());
    assert!(Kind::Double.is_float());
    assert!(!Kind::Int.is_float());
    assert!(Kind::ComplexFloat.is_complex());
    assert!(!Kind::Double.is_complex());
}
