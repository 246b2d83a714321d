use shape_algebra::access::DLength;
use shape_algebra::broadcast::DBroadcastToFunctor;
use shape_algebra::dim::{Axis, Shape};
use shape_algebra::keepdim::{DoKeepDim, NoKeepDim};
use shape_algebra::list::LSetEqual;
use shape_algebra::misc::{DConcatAtOp, DNamesFunctor};
use shape_algebra::reduce::Reduction;
use shape_algebra::size::Size;

const BATCH: u64 = 1;
const CHANNEL: u64 = 2;
const HEIGHT: u64 = 3;
const WIDTH: u64 = 4;

fn known(name: u64, size: u64) -> Axis {
    Axis { name, size: Size::Known(size) }
}

fn scalar_dim() -> Shape {
    Shape::scalar()
}

fn vector_dim() -> Shape {
    Shape::from_axes(vec![known(BATCH, 32)])
}

fn matrix_dim() -> Shape {
    Shape::from_axes(vec![known(HEIGHT, 300), known(WIDTH, 400)])
}

fn tensor_dim() -> Shape {
    Shape::from_axes(vec![
        known(BATCH, 32),
        known(CHANNEL, 3),
        known(HEIGHT, 300),
        known(WIDTH, 400),
    ])
}

fn tensor_dim2() -> Shape {
    Shape::from_axes(vec![
        known(BATCH, 32),
        known(CHANNEL, 1),
        known(HEIGHT, 300),
        known(WIDTH, 400),
    ])
}

#[test]
fn test() {
    // removing the channel axis leaves batch, height and width
    let (x_dim, _) = tensor_dim().remove_many(&vec![CHANNEL]).unwrap();
    let y_dim = Shape::from_axes(vec![known(BATCH, 32), known(HEIGHT, 300), known(WIDTH, 400)]);
    assert_eq!(x_dim, y_dim);

    // lengths
    assert_eq!(scalar_dim().length(), 0);
    assert_eq!(vector_dim().length(), 1);
    assert_eq!(matrix_dim().length(), 2);
    assert_eq!(tensor_dim().length(), 4);

    // dimension broadcast
    let broadcast = DBroadcastToFunctor::apply(&matrix_dim(), &tensor_dim()).unwrap();
    assert_eq!(broadcast.index_of(WIDTH).unwrap(), 3);
    assert_eq!(broadcast.size_at(HEIGHT).unwrap(), Size::Known(300));

    // compare set of dimensions after a transpose
    let (bhwc, transpose_order) =
        tensor_dim().permute(&vec![BATCH, HEIGHT, WIDTH, CHANNEL]).unwrap();
    assert_eq!(transpose_order, vec![0, 2, 3, 1]);
    assert!(DNamesFunctor::apply(&tensor_dim()).set_equal(&DNamesFunctor::apply(&bhwc)));

    // reduction
    let (kept, _) = tensor_dim().reduce_mode(&vec![HEIGHT, WIDTH], &DoKeepDim).unwrap();
    assert_eq!(
        kept,
        Shape::from_axes(vec![
            known(BATCH, 32),
            known(CHANNEL, 3),
            known(HEIGHT, 1),
            known(WIDTH, 1),
        ])
    );

    let (dropped, _) = tensor_dim().reduce_mode(&vec![WIDTH, HEIGHT], &NoKeepDim).unwrap();
    assert_eq!(dropped, Shape::from_axes(vec![known(BATCH, 32), known(CHANNEL, 3)]));

    // concat dim
    let (merged, at) = tensor_dim().concat_at(&tensor_dim2(), CHANNEL).unwrap();
    assert_eq!(
        merged,
        Shape::from_axes(vec![
            known(BATCH, 32),
            known(CHANNEL, 4),
            known(HEIGHT, 300),
            known(WIDTH, 400),
        ])
    );
    assert_eq!(at, 1);
}
