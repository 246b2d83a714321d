use vstd::prelude::*;

use crate::dim::{DimList, Shape};

verus! {

/// The scalar classification of a shape.
pub trait ScalarDim: DimList {
    /// Whether the shape has no axis at all.
    fn is_scalar(&self) -> (r: bool)
        ensures
            r == (self.dims().len() == 0),
    ;
}

/// The vector classification of a shape.
pub trait VectorDim: DimList {
    /// Whether the shape has exactly one axis.
    fn is_vector(&self) -> (r: bool)
        ensures
            r == (self.dims().len() == 1),
    ;
}

/// The matrix classification of a shape.
pub trait MatrixDim: DimList {
    /// Whether the shape has exactly two axes.
    fn is_matrix(&self) -> (r: bool)
        ensures
            r == (self.dims().len() == 2),
    ;
}

impl ScalarDim for Shape {
    fn is_scalar(&self) -> (r: bool) {
        self.axes.len() == 0
    }
}

impl VectorDim for Shape {
    fn is_vector(&self) -> (r: bool) {
        self.axes.len() == 1
    }
}

impl MatrixDim for Shape {
    fn is_matrix(&self) -> (r: bool) {
        self.axes.len() == 2
    }
}

} // verus!
