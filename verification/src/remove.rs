use vstd::prelude::*;

use crate::dim::{DimList, Shape};
use crate::error::ShapeError;
use crate::misc::DExtendFunctor;

verus! {

/// Removing a contiguous run of axes by position.
pub trait DRemovePositionRangeOp: DimList {
    /// The shape without the axes from position `begin` to position
    /// `end`, both included.  `OrderViolation` when `end` comes before
    /// `begin`, and `RankMismatch` when `end` lies past the last axis.
    fn remove_position_range(&self, begin: usize, end: usize) -> (r: Result<Shape, ShapeError>)
        ensures
            match r {
                Ok(v) => begin <= end && end < self.dims().len() && v@ == self.dims().take(
                    begin as int,
                ) + self.dims().skip(end + 1),
                Err(e) => if end < begin {
                    e == ShapeError::OrderViolation
                } else {
                    end >= self.dims().len() && e == ShapeError::RankMismatch
                },
            },
    ;
}

/// Removing a leading run of axes by position.
pub trait DRemovePositionRangeToOp: DimList {
    /// The shape without the axes from the head to position `end`,
    /// included; `RankMismatch` when `end` lies past the last axis.
    fn remove_position_range_to(&self, end: usize) -> (r: Result<Shape, ShapeError>)
        ensures
            match r {
                Ok(v) => end < self.dims().len() && v@ == self.dims().skip(end + 1),
                Err(e) => end >= self.dims().len() && e == ShapeError::RankMismatch,
            },
    ;
}

/// Removing a trailing run of axes by position.
pub trait DRemovePositionRangeFromOp: DimList {
    /// The shape without the axes from position `begin` to the tail;
    /// `RankMismatch` when `begin` names no axis.
    fn remove_position_range_from(&self, begin: usize) -> (r: Result<Shape, ShapeError>)
        ensures
            match r {
                Ok(v) => begin < self.dims().len() && v@ == self.dims().take(begin as int),
                Err(e) => begin >= self.dims().len() && e == ShapeError::RankMismatch,
            },
    ;
}

impl DRemovePositionRangeOp for Shape {
    fn remove_position_range(&self, begin: usize, end: usize) -> (r: Result<Shape, ShapeError>) {
        if end < begin {
            return Err(ShapeError::OrderViolation);
        }
        if end >= self.axes.len() {
            return Err(ShapeError::RankMismatch);
        }
        let head = self.prefix(begin);
        let tail = self.suffix(end + 1);
        Ok(DExtendFunctor::apply(&head, &tail))
    }
}

impl DRemovePositionRangeToOp for Shape {
    fn remove_position_range_to(&self, end: usize) -> (r: Result<Shape, ShapeError>) {
        if end >= self.axes.len() {
            return Err(ShapeError::RankMismatch);
        }
        Ok(self.suffix(end + 1))
    }
}

impl DRemovePositionRangeFromOp for Shape {
    fn remove_position_range_from(&self, begin: usize) -> (r: Result<Shape, ShapeError>) {
        if begin >= self.axes.len() {
            return Err(ShapeError::RankMismatch);
        }
        Ok(self.prefix(begin))
    }
}

} // verus!
