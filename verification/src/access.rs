use vstd::prelude::*;

use crate::dim::{names_of, Axis, DimList, Shape};
use crate::error::ShapeError;
use crate::list::{spec_list_indexes_of, to_int_seq, LIndexOfMany};

verus! {

/// The axis count of a shape.
pub trait DLength: DimList {
    /// How many axes the shape holds.
    fn length(&self) -> (n: usize)
        ensures
            n == self.dims().len(),
    ;
}

impl DLength for Shape {
    fn length(&self) -> (n: usize) {
        self.axes.len()
    }
}

/// The axis at a zero-based position from the head.
pub trait DDimAtIndex: DimList {
    /// The axis at `position`; `RankMismatch` when the position lies past
    /// the last axis.
    fn dim_at(&self, position: usize) -> (r: Result<Axis, ShapeError>)
        ensures
            match r {
                Ok(a) => position < self.dims().len() && a == self.dims()[position as int],
                Err(e) => position >= self.dims().len() && e == ShapeError::RankMismatch,
            },
    ;
}

impl DDimAtIndex for Shape {
    fn dim_at(&self, position: usize) -> (r: Result<Axis, ShapeError>) {
        if position < self.axes.len() {
            Ok(self.axes[position])
        } else {
            Err(ShapeError::RankMismatch)
        }
    }
}

/// The axis at a one-based distance from the tail.
pub trait DDimAtReverseIndex: DimList {
    /// The axis standing `distance` places before the end, the last axis
    /// being at distance one; `RankMismatch` when the distance is zero or
    /// exceeds the axis count.
    fn dim_at_reverse(&self, distance: usize) -> (r: Result<Axis, ShapeError>)
        ensures
            match r {
                Ok(a) => 1 <= distance <= self.dims().len() && a == self.dims()[self.dims().len()
                    - distance],
                Err(e) => (distance < 1 || distance > self.dims().len()) && e
                    == ShapeError::RankMismatch,
            },
    ;
}

impl DDimAtReverseIndex for Shape {
    fn dim_at_reverse(&self, distance: usize) -> (r: Result<Axis, ShapeError>) {
        if 1 <= distance && distance <= self.axes.len() {
            Ok(self.axes[self.axes.len() - distance])
        } else {
            Err(ShapeError::RankMismatch)
        }
    }
}

impl Shape {
    /// The positions of several named axes, in the order the targets are
    /// given, not sorted; `NameNotFound` names the leftmost absent target.
    pub fn indexes_of(&self, targets: &Vec<u64>) -> (r: Result<Vec<usize>, ShapeError>)
        ensures
            match r {
                Ok(v) => spec_list_indexes_of(names_of(self@), targets@) matches Ok(ps)
                    && to_int_seq(v@) == ps,
                Err(e) => spec_list_indexes_of(names_of(self@), targets@) == Err::<
                    Seq<int>,
                    ShapeError,
                >(e),
            },
    {
        let names = self.names();
        names.indexes_of(targets)
    }

    /// The positions that the targets do not claim, in increasing order;
    /// `NameNotFound` names the leftmost absent target.
    pub fn inverse_indexes(&self, targets: &Vec<u64>) -> (r: Result<Vec<usize>, ShapeError>)
        ensures
            match r {
                Ok(v) => spec_list_indexes_of(names_of(self@), targets@) matches Ok(ps)
                    && to_int_seq(v@) == crate::list::spec_inverse_positions(
                    self@.len() as int,
                    ps,
                ),
                Err(e) => spec_list_indexes_of(names_of(self@), targets@) == Err::<
                    Seq<int>,
                    ShapeError,
                >(e),
            },
    {
        let names = self.names();
        proof {
            assert(names_of(self@).len() == self@.len());
        }
        names.inverse_indexes(targets)
    }
}

} // verus!
