use vstd::prelude::*;

use crate::dim::{names_of, Axis, DimList, Shape};
use crate::edit::spec_set_positions;
use crate::error::ShapeError;
use crate::keepdim::KeepDimOrNot;
use crate::list::{spec_list_indexes_of, strip_positions, to_int_seq};
use crate::size::Size;

verus! {

/// The outcome of reducing the named axes of a shape.  With `keep` the
/// reduced axes stay in place with size one; without it they are struck
/// out under the mark-then-strip discipline.  Either way the reduced
/// positions are reported in target order, resolved against the original
/// shape; `NameNotFound` names the leftmost absent target.
pub open spec fn spec_reduce(s: Seq<Axis>, ts: Seq<u64>, keep: bool) -> Result<
    (Seq<Axis>, Seq<int>),
    ShapeError,
> {
    match spec_list_indexes_of(names_of(s), ts) {
        Err(e) => Err(e),
        Ok(ps) => if keep {
            Ok((spec_set_positions(s, ps, Size::Known(1)), ps))
        } else {
            Ok((strip_positions(s, ps), ps))
        },
    }
}

/// Reduction shape inference: collapsing named axes by sum, mean,
/// minimum or maximum leaves this shape behind.
pub trait Reduction: DimList {
    /// The shape left after reducing the target axes, along with their
    /// positions in the original shape, in target order.  `keep` selects
    /// whether each reduced axis stays as a singleton or disappears.
    fn reduce(&self, targets: &Vec<u64>, keep: bool) -> (r: Result<
        (Shape, Vec<usize>),
        ShapeError,
    >)
        ensures
            match r {
                Ok(v) => spec_reduce(self.dims(), targets@, keep) == Ok::<
                    (Seq<Axis>, Seq<int>),
                    ShapeError,
                >((v.0@, to_int_seq(v.1@))),
                Err(e) => spec_reduce(self.dims(), targets@, keep) == Err::<
                    (Seq<Axis>, Seq<int>),
                    ShapeError,
                >(e),
            },
    ;

    /// The same inference, with the mode given as a keep-dimension value
    /// rather than a bare flag.
    fn reduce_mode<K: KeepDimOrNot>(&self, targets: &Vec<u64>, mode: &K) -> (r: Result<
        (Shape, Vec<usize>),
        ShapeError,
    >)
        ensures
            match r {
                Ok(v) => spec_reduce(self.dims(), targets@, mode.keep_spec()) == Ok::<
                    (Seq<Axis>, Seq<int>),
                    ShapeError,
                >((v.0@, to_int_seq(v.1@))),
                Err(e) => spec_reduce(self.dims(), targets@, mode.keep_spec()) == Err::<
                    (Seq<Axis>, Seq<int>),
                    ShapeError,
                >(e),
            },
    ;
}

impl Reduction for Shape {
    fn reduce(&self, targets: &Vec<u64>, keep: bool) -> (r: Result<
        (Shape, Vec<usize>),
        ShapeError,
    >) {
        if keep {
            self.set_many_sizes(targets, Size::Known(1))
        } else {
            self.remove_many(targets)
        }
    }

    fn reduce_mode<K: KeepDimOrNot>(&self, targets: &Vec<u64>, mode: &K) -> (r: Result<
        (Shape, Vec<usize>),
        ShapeError,
    >) {
        self.reduce(targets, mode.keep())
    }
}

} // verus!
