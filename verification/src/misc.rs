use vstd::prelude::*;

use crate::dim::{lemma_index_of_props, names_of, spec_index_of, wf_dims, Axis, DimList, Shape};
use crate::error::ShapeError;
use crate::size::{size_add_in_range, spec_size_add, Size, SizeToOption};

verus! {

/// Conversion of a shape to its concrete size vector.
pub trait DimToShape: DimList {
    /// One entry per axis: `Some` of the size when it is known, `None`
    /// when it is unknown.
    fn shape(&self) -> (r: Vec<Option<u64>>)
        ensures
            r@ == self.dims().map_values(|a: Axis| a.size.spec_to_option()),
    ;
}

impl DimToShape for Shape {
    #[verifier::loop_isolation(false)]
    fn shape(&self) -> (r: Vec<Option<u64>>) {
        let ghost target = self@.map_values(|a: Axis| a.size.spec_to_option());
        let mut out: Vec<Option<u64>> = Vec::new();
        let mut i: usize = 0;
        while i < self.axes.len()
            invariant
                i <= self.axes.len(),
                out@ == target.take(i as int),
            decreases self.axes.len() - i,
        {
            out.push(self.axes[i].size.to_option());
            assert(out@ =~= target.take(i + 1));
            i = i + 1;
        }
        assert(out@ =~= target);
        out
    }
}

/// Whether no two pairs of a name-size list share a name.
pub open spec fn pairs_distinct(ps: Seq<(u64, Size)>) -> bool {
    forall|i: int, j: int| 0 <= i < j < ps.len() ==> ps[i].0 != ps[j].0
}

/// The axis sequence a name-size list stands for.
pub open spec fn pairs_to_dims(ps: Seq<(u64, Size)>) -> Seq<Axis> {
    ps.map_values(|p: (u64, Size)| Axis { name: p.0, size: p.1 })
}

/// Whether no two pairs of a name-size list share a name.  Callers that
/// cannot establish distinctness statically check it with this before
/// building a shape.
#[verifier::loop_isolation(false)]
pub fn names_distinct(pairs: &Vec<(u64, Size)>) -> (r: bool)
    ensures
        r == pairs_distinct(pairs@),
{
    let mut i: usize = 0;
    while i < pairs.len()
        invariant
            i <= pairs.len(),
            forall|a: int, b: int| 0 <= a < b < pairs@.len() && a < i ==> pairs@[a].0 != pairs@[b].0,
        decreases pairs.len() - i,
    {
        let mut j: usize = i + 1;
        while j < pairs.len()
            invariant
                i < pairs.len(),
                i < j,
                j <= pairs.len(),
                forall|b: int| i < b < j ==> pairs@[i as int].0 != pairs@[b].0,
            decreases pairs.len() - j,
        {
            if pairs[j].0 == pairs[i].0 {
                return false;
            }
            j = j + 1;
        }
        i = i + 1;
    }
    true
}

/// Conversion from a list of name-size pairs to a shape.
pub trait DFromKVListOp: Sized {
    /// The sequence of name-size pairs this value stands for.
    spec fn pairs(&self) -> Seq<(u64, Size)>;

    /// The shape carrying these pairs as axes, in order.  A shape never
    /// holds two axes of one name, so the pairs must be distinct by name.
    fn to_dims(&self) -> (r: Shape)
        requires
            pairs_distinct(self.pairs()),
        ensures
            r@ == pairs_to_dims(self.pairs()),
            wf_dims(r@),
    ;
}

impl DFromKVListOp for Vec<(u64, Size)> {
    open spec fn pairs(&self) -> Seq<(u64, Size)> {
        self@
    }

    #[verifier::loop_isolation(false)]
    fn to_dims(&self) -> (r: Shape) {
        let ghost target = pairs_to_dims(self@);
        let mut out = Shape::scalar();
        let mut i: usize = 0;
        while i < self.len()
            invariant
                i <= self.len(),
                out@ == target.take(i as int),
            decreases self.len() - i,
        {
            let p = self[i];
            out.axes.push(Axis { name: p.0, size: p.1 });
            assert(out@ =~= target.take(i + 1));
            i = i + 1;
        }
        assert(out@ =~= target);
        proof {
            assert forall|a: int, b: int| 0 <= a < b < out@.len() implies out@[a].name
                != out@[b].name by {
                assert(out@[a].name == self@[a].0);
                assert(out@[b].name == self@[b].0);
            }
        }
        out
    }
}

/// Building a shape from a list of name-size pairs.
pub struct DFromKVListFunctor;

impl DFromKVListFunctor {
    /// The shape carrying the given pairs as axes, in order.
    pub fn apply(pairs: &Vec<(u64, Size)>) -> (r: Shape)
        requires
            pairs_distinct(pairs@),
        ensures
            r@ == pairs_to_dims(pairs@),
            wf_dims(r@),
    {
        pairs.to_dims()
    }
}

/// The axis count of a shape.
pub struct DRankFunctor;

impl DRankFunctor {
    /// How many axes the shape holds.
    pub fn apply(shape: &Shape) -> (r: usize)
        ensures
            r == shape@.len(),
    {
        shape.axes.len()
    }
}

/// The names of a shape, in order.
pub struct DNamesFunctor;

impl DNamesFunctor {
    /// The name of each axis, head to tail.
    pub fn apply(shape: &Shape) -> (r: Vec<u64>)
        ensures
            r@ == names_of(shape@),
    {
        shape.names()
    }
}

/// Reversal of a shape's axis order.
pub struct DReverseFunctor;

impl DReverseFunctor {
    /// The shape with its axes in the opposite order.
    #[verifier::loop_isolation(false)]
    pub fn apply(shape: &Shape) -> (r: Shape)
        ensures
            r@ == shape@.reverse(),
    {
        let mut out = Shape::scalar();
        let mut i: usize = shape.axes.len();
        while i > 0
            invariant
                i <= shape.axes.len(),
                out@ == shape@.skip(i as int).reverse(),
            decreases i,
        {
            i = i - 1;
            out.axes.push(shape.axes[i]);
            proof {
                assert(out@ =~= shape@.skip(i as int).reverse());
            }
        }
        proof {
            assert(shape@.skip(0) =~= shape@);
        }
        out
    }
}

/// Concatenation of two shapes end to end.
pub struct DExtendFunctor;

impl DExtendFunctor {
    /// The axes of `lhs` followed by the axes of `rhs`.
    #[verifier::loop_isolation(false)]
    pub fn apply(lhs: &Shape, rhs: &Shape) -> (r: Shape)
        ensures
            r@ == lhs@ + rhs@,
    {
        let mut out = lhs.duplicate();
        let mut i: usize = 0;
        while i < rhs.axes.len()
            invariant
                i <= rhs.axes.len(),
                out@ == lhs@ + rhs@.take(i as int),
            decreases rhs.axes.len() - i,
        {
            out.axes.push(rhs.axes[i]);
            assert(out@ =~= lhs@ + rhs@.take(i + 1));
            i = i + 1;
        }
        assert(out@ =~= lhs@ + rhs@);
        out
    }
}

/// The outcome of concatenating two shapes along a named axis: both
/// operands must agree on every axis but the target, whose sizes must be
/// known and add up.  The checks run in this order: a target absent from
/// the left operand, then one absent from the right operand, is
/// `NameNotFound`; differing ranks, a target at differing positions, any
/// other differing axis, or a target size that is not known, is
/// `ShapeMismatch`.
pub open spec fn spec_concat_at(a: Seq<Axis>, b: Seq<Axis>, t: u64) -> Result<
    (Seq<Axis>, int),
    ShapeError,
> {
    match spec_index_of(a, t) {
        Err(e) => Err(e),
        Ok(i) => match spec_index_of(b, t) {
            Err(e) => Err(e),
            Ok(j) => if a.len() != b.len() {
                Err(ShapeError::ShapeMismatch)
            } else if j != i {
                Err(ShapeError::ShapeMismatch)
            } else if exists|k: int| 0 <= k < a.len() && k != i && a[k] != b[k] {
                Err(ShapeError::ShapeMismatch)
            } else if !(a[i].size is Known && b[i].size is Known) {
                Err(ShapeError::ShapeMismatch)
            } else {
                Ok(
                    (
                        a.update(i, Axis { name: t, size: spec_size_add(a[i].size, b[i].size) }),
                        i,
                    ),
                )
            },
        },
    }
}

/// Whether the concatenated size of the target axis stays inside the
/// machine range.
pub open spec fn concat_fits(a: Seq<Axis>, b: Seq<Axis>, t: u64) -> bool {
    match spec_index_of(a, t) {
        Err(_) => true,
        Ok(i) => if 0 <= i < b.len() {
            size_add_in_range(a[i].size, b[i].size)
        } else {
            true
        },
    }
}

/// Concatenation of two shapes along one named axis.
pub trait DConcatAtOp: DimList {
    /// The shape whose target axis carries the sum of both operands'
    /// target sizes, along with the target's position; every other axis
    /// must agree between the operands.
    fn concat_at(&self, rhs: &Self, target: u64) -> (r: Result<(Self, usize), ShapeError>)
        requires
            concat_fits(self.dims(), rhs.dims(), target),
        ensures
            match r {
                Ok(v) => spec_concat_at(self.dims(), rhs.dims(), target) == Ok::<
                    (Seq<Axis>, int),
                    ShapeError,
                >((v.0.dims(), v.1 as int)),
                Err(e) => spec_concat_at(self.dims(), rhs.dims(), target) == Err::<
                    (Seq<Axis>, int),
                    ShapeError,
                >(e),
            },
    ;
}

impl DConcatAtOp for Shape {
    #[verifier::loop_isolation(false)]
    fn concat_at(&self, rhs: &Shape, target: u64) -> (r: Result<(Shape, usize), ShapeError>) {
        let i = match self.index_of(target) {
            Ok(i) => i,
            Err(e) => {
                return Err(e);
            },
        };
        let j = match rhs.index_of(target) {
            Ok(j) => j,
            Err(e) => {
                return Err(e);
            },
        };
        proof {
            lemma_index_of_props(self@, target);
            lemma_index_of_props(rhs@, target);
        }
        if self.axes.len() != rhs.axes.len() {
            return Err(ShapeError::ShapeMismatch);
        }
        if j != i {
            return Err(ShapeError::ShapeMismatch);
        }
        let mut k: usize = 0;
        while k < self.axes.len()
            invariant
                k <= self.axes.len(),
                forall|m: int| 0 <= m < k && m != i as int ==> self@[m] == rhs@[m],
            decreases self.axes.len() - k,
        {
            if k != i && (self.axes[k] != rhs.axes[k]) {
                proof {
                    assert(exists|m: int|
                        0 <= m < self@.len() && m != i as int && self@[m] != rhs@[m]);
                }
                return Err(ShapeError::ShapeMismatch);
            }
            k = k + 1;
        }
        let x = match self.axes[i].size {
            Size::Known(x) => x,
            Size::Unknown => {
                return Err(ShapeError::ShapeMismatch);
            },
        };
        let y = match rhs.axes[i].size {
            Size::Known(y) => y,
            Size::Unknown => {
                return Err(ShapeError::ShapeMismatch);
            },
        };
        let mut out = self.duplicate();
        out.axes.set(i, Axis { name: target, size: Size::Known(x + y) });
        Ok((out, i))
    }
}

} // verus!
