use vstd::prelude::*;

use crate::dim::{Axis, DimList, Shape};
use crate::edit::DPrependFunctor;
use crate::error::ShapeError;
use crate::misc::DReverseFunctor;
use crate::size::Size;

verus! {

/// The broadcast join of two sizes.  Equal sizes stay; a known size one
/// yields to the other side; an unknown size yields to a known one but is
/// never itself treated as size one; two distinct known sizes above one
/// cannot unify.
pub open spec fn spec_size_unify(a: Size, b: Size) -> Option<Size> {
    if a == b {
        Some(a)
    } else if a == Size::Known(1) {
        Some(b)
    } else if b == Size::Known(1) {
        Some(a)
    } else if a == Size::Unknown {
        Some(b)
    } else if b == Size::Unknown {
        Some(a)
    } else {
        None
    }
}

/// The broadcast join of two axes standing at the same position: their
/// names must agree, and their sizes must unify.
pub open spec fn spec_axis_unify(x: Axis, y: Axis) -> Option<Axis> {
    if x.name != y.name {
        None
    } else {
        match spec_size_unify(x.size, y.size) {
            Some(s) => Some(Axis { name: x.name, size: s }),
            None => None,
        }
    }
}

/// Head-aligned unification: axes are joined position by position from
/// the head, and whatever remains of the longer operand passes through
/// unchanged.
pub open spec fn spec_unify_rev(a: Seq<Axis>, b: Seq<Axis>) -> Option<Seq<Axis>>
    decreases a.len() + b.len(),
{
    if a.len() == 0 {
        Some(b)
    } else if b.len() == 0 {
        Some(a)
    } else {
        match spec_axis_unify(a[0], b[0]) {
            None => None,
            Some(ax) => match spec_unify_rev(a.skip(1), b.skip(1)) {
                None => None,
                Some(t) => Some(seq![ax] + t),
            },
        }
    }
}

/// Tail-aligned unification, the broadcasting rule of the algebra: both
/// operands are aligned at their trailing axis and joined toward the
/// head, and the leading surplus of the longer operand passes through.
pub open spec fn spec_unify(a: Seq<Axis>, b: Seq<Axis>) -> Option<Seq<Axis>> {
    match spec_unify_rev(a.reverse(), b.reverse()) {
        None => None,
        Some(u) => Some(u.reverse()),
    }
}

/// The broadcast join of two axes.
fn axis_unify(x: Axis, y: Axis) -> (r: Result<Axis, ShapeError>)
    ensures
        match r {
            Ok(ax) => spec_axis_unify(x, y) == Some(ax),
            Err(e) => spec_axis_unify(x, y) is None && e == ShapeError::IncompatibleSizes,
        },
{
    if x.name != y.name {
        return Err(ShapeError::IncompatibleSizes);
    }
    if x.size == y.size {
        return Ok(x);
    }
    if x.size == Size::Known(1) {
        return Ok(Axis { name: x.name, size: y.size });
    }
    if y.size == Size::Known(1) {
        return Ok(Axis { name: x.name, size: x.size });
    }
    if x.size == Size::Unknown {
        return Ok(Axis { name: x.name, size: y.size });
    }
    if y.size == Size::Unknown {
        return Ok(Axis { name: x.name, size: x.size });
    }
    Err(ShapeError::IncompatibleSizes)
}

/// Head-aligned unification of the suffixes of two shapes from position
/// `i` on.
#[verifier::loop_isolation(false)]
fn unify_rev_from(a: &Shape, b: &Shape, i: usize) -> (r: Result<Shape, ShapeError>)
    requires
        i <= a@.len(),
        i <= b@.len(),
    ensures
        match r {
            Ok(v) => spec_unify_rev(a@.skip(i as int), b@.skip(i as int)) == Some(v@),
            Err(e) => spec_unify_rev(a@.skip(i as int), b@.skip(i as int)) is None && e
                == ShapeError::IncompatibleSizes,
        },
    decreases a@.len() - i,
{
    if i == a.axes.len() {
        let mut out = Shape::scalar();
        let mut k: usize = i;
        while k < b.axes.len()
            invariant
                i <= k <= b@.len(),
                out@ == b@.subrange(i as int, k as int),
            decreases b@.len() - k,
        {
            out.axes.push(b.axes[k]);
            assert(out@ =~= b@.subrange(i as int, k + 1));
            k = k + 1;
        }
        proof {
            assert(a@.skip(i as int) =~= Seq::<Axis>::empty());
            assert(out@ =~= b@.skip(i as int));
        }
        return Ok(out);
    }
    if i == b.axes.len() {
        let mut out = Shape::scalar();
        let mut k: usize = i;
        while k < a.axes.len()
            invariant
                i <= k <= a@.len(),
                out@ == a@.subrange(i as int, k as int),
            decreases a@.len() - k,
        {
            out.axes.push(a.axes[k]);
            assert(out@ =~= a@.subrange(i as int, k + 1));
            k = k + 1;
        }
        proof {
            assert(b@.skip(i as int) =~= Seq::<Axis>::empty());
            assert(out@ =~= a@.skip(i as int));
            assert(a@.skip(i as int).len() != 0);
        }
        return Ok(out);
    }
    proof {
        assert(a@.skip(i as int)[0] == a@[i as int]);
        assert(b@.skip(i as int)[0] == b@[i as int]);
        assert(a@.skip(i as int).skip(1) =~= a@.skip(i + 1));
        assert(b@.skip(i as int).skip(1) =~= b@.skip(i + 1));
    }
    let ax = match axis_unify(a.axes[i], b.axes[i]) {
        Ok(ax) => ax,
        Err(e) => {
            return Err(e);
        },
    };
    let rest = match unify_rev_from(a, b, i + 1) {
        Ok(rest) => rest,
        Err(e) => {
            return Err(e);
        },
    };
    Ok(DPrependFunctor::apply(&rest, ax))
}

/// Tail-aligned unification of a shape with a target shape.
pub trait DBroadcastBothOp: DimList {
    /// The shape both operands broadcast to, aligned from the trailing
    /// axis; `IncompatibleSizes` when some axis pair cannot unify.
    fn broadcast_both(&self, target: &Self) -> (r: Result<Shape, ShapeError>)
        ensures
            match r {
                Ok(v) => spec_unify(self.dims(), target.dims()) == Some(v@),
                Err(e) => spec_unify(self.dims(), target.dims()) is None && e
                    == ShapeError::IncompatibleSizes,
            },
    ;
}

/// Head-aligned unification of a shape with a target shape.
pub trait DBroadcastBothReverselyOp: DimList {
    /// The shape both operands broadcast to, aligned from the leading
    /// axis; `IncompatibleSizes` when some axis pair cannot unify.
    fn broadcast_both_reversely(&self, target: &Self) -> (r: Result<Shape, ShapeError>)
        ensures
            match r {
                Ok(v) => spec_unify_rev(self.dims(), target.dims()) == Some(v@),
                Err(e) => spec_unify_rev(self.dims(), target.dims()) is None && e
                    == ShapeError::IncompatibleSizes,
            },
    ;
}

impl DBroadcastBothOp for Shape {
    fn broadcast_both(&self, target: &Shape) -> (r: Result<Shape, ShapeError>) {
        let ra = DReverseFunctor::apply(self);
        let rb = DReverseFunctor::apply(target);
        proof {
            assert(ra@.skip(0) =~= ra@);
            assert(rb@.skip(0) =~= rb@);
        }
        match unify_rev_from(&ra, &rb, 0) {
            Ok(u) => {
                let out = DReverseFunctor::apply(&u);
                proof {
                    assert(u@.reverse() == out@);
                }
                Ok(out)
            },
            Err(e) => Err(e),
        }
    }
}

impl DBroadcastBothReverselyOp for Shape {
    fn broadcast_both_reversely(&self, target: &Shape) -> (r: Result<Shape, ShapeError>) {
        proof {
            assert(self@.skip(0) =~= self@);
            assert(target@.skip(0) =~= target@);
        }
        unify_rev_from(self, target, 0)
    }
}

/// Tail-aligned unification of two shapes.
pub struct DBroadcastBothFunctor;

impl DBroadcastBothFunctor {
    /// The shape both operands broadcast to, aligned from the trailing
    /// axis.
    pub fn apply(lhs: &Shape, rhs: &Shape) -> (r: Result<Shape, ShapeError>)
        ensures
            match r {
                Ok(v) => spec_unify(lhs@, rhs@) == Some(v@),
                Err(e) => spec_unify(lhs@, rhs@) is None && e == ShapeError::IncompatibleSizes,
            },
    {
        lhs.broadcast_both(rhs)
    }
}

/// Head-aligned unification of two shapes.
pub struct DBroadcastBothReverselyFunctor;

impl DBroadcastBothReverselyFunctor {
    /// The shape both operands broadcast to, aligned from the leading
    /// axis.
    pub fn apply(lhs: &Shape, rhs: &Shape) -> (r: Result<Shape, ShapeError>)
        ensures
            match r {
                Ok(v) => spec_unify_rev(lhs@, rhs@) == Some(v@),
                Err(e) => spec_unify_rev(lhs@, rhs@) is None && e == ShapeError::IncompatibleSizes,
            },
    {
        lhs.broadcast_both_reversely(rhs)
    }
}

/// The outcome of broadcasting a shape to a target: the operand may not
/// outrank the target (`RankMismatch` otherwise), and the two then unify
/// tail-aligned.
pub open spec fn spec_broadcast_to(a: Seq<Axis>, b: Seq<Axis>) -> Result<Seq<Axis>, ShapeError> {
    if a.len() > b.len() {
        Err(ShapeError::RankMismatch)
    } else {
        match spec_unify(a, b) {
            Some(u) => Ok(u),
            None => Err(ShapeError::IncompatibleSizes),
        }
    }
}

/// The outcome of head-aligned broadcasting of a shape to a target.
pub open spec fn spec_broadcast_to_rev(a: Seq<Axis>, b: Seq<Axis>) -> Result<
    Seq<Axis>,
    ShapeError,
> {
    if a.len() > b.len() {
        Err(ShapeError::RankMismatch)
    } else {
        match spec_unify_rev(a, b) {
            Some(u) => Ok(u),
            None => Err(ShapeError::IncompatibleSizes),
        }
    }
}

/// Broadcasting a shape to a target shape, tail-aligned.
pub struct DBroadcastToFunctor;

impl DBroadcastToFunctor {
    /// The input broadcast to the target, which must not be outranked by
    /// the input.
    pub fn apply(list: &Shape, target: &Shape) -> (r: Result<Shape, ShapeError>)
        ensures
            match r {
                Ok(v) => spec_broadcast_to(list@, target@) == Ok::<Seq<Axis>, ShapeError>(v@),
                Err(e) => spec_broadcast_to(list@, target@) == Err::<Seq<Axis>, ShapeError>(e),
            },
    {
        if list.axes.len() > target.axes.len() {
            return Err(ShapeError::RankMismatch);
        }
        list.broadcast_both(target)
    }
}

/// Broadcasting a shape to a target shape, head-aligned.
pub struct DBroadcastToReverselyFunctor;

impl DBroadcastToReverselyFunctor {
    /// The input broadcast to the target, aligned from the leading axis.
    pub fn apply(list: &Shape, target: &Shape) -> (r: Result<Shape, ShapeError>)
        ensures
            match r {
                Ok(v) => spec_broadcast_to_rev(list@, target@) == Ok::<Seq<Axis>, ShapeError>(v@),
                Err(e) => spec_broadcast_to_rev(list@, target@) == Err::<Seq<Axis>, ShapeError>(e),
            },
    {
        if list.axes.len() > target.axes.len() {
            return Err(ShapeError::RankMismatch);
        }
        list.broadcast_both_reversely(target)
    }
}

} // verus!
