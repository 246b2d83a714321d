use vstd::prelude::*;

use crate::broadcast::{spec_unify, DBroadcastBothOp};
use crate::dim::{Axis, Shape};
use crate::edit::DAppendFunctor;
use crate::error::ShapeError;
use crate::misc::DReverseFunctor;
use crate::size::Size;

verus! {

/// Whether two sizes may share a matmul contraction: two known sizes must
/// be equal, and an unknown size pairs with anything.
pub open spec fn spec_contract_ok(a: Size, b: Size) -> bool {
    match (a, b) {
        (Size::Known(x), Size::Known(y)) => x == y,
        _ => true,
    }
}

/// The outcome of a strict two-dimensional matrix product: both operands
/// must be matrices (`RankMismatch` otherwise), the trailing axis of the
/// left operand contracts with the leading axis of the right one
/// (`IncompatibleContraction` when both sizes are known and differ), and
/// the result pairs the left row axis with the right column axis.
pub open spec fn spec_mm(a: Seq<Axis>, b: Seq<Axis>) -> Result<Seq<Axis>, ShapeError> {
    if a.len() != 2 || b.len() != 2 {
        Err(ShapeError::RankMismatch)
    } else if !spec_contract_ok(a[1].size, b[0].size) {
        Err(ShapeError::IncompatibleContraction)
    } else {
        Ok(seq![a[0], b[1]])
    }
}

/// The outcome of a batched, broadcasted matrix product.  Each operand
/// must have at least one axis (`RankMismatch` otherwise).  The trailing
/// axis of the left operand contracts with the second-to-last axis of the
/// right operand, or with its only axis when it is a vector
/// (`IncompatibleContraction` when both sizes are known and differ).  The
/// remaining batch prefixes broadcast tail-aligned (`IncompatibleSizes`
/// when they cannot), and the result is that prefix followed by the
/// surviving row and column axes; a vector operand contributes none.
pub open spec fn spec_matmul(a: Seq<Axis>, b: Seq<Axis>) -> Result<Seq<Axis>, ShapeError> {
    if a.len() == 0 || b.len() == 0 {
        Err(ShapeError::RankMismatch)
    } else {
        let ca = a[a.len() - 1];
        let cb = if b.len() == 1 {
            b[0]
        } else {
            b[b.len() - 2]
        };
        if !spec_contract_ok(ca.size, cb.size) {
            Err(ShapeError::IncompatibleContraction)
        } else {
            let batch_a = if a.len() >= 2 {
                a.take(a.len() - 2)
            } else {
                Seq::<Axis>::empty()
            };
            let batch_b = if b.len() >= 2 {
                b.take(b.len() - 2)
            } else {
                Seq::<Axis>::empty()
            };
            let m_part = if a.len() >= 2 {
                seq![a[a.len() - 2]]
            } else {
                Seq::<Axis>::empty()
            };
            let p_part = if b.len() >= 2 {
                seq![b[b.len() - 1]]
            } else {
                Seq::<Axis>::empty()
            };
            match spec_unify(batch_a, batch_b) {
                None => Err(ShapeError::IncompatibleSizes),
                Some(u) => Ok(u + m_part + p_part),
            }
        }
    }
}

/// Whether two contraction sizes agree.
fn contract_ok(a: Size, b: Size) -> (r: bool)
    ensures
        r == spec_contract_ok(a, b),
{
    match (a, b) {
        (Size::Known(x), Size::Known(y)) => x == y,
        _ => true,
    }
}

/// Strict two-dimensional matrix-multiply shape inference.
pub struct DMatMulFunctor;

impl DMatMulFunctor {
    /// The shape of the product of two matrices.
    pub fn apply(lhs: &Shape, rhs: &Shape) -> (r: Result<Shape, ShapeError>)
        ensures
            match r {
                Ok(v) => spec_mm(lhs@, rhs@) == Ok::<Seq<Axis>, ShapeError>(v@),
                Err(e) => spec_mm(lhs@, rhs@) == Err::<Seq<Axis>, ShapeError>(e),
            },
    {
        if lhs.axes.len() != 2 || rhs.axes.len() != 2 {
            return Err(ShapeError::RankMismatch);
        }
        if !contract_ok(lhs.axes[1].size, rhs.axes[0].size) {
            return Err(ShapeError::IncompatibleContraction);
        }
        let mut out = Shape::scalar();
        out.axes.push(lhs.axes[0]);
        out.axes.push(rhs.axes[1]);
        proof {
            assert(out@ =~= seq![lhs@[0], rhs@[1]]);
        }
        Ok(out)
    }
}

/// Batched, broadcasted matrix-multiply shape inference.
pub struct DMatMulBroadcastedFunctor;

impl DMatMulBroadcastedFunctor {
    /// The shape of the product of two operands that may carry batch
    /// axes or be bare vectors.
    pub fn apply(lhs: &Shape, rhs: &Shape) -> (r: Result<Shape, ShapeError>)
        ensures
            match r {
                Ok(v) => spec_matmul(lhs@, rhs@) == Ok::<Seq<Axis>, ShapeError>(v@),
                Err(e) => spec_matmul(lhs@, rhs@) == Err::<Seq<Axis>, ShapeError>(e),
            },
    {
        let al = lhs.axes.len();
        let bl = rhs.axes.len();
        if al == 0 || bl == 0 {
            return Err(ShapeError::RankMismatch);
        }
        let ca = lhs.axes[al - 1];
        let cb = if bl == 1 {
            rhs.axes[0]
        } else {
            rhs.axes[bl - 2]
        };
        if !contract_ok(ca.size, cb.size) {
            return Err(ShapeError::IncompatibleContraction);
        }
        let batch_a = if al >= 2 {
            lhs.prefix(al - 2)
        } else {
            Shape::scalar()
        };
        let batch_b = if bl >= 2 {
            rhs.prefix(bl - 2)
        } else {
            Shape::scalar()
        };
        let unified = match batch_a.broadcast_both(&batch_b) {
            Ok(u) => u,
            Err(e) => {
                return Err(e);
            },
        };
        let ghost u = unified@;
        let mut out = unified;
        if al >= 2 {
            out = DAppendFunctor::apply(&out, lhs.axes[al - 2]);
        }
        if bl >= 2 {
            out = DAppendFunctor::apply(&out, rhs.axes[bl - 1]);
        }
        proof {
            let m_part = if lhs@.len() >= 2 {
                seq![lhs@[lhs@.len() - 2]]
            } else {
                Seq::<Axis>::empty()
            };
            let p_part = if rhs@.len() >= 2 {
                seq![rhs@[rhs@.len() - 1]]
            } else {
                Seq::<Axis>::empty()
            };
            assert(out@ =~= u + m_part + p_part);
        }
        Ok(out)
    }
}

/// The outcome of a batched matrix product stated over reversed
/// operands: the shapes are read tail-first, as the alignment itself
/// proceeds.
pub open spec fn spec_matmul_rev(a: Seq<Axis>, b: Seq<Axis>) -> Result<Seq<Axis>, ShapeError> {
    match spec_matmul(a.reverse(), b.reverse()) {
        Ok(u) => Ok(u.reverse()),
        Err(e) => Err(e),
    }
}

/// Batched matrix-multiply shape inference over reversed operands.
pub struct DMatMulReverselyFunctor;

impl DMatMulReverselyFunctor {
    /// The reversed shape of the product of two operands given tail
    /// first.
    pub fn apply(lhs: &Shape, rhs: &Shape) -> (r: Result<Shape, ShapeError>)
        ensures
            match r {
                Ok(v) => spec_matmul_rev(lhs@, rhs@) == Ok::<Seq<Axis>, ShapeError>(v@),
                Err(e) => spec_matmul_rev(lhs@, rhs@) == Err::<Seq<Axis>, ShapeError>(e),
            },
    {
        let fl = DReverseFunctor::apply(lhs);
        let fr = DReverseFunctor::apply(rhs);
        match DMatMulBroadcastedFunctor::apply(&fl, &fr) {
            Ok(u) => Ok(DReverseFunctor::apply(&u)),
            Err(e) => Err(e),
        }
    }
}

} // verus!
