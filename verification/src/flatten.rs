use vstd::prelude::*;

use crate::dim::{spec_index_of, Axis, DimList, Shape};
use crate::error::ShapeError;
use crate::size::Size;

verus! {

/// The factor an axis contributes to a flattened size: its value when
/// known, and a neutral one otherwise.
pub open spec fn size_factor(a: Axis) -> int {
    match a.size {
        Size::Known(n) => n as int,
        Size::Unknown => 1,
    }
}

/// Whether every axis of a run has a known size.
pub open spec fn run_known(s: Seq<Axis>) -> bool {
    forall|k: int| 0 <= k < s.len() ==> s[k].size is Known
}

/// The product of the known factors of a run.
pub open spec fn run_prod(s: Seq<Axis>) -> int
    decreases s.len(),
{
    if s.len() == 0 {
        1
    } else {
        run_prod(s.drop_last()) * size_factor(s.last())
    }
}

/// The size of the axis that replaces a flattened run: the product of the
/// run's sizes, with unknown poisoning the product.
pub open spec fn flat_size(s: Seq<Axis>) -> Size {
    if run_known(s) {
        Size::Known(run_prod(s) as u64)
    } else {
        Size::Unknown
    }
}

/// Whether the running products over a fully known run stay inside the
/// machine range.
pub open spec fn run_fits(s: Seq<Axis>) -> bool {
    run_known(s) ==> (forall|i: int| 0 <= i <= s.len() ==> run_prod(s.take(i)) <= u64::MAX)
}

/// One step of the running product.
pub proof fn lemma_run_prod_step(s: Seq<Axis>, m: int)
    requires
        0 <= m < s.len(),
    ensures
        run_prod(s.take(m + 1)) == run_prod(s.take(m)) * size_factor(s[m]),
{
    assert(s.take(m + 1).drop_last() =~= s.take(m));
    assert(s.take(m + 1).last() == s[m]);
}

/// A product of axis factors is never negative.
pub proof fn lemma_run_prod_nonneg(s: Seq<Axis>)
    ensures
        run_prod(s) >= 0,
    decreases s.len(),
{
    if s.len() == 0 {
    } else {
        lemma_run_prod_nonneg(s.drop_last());
        let a = run_prod(s.drop_last());
        let b = size_factor(s.last());
        assert(b >= 0);
        assert(a * b >= 0) by (nonlinear_arith)
            requires
                a >= 0,
                b >= 0,
        ;
    }
}

/// The shape after replacing the run from position `b` to position `e`,
/// both included, with one axis named `nm` whose size is the product of
/// the run.
pub open spec fn spec_flatten_positions(s: Seq<Axis>, nm: u64, b: int, e: int) -> Seq<Axis>
    recommends
        0 <= b <= e < s.len(),
{
    s.take(b) + seq![Axis { name: nm, size: flat_size(s.subrange(b, e + 1)) }] + s.skip(e + 1)
}

/// The outcome of a name-directed flatten: the begin and end names are
/// resolved to positions, the begin position must not come after the end
/// position (`OrderViolation` otherwise), and the run between them is
/// collapsed; an absent name is `NameNotFound`, the begin name first.
pub open spec fn spec_flatten(s: Seq<Axis>, nm: u64, bn: u64, en: u64) -> Result<
    (Seq<Axis>, int, int),
    ShapeError,
> {
    match spec_index_of(s, bn) {
        Err(e) => Err(e),
        Ok(b) => match spec_index_of(s, en) {
            Err(e) => Err(e),
            Ok(e) => if e < b {
                Err(ShapeError::OrderViolation)
            } else {
                Ok((spec_flatten_positions(s, nm, b, e), b, e))
            },
        },
    }
}

/// Whether a name-directed flatten stays inside the machine range.
pub open spec fn flatten_fits(s: Seq<Axis>, bn: u64, en: u64) -> bool {
    match spec_index_of(s, bn) {
        Err(_) => true,
        Ok(b) => match spec_index_of(s, en) {
            Err(_) => true,
            Ok(e) => if e < b {
                true
            } else {
                run_fits(s.subrange(b, e + 1))
            },
        },
    }
}

/// Position-directed flattening, the core the name-directed forms resolve
/// to.
pub trait DFlatteningOp: DimList {
    /// The shape with the axes from position `begin` to position `end`,
    /// both included, replaced by one axis named `new_name` carrying the
    /// product of their sizes; unknown poisons the product.
    fn flattening(&self, new_name: u64, begin: usize, end: usize) -> (r: Shape)
        requires
            begin <= end,
            end < self.dims().len(),
            run_fits(self.dims().subrange(begin as int, end + 1)),
        ensures
            r@ == spec_flatten_positions(self.dims(), new_name, begin as int, end as int),
    ;
}

/// Flattening a named run of axes.
pub trait DFlattenOp: DimList {
    /// The shape with the run from `begin_name` to `end_name`, both
    /// included, replaced by one axis named `new_name`, along with the
    /// begin and end positions of the replaced run.
    fn flatten(&self, new_name: u64, begin_name: u64, end_name: u64) -> (r: Result<
        (Shape, usize, usize),
        ShapeError,
    >)
        requires
            flatten_fits(self.dims(), begin_name, end_name),
        ensures
            match r {
                Ok(v) => spec_flatten(self.dims(), new_name, begin_name, end_name) == Ok::<
                    (Seq<Axis>, int, int),
                    ShapeError,
                >((v.0@, v.1 as int, v.2 as int)),
                Err(e) => spec_flatten(self.dims(), new_name, begin_name, end_name) == Err::<
                    (Seq<Axis>, int, int),
                    ShapeError,
                >(e),
            },
    ;
}

/// Position-directed flattening of a trailing run.
pub trait DFlatteningFromOp: DimList {
    /// The shape with every axis from position `begin` to the tail
    /// replaced by one axis named `new_name`.
    fn flattening_from(&self, new_name: u64, begin: usize) -> (r: Shape)
        requires
            begin < self.dims().len(),
            run_fits(self.dims().subrange(begin as int, self.dims().len() as int)),
        ensures
            r@ == spec_flatten_positions(
                self.dims(),
                new_name,
                begin as int,
                self.dims().len() - 1,
            ),
    ;
}

/// Flattening from a named axis through the tail.
pub trait DFlattenFromOp: DimList {
    /// The shape with every axis from `begin_name` to the tail replaced
    /// by one axis named `new_name`, along with the position at which the
    /// run began.
    fn flatten_from(&self, new_name: u64, begin_name: u64) -> (r: Result<
        (Shape, usize),
        ShapeError,
    >)
        requires
            (spec_index_of(self.dims(), begin_name) matches Ok(b) ==> run_fits(
                self.dims().subrange(b, self.dims().len() as int),
            )),
        ensures
            match r {
                Ok(v) => spec_index_of(self.dims(), begin_name) matches Ok(b) && v.1 == b && v.0@
                    == spec_flatten_positions(self.dims(), new_name, b, self.dims().len() - 1),
                Err(e) => spec_index_of(self.dims(), begin_name) == Err::<int, ShapeError>(e),
            },
    ;
}

/// Position-directed flattening of a leading run.
pub trait DFlatteningUntilOp: DimList {
    /// The shape with every axis from the head to position `end`,
    /// included, replaced by one axis named `new_name`.
    fn flattening_until(&self, new_name: u64, end: usize) -> (r: Shape)
        requires
            end < self.dims().len(),
            run_fits(self.dims().subrange(0, end + 1)),
        ensures
            r@ == spec_flatten_positions(self.dims(), new_name, 0, end as int),
    ;
}

/// Flattening from the head through a named axis.
pub trait DFlattenUntilOp: DimList {
    /// The shape with every axis from the head to `end_name`, included,
    /// replaced by one axis named `new_name`, along with the position at
    /// which the run ended.
    fn flatten_until(&self, new_name: u64, end_name: u64) -> (r: Result<
        (Shape, usize),
        ShapeError,
    >)
        requires
            (spec_index_of(self.dims(), end_name) matches Ok(e) ==> run_fits(
                self.dims().subrange(0, e + 1),
            )),
        ensures
            match r {
                Ok(v) => spec_index_of(self.dims(), end_name) matches Ok(e) && v.1 == e && v.0@
                    == spec_flatten_positions(self.dims(), new_name, 0, e),
                Err(e) => spec_index_of(self.dims(), end_name) == Err::<int, ShapeError>(e),
            },
    ;
}

impl DFlatteningOp for Shape {
    #[verifier::loop_isolation(false)]
    fn flattening(&self, new_name: u64, begin: usize, end: usize) -> (r: Shape) {
        let ghost run = self@.subrange(begin as int, end + 1);
        let n = self.axes.len();
        let mut all_known: bool = true;
        let mut i: usize = begin;
        while i <= end
            invariant
                begin <= i <= end + 1,
                end < n,
                n == self@.len(),
                all_known ==> (forall|k: int| 0 <= k < i - begin ==> run[k].size is Known),
                !all_known ==> (exists|k: int| 0 <= k < i - begin && run[k].size is Unknown),
            decreases end + 1 - i,
        {
            proof {
                assert(run[i - begin] == self@[i as int]);
            }
            match self.axes[i].size {
                Size::Known(_) => {},
                Size::Unknown => {
                    all_known = false;
                },
            }
            i = i + 1;
        }
        proof {
            assert(run.len() == end + 1 - begin);
            if all_known {
                assert(run_known(run));
            } else {
                assert(!run_known(run));
            }
        }
        let merged: Size;
        if all_known {
            let mut acc: u64 = 1;
            let mut i: usize = begin;
            proof {
                assert(run.take(0) =~= Seq::<Axis>::empty());
            }
            while i <= end
                invariant
                    begin <= i <= end + 1,
                    end < n,
                    n == self@.len(),
                    run_known(run),
                    run_fits(run),
                    acc as int == run_prod(run.take(i - begin)),
                decreases end + 1 - i,
            {
                let ghost m = i - begin;
                proof {
                    assert(run[m] == self@[i as int]);
                    lemma_run_prod_step(run, m);
                    lemma_run_prod_nonneg(run.take(m));
                    assert(run_prod(run.take(m + 1)) <= u64::MAX);
                }
                let f = match self.axes[i].size {
                    Size::Known(v) => v,
                    Size::Unknown => 1,
                };
                proof {
                    assert(f as int == size_factor(run[m]));
                    assert(acc as int * f as int == run_prod(run.take(m + 1)));
                    assert(acc as int * f as int >= 0) by (nonlinear_arith)
                        requires
                            acc as int >= 0,
                            f as int >= 0,
                    ;
                }
                acc = acc * f;
                i = i + 1;
            }
            proof {
                assert(run.take(run.len() as int) =~= run);
            }
            merged = Size::Known(acc);
        } else {
            merged = Size::Unknown;
        }
        let mut out = Shape::scalar();
        let mut i: usize = 0;
        while i < begin
            invariant
                i <= begin,
                begin <= self@.len(),
                out@ == self@.take(i as int),
            decreases begin - i,
        {
            out.axes.push(self.axes[i]);
            assert(out@ =~= self@.take(i + 1));
            i = i + 1;
        }
        out.axes.push(Axis { name: new_name, size: merged });
        let mut i: usize = end + 1;
        while i < n
            invariant
                end + 1 <= i <= n,
                n == self@.len(),
                out@ == self@.take(begin as int) + seq![
                    Axis { name: new_name, size: flat_size(run) },
                ] + self@.subrange(end + 1, i as int),
            decreases n - i,
        {
            out.axes.push(self.axes[i]);
            assert(out@ =~= self@.take(begin as int) + seq![
                Axis { name: new_name, size: flat_size(run) },
            ] + self@.subrange(end + 1, i + 1));
            i = i + 1;
        }
        proof {
            assert(self@.subrange(end + 1, n as int) =~= self@.skip(end + 1));
            assert(out@ =~= spec_flatten_positions(self@, new_name, begin as int, end as int));
        }
        out
    }
}

impl DFlattenOp for Shape {
    fn flatten(&self, new_name: u64, begin_name: u64, end_name: u64) -> (r: Result<
        (Shape, usize, usize),
        ShapeError,
    >) {
        let b = match self.index_of(begin_name) {
            Ok(b) => b,
            Err(e) => {
                return Err(e);
            },
        };
        let e = match self.index_of(end_name) {
            Ok(e) => e,
            Err(e) => {
                return Err(e);
            },
        };
        proof {
            crate::dim::lemma_index_of_props(self@, begin_name);
            crate::dim::lemma_index_of_props(self@, end_name);
        }
        if e < b {
            return Err(ShapeError::OrderViolation);
        }
        Ok((self.flattening(new_name, b, e), b, e))
    }
}

impl DFlatteningFromOp for Shape {
    fn flattening_from(&self, new_name: u64, begin: usize) -> (r: Shape) {
        let n = self.axes.len();
        self.flattening(new_name, begin, n - 1)
    }
}

impl DFlattenFromOp for Shape {
    fn flatten_from(&self, new_name: u64, begin_name: u64) -> (r: Result<
        (Shape, usize),
        ShapeError,
    >) {
        let b = match self.index_of(begin_name) {
            Ok(b) => b,
            Err(e) => {
                return Err(e);
            },
        };
        proof {
            crate::dim::lemma_index_of_props(self@, begin_name);
        }
        Ok((self.flattening_from(new_name, b), b))
    }
}

impl DFlatteningUntilOp for Shape {
    fn flattening_until(&self, new_name: u64, end: usize) -> (r: Shape) {
        self.flattening(new_name, 0, end)
    }
}

impl DFlattenUntilOp for Shape {
    fn flatten_until(&self, new_name: u64, end_name: u64) -> (r: Result<
        (Shape, usize),
        ShapeError,
    >) {
        let e = match self.index_of(end_name) {
            Ok(e) => e,
            Err(e) => {
                return Err(e);
            },
        };
        proof {
            crate::dim::lemma_index_of_props(self@, end_name);
        }
        Ok((self.flattening_until(new_name, e), e))
    }
}

} // verus!
