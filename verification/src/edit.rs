use vstd::prelude::*;

use crate::dim::{names_of, spec_index_of, Axis, DimList, Shape};
use crate::error::ShapeError;
use crate::list::{
    contains_position, lemma_list_indexes_of_props, spec_list_index_of, spec_list_indexes_of,
    strip_positions, to_int_seq,
};
use crate::size::Size;

verus! {

/// Placing a new axis at the end of a shape.
pub struct DAppendFunctor;

impl DAppendFunctor {
    /// The shape with `axis` placed after the last axis.  Always succeeds,
    /// also on the scalar shape.
    pub fn apply(shape: &Shape, axis: Axis) -> (r: Shape)
        ensures
            r@ == shape@.push(axis),
    {
        let mut out = shape.duplicate();
        out.axes.push(axis);
        out
    }
}

/// Placing a new axis at the head of a shape.
pub struct DPrependFunctor;

impl DPrependFunctor {
    /// The shape with `axis` placed before the first axis.  Always
    /// succeeds.
    pub fn apply(shape: &Shape, axis: Axis) -> (r: Shape)
        ensures
            r@ == seq![axis] + shape@,
    {
        let mut out = Shape::scalar();
        out.axes.push(axis);
        let mut i: usize = 0;
        while i < shape.axes.len()
            invariant
                i <= shape.axes.len(),
                out@ == seq![axis] + shape@.take(i as int),
            decreases shape.axes.len() - i,
        {
            out.axes.push(shape.axes[i]);
            assert(out@ =~= seq![axis] + shape@.take(i + 1));
            i = i + 1;
        }
        assert(out@ =~= seq![axis] + shape@);
        out
    }
}

/// The sequence with `axis` inserted so that it lands at `position`.
pub open spec fn spec_insert_at(s: Seq<Axis>, position: int, axis: Axis) -> Seq<Axis> {
    s.take(position) + seq![axis] + s.skip(position)
}

impl Shape {
    /// The shape with `axis` inserted at `position`, shifting the axes
    /// from `position` onward one place toward the tail.
    pub fn insert_at_position(&self, position: usize, axis: Axis) -> (r: Shape)
        requires
            position <= self@.len(),
        ensures
            r@ == spec_insert_at(self@, position as int, axis),
    {
        let mut out = self.duplicate();
        let n = out.axes.len();
        proof {
            assert(position <= n);
        }
        out.axes.insert(position, axis);
        proof {
            assert(out@ =~= spec_insert_at(self@, position as int, axis));
        }
        out
    }

    /// The shape with a new axis placed immediately after the first axis
    /// named `target`; `NameNotFound` when `target` is absent.
    pub fn insert_after(&self, target: u64, axis: Axis) -> (r: Result<Shape, ShapeError>)
        ensures
            match r {
                Ok(v) => spec_index_of(self@, target) matches Ok(i) && v@ == spec_insert_at(
                    self@,
                    i + 1,
                    axis,
                ),
                Err(e) => spec_index_of(self@, target) == Err::<int, ShapeError>(e),
            },
    {
        let i = match self.index_of(target) {
            Ok(i) => i,
            Err(e) => {
                return Err(e);
            },
        };
        proof {
            crate::dim::lemma_index_of_props(self@, target);
        }
        let n = self.axes.len();
        proof {
            assert(i < n);
        }
        Ok(self.insert_at_position(i + 1, axis))
    }

    /// The shape with a broadcastable singleton axis named `new_name`
    /// placed immediately after the first axis named `target`;
    /// `NameNotFound` when `target` is absent.
    pub fn expand_at(&self, target: u64, new_name: u64) -> (r: Result<Shape, ShapeError>)
        ensures
            match r {
                Ok(v) => spec_index_of(self@, target) matches Ok(i) && v@ == spec_insert_at(
                    self@,
                    i + 1,
                    Axis { name: new_name, size: Size::Known(1) },
                ),
                Err(e) => spec_index_of(self@, target) == Err::<int, ShapeError>(e),
            },
    {
        self.insert_after(target, Axis { name: new_name, size: Size::Known(1) })
    }

    /// The shape with a broadcastable singleton axis named `new_name`
    /// placed at the end.  Always succeeds.
    pub fn expand_at_end(&self, new_name: u64) -> (r: Shape)
        ensures
            r@ == self@.push(Axis { name: new_name, size: Size::Known(1) }),
    {
        DAppendFunctor::apply(self, Axis { name: new_name, size: Size::Known(1) })
    }

    /// The shape without the first axis named `target`, along with that
    /// axis's original position; `NameNotFound` when `target` is absent.
    pub fn remove_at(&self, target: u64) -> (r: Result<(Shape, usize), ShapeError>)
        ensures
            match r {
                Ok(v) => spec_index_of(self@, target) matches Ok(i) && v.1 == i && v.0@
                    == self@.take(i) + self@.skip(i + 1),
                Err(e) => spec_index_of(self@, target) == Err::<int, ShapeError>(e),
            },
    {
        let i = match self.index_of(target) {
            Ok(i) => i,
            Err(e) => {
                return Err(e);
            },
        };
        proof {
            crate::dim::lemma_index_of_props(self@, target);
        }
        let mut out = self.duplicate();
        out.axes.remove(i);
        proof {
            assert(out@ =~= self@.take(i as int) + self@.skip(i + 1));
        }
        Ok((out, i))
    }

    /// The shape without the target axes, along with their positions in
    /// the original shape, in target order.  Positions are collected
    /// against the original shape first, and the marked axes are struck
    /// out in a second pass, so every reported position stays valid;
    /// `NameNotFound` names the leftmost absent target.
    #[verifier::loop_isolation(false)]
    pub fn remove_many(&self, targets: &Vec<u64>) -> (r: Result<(Shape, Vec<usize>), ShapeError>)
        ensures
            match r {
                Ok(v) => spec_list_indexes_of(names_of(self@), targets@) matches Ok(ps)
                    && to_int_seq(v.1@) == ps && v.0@ == strip_positions(self@, ps),
                Err(e) => spec_list_indexes_of(names_of(self@), targets@) == Err::<
                    Seq<int>,
                    ShapeError,
                >(e),
            },
    {
        let ps = match self.indexes_of(targets) {
            Ok(ps) => ps,
            Err(e) => {
                return Err(e);
            },
        };
        let ghost psm = to_int_seq(ps@);
        let mut out = Shape::scalar();
        let mut i: usize = 0;
        while i < self.axes.len()
            invariant
                i <= self.axes.len(),
                out@ == strip_positions(self@.take(i as int), psm),
            decreases self.axes.len() - i,
        {
            let ghost pre = self@.take(i as int);
            let ghost post = self@.take(i + 1);
            proof {
                assert(post.drop_last() =~= pre);
                assert(post.last() == self@[i as int]);
            }
            let ghost outpre = out@;
            if !contains_position(&ps, i) {
                out.axes.push(self.axes[i]);
                proof {
                    assert(!psm.contains(post.len() - 1));
                    assert(strip_positions(post, psm) == strip_positions(pre, psm) + seq![
                        self@[i as int],
                    ]);
                    assert(out@ =~= outpre + seq![self@[i as int]]);
                }
            } else {
                proof {
                    assert(psm.contains(post.len() - 1));
                    assert(strip_positions(post, psm) == strip_positions(pre, psm));
                }
            }
            i = i + 1;
        }
        proof {
            assert(self@.take(self@.len() as int) =~= self@);
        }
        Ok((out, ps))
    }

    /// The shape with the size of the first axis named `target` replaced
    /// by `new_size`, along with that axis's position; `NameNotFound` when
    /// `target` is absent.
    pub fn set_size(&self, target: u64, new_size: Size) -> (r: Result<(Shape, usize), ShapeError>)
        ensures
            match r {
                Ok(v) => spec_index_of(self@, target) matches Ok(i) && v.1 == i && v.0@
                    == self@.update(
                    i,
                    Axis { name: target, size: new_size },
                ),
                Err(e) => spec_index_of(self@, target) == Err::<int, ShapeError>(e),
            },
    {
        let i = match self.index_of(target) {
            Ok(i) => i,
            Err(e) => {
                return Err(e);
            },
        };
        proof {
            crate::dim::lemma_index_of_props(self@, target);
        }
        let mut out = self.duplicate();
        out.axes.set(i, Axis { name: target, size: new_size });
        Ok((out, i))
    }
}

/// The sequence with the size at every position of `ps` replaced by `sz`;
/// names and order stay as they are.
pub open spec fn spec_set_positions(s: Seq<Axis>, ps: Seq<int>, sz: Size) -> Seq<Axis> {
    Seq::new(
        s.len(),
        |i: int|
            if ps.contains(i) {
                Axis { name: s[i].name, size: sz }
            } else {
                s[i]
            },
    )
}

impl Shape {
    /// The shape with the sizes of all target axes replaced by
    /// `new_size`, along with their positions in target order;
    /// `NameNotFound` names the leftmost absent target.
    #[verifier::loop_isolation(false)]
    pub fn set_many_sizes(&self, targets: &Vec<u64>, new_size: Size) -> (r: Result<
        (Shape, Vec<usize>),
        ShapeError,
    >)
        ensures
            match r {
                Ok(v) => spec_list_indexes_of(names_of(self@), targets@) matches Ok(ps)
                    && to_int_seq(v.1@) == ps && v.0@ == spec_set_positions(self@, ps, new_size),
                Err(e) => spec_list_indexes_of(names_of(self@), targets@) == Err::<
                    Seq<int>,
                    ShapeError,
                >(e),
            },
    {
        let ps = match self.indexes_of(targets) {
            Ok(ps) => ps,
            Err(e) => {
                return Err(e);
            },
        };
        let ghost psm = to_int_seq(ps@);
        let mut out = Shape::scalar();
        let mut i: usize = 0;
        while i < self.axes.len()
            invariant
                i <= self.axes.len(),
                out@ == spec_set_positions(self@, psm, new_size).take(i as int),
            decreases self.axes.len() - i,
        {
            if contains_position(&ps, i) {
                out.axes.push(Axis { name: self.axes[i].name, size: new_size });
            } else {
                out.axes.push(self.axes[i]);
            }
            proof {
                assert(out@ =~= spec_set_positions(self@, psm, new_size).take(i + 1));
            }
            i = i + 1;
        }
        proof {
            assert(spec_set_positions(self@, psm, new_size).take(self@.len() as int)
                =~= spec_set_positions(self@, psm, new_size));
        }
        Ok((out, ps))
    }
}

/// Whether a position sequence names any position twice.
pub open spec fn has_duplicate(ps: Seq<int>) -> bool {
    exists|i: int, j: int| 0 <= i < j < ps.len() && ps[i] == ps[j]
}

/// The outcome of a permutation: the reordered shape and, for each output
/// position, the position its axis held in the input.  `RankMismatch` when
/// the target order is not a total reordering; `NameNotFound` names the
/// leftmost absent target.
pub open spec fn spec_permute(s: Seq<Axis>, ts: Seq<u64>) -> Result<
    (Seq<Axis>, Seq<int>),
    ShapeError,
> {
    if ts.len() != s.len() {
        Err(ShapeError::RankMismatch)
    } else {
        match spec_list_indexes_of(names_of(s), ts) {
            Err(e) => Err(e),
            Ok(ps) => if has_duplicate(ps) {
                Err(ShapeError::RankMismatch)
            } else {
                Ok((Seq::new(s.len(), |k: int| s[ps[k]]), ps))
            },
        }
    }
}

impl Shape {
    /// The shape reordered so that its axes appear exactly in the order
    /// `targets`, along with the permutation vector: entry `k` is the
    /// input position of the axis now standing at position `k`.  Every
    /// input axis must be named exactly once: a target list of the wrong
    /// length or with a repeated name is `RankMismatch`, and an absent
    /// name is `NameNotFound`.
    #[verifier::loop_isolation(false)]
    pub fn permute(&self, targets: &Vec<u64>) -> (r: Result<(Shape, Vec<usize>), ShapeError>)
        ensures
            match r {
                Ok(v) => spec_permute(self@, targets@) matches Ok(p) && v.0@ == p.0 && to_int_seq(
                    v.1@,
                ) == p.1,
                Err(e) => spec_permute(self@, targets@) == Err::<
                    (Seq<Axis>, Seq<int>),
                    ShapeError,
                >(e),
            },
    {
        if targets.len() != self.axes.len() {
            return Err(ShapeError::RankMismatch);
        }
        let ps = match self.indexes_of(targets) {
            Ok(ps) => ps,
            Err(e) => {
                return Err(e);
            },
        };
        let ghost psm = to_int_seq(ps@);
        proof {
            lemma_list_indexes_of_props(names_of(self@), targets@);
        }
        let mut i: usize = 0;
        while i < ps.len()
            invariant
                i <= ps.len(),
                forall|a: int, b: int| 0 <= a < b < ps.len() && a < i ==> psm[a] != psm[b],
            decreases ps.len() - i,
        {
            let mut j: usize = i + 1;
            while j < ps.len()
                invariant
                    i < ps.len(),
                    i < j,
                    j <= ps.len(),
                    forall|b: int| i < b < j ==> psm[i as int] != psm[b],
                decreases ps.len() - j,
            {
                if ps[j] == ps[i] {
                    proof {
                        assert(psm[i as int] == ps@[i as int] as int);
                        assert(psm[j as int] == ps@[j as int] as int);
                        assert((i as int) < (j as int) && (j as int) < psm.len() && psm[i as int]
                            == psm[j as int]);
                        assert(has_duplicate(psm));
                    }
                    return Err(ShapeError::RankMismatch);
                }
                j = j + 1;
            }
            i = i + 1;
        }
        proof {
            assert(!has_duplicate(psm));
        }
        let mut out = Shape::scalar();
        let mut k: usize = 0;
        proof {
            assert(names_of(self@).len() == self@.len());
        }
        while k < ps.len()
            invariant
                k <= ps.len(),
                out@ == Seq::new(self@.len(), |m: int| self@[psm[m]]).take(k as int),
            decreases ps.len() - k,
        {
            proof {
                assert(spec_list_index_of(names_of(self@), targets@[k as int]) == Ok::<
                    int,
                    ShapeError,
                >(psm[k as int]));
                crate::list::lemma_list_index_of_props(names_of(self@), targets@[k as int]);
            }
            out.axes.push(self.axes[ps[k]]);
            proof {
                assert(out@ =~= Seq::new(self@.len(), |m: int| self@[psm[m]]).take(k + 1));
            }
            k = k + 1;
        }
        proof {
            assert(Seq::new(self@.len(), |m: int| self@[psm[m]]).take(self@.len() as int)
                =~= Seq::new(self@.len(), |m: int| self@[psm[m]]));
        }
        Ok((out, ps))
    }
}

/// Marking one axis for a later pass.
pub trait DMark: DimList {
    /// One flag per axis, raised exactly on the first axis named
    /// `target`, along with that axis's position; `NameNotFound` when
    /// `target` is absent.
    fn mark(&self, target: u64) -> (r: Result<(Vec<bool>, usize), ShapeError>)
        ensures
            match r {
                Ok(v) => spec_index_of(self.dims(), target) matches Ok(i) && v.1 == i && v.0@.len()
                    == self.dims().len() && (forall|k: int|
                    0 <= k < self.dims().len() ==> v.0@[k] == (k == i)),
                Err(e) => spec_index_of(self.dims(), target) == Err::<int, ShapeError>(e),
            },
    ;
}

/// Marking several axes in one left-to-right pass.
pub trait DMarkMany: DimList {
    /// One flag per axis, raised exactly on the positions of the targets,
    /// along with those positions in target order.  This is the first half
    /// of the mark-then-strip discipline: positions are resolved against
    /// the unchanged shape, so none is invalidated by a later removal;
    /// `NameNotFound` names the leftmost absent target.
    fn mark_many(&self, targets: &Vec<u64>) -> (r: Result<(Vec<bool>, Vec<usize>), ShapeError>)
        ensures
            match r {
                Ok(v) => spec_list_indexes_of(names_of(self.dims()), targets@) matches Ok(ps)
                    && to_int_seq(v.1@) == ps && v.0@.len() == self.dims().len() && (forall|k: int|
                    0 <= k < self.dims().len() ==> v.0@[k] == ps.contains(k)),
                Err(e) => spec_list_indexes_of(names_of(self.dims()), targets@) == Err::<
                    Seq<int>,
                    ShapeError,
                >(e),
            },
    ;
}

impl DMark for Shape {
    #[verifier::loop_isolation(false)]
    fn mark(&self, target: u64) -> (r: Result<(Vec<bool>, usize), ShapeError>) {
        let i = match self.index_of(target) {
            Ok(i) => i,
            Err(e) => {
                return Err(e);
            },
        };
        proof {
            crate::dim::lemma_index_of_props(self@, target);
        }
        let mut flags: Vec<bool> = Vec::new();
        let mut k: usize = 0;
        while k < self.axes.len()
            invariant
                k <= self.axes.len(),
                flags@.len() == k,
                forall|m: int| 0 <= m < k ==> flags@[m] == (m == i as int),
            decreases self.axes.len() - k,
        {
            flags.push(k == i);
            k = k + 1;
        }
        Ok((flags, i))
    }
}

impl DMarkMany for Shape {
    #[verifier::loop_isolation(false)]
    fn mark_many(&self, targets: &Vec<u64>) -> (r: Result<(Vec<bool>, Vec<usize>), ShapeError>) {
        let ps = match self.indexes_of(targets) {
            Ok(ps) => ps,
            Err(e) => {
                return Err(e);
            },
        };
        let ghost psm = to_int_seq(ps@);
        let mut flags: Vec<bool> = Vec::new();
        let mut k: usize = 0;
        while k < self.axes.len()
            invariant
                k <= self.axes.len(),
                flags@.len() == k,
                forall|m: int| 0 <= m < k ==> flags@[m] == psm.contains(m),
            decreases self.axes.len() - k,
        {
            flags.push(contains_position(&ps, k));
            k = k + 1;
        }
        Ok((flags, ps))
    }
}

} // verus!
