use vstd::prelude::*;

use crate::dim::{Axis, Shape};
use crate::size::Size;

verus! {

/// Whether a signed index value selects a valid offset on an axis of the
/// given size: a non-negative value counts from the head and must stay
/// below the size, a negative value counts from the tail and its
/// magnitude must not exceed the size; an unknown size admits nothing.
pub open spec fn in_bounds_signed(x: int, size: Size) -> bool {
    match size {
        Size::Known(n) => if x >= 0 {
            x < n
        } else {
            -x <= n
        },
        Size::Unknown => false,
    }
}

/// Whether a signed index value fits the machine index type.
pub open spec fn fits_i64(x: int) -> bool {
    -(i64::MAX as int) <= x <= i64::MAX as int
}

/// One index into one named axis.
pub trait TensorIndex: Sized {
    /// The signed value this index stands for: offsets from the head are
    /// non-negative, offsets from the tail are negative.
    spec fn signed(&self) -> int;

    /// The signed machine value of this index.
    fn to_i64(&self) -> (r: i64)
        requires
            fits_i64(self.signed()),
        ensures
            r as int == self.signed(),
    ;

    /// Whether this index selects a valid offset on an axis of the given
    /// size.
    fn bounded_by(&self, size: Size) -> (r: bool)
        ensures
            r == in_bounds_signed(self.signed(), size),
    ;
}

/// An index counting from the head of an axis, zero-based.
pub struct ForwardIndex {
    pub value: u64,
}

/// An index counting from the tail of an axis, one-based: a value of one
/// selects the last offset.  A value of zero stands, through the signed
/// encoding, for the head offset zero.
pub struct BackwardIndex {
    pub value: u64,
}

impl TensorIndex for ForwardIndex {
    open spec fn signed(&self) -> int {
        self.value as int
    }

    fn to_i64(&self) -> (r: i64) {
        self.value as i64
    }

    fn bounded_by(&self, size: Size) -> (r: bool) {
        match size {
            Size::Known(n) => self.value < n,
            Size::Unknown => false,
        }
    }
}

impl TensorIndex for BackwardIndex {
    open spec fn signed(&self) -> int {
        -(self.value as int)
    }

    fn to_i64(&self) -> (r: i64) {
        let v = self.value as i64;
        -v
    }

    fn bounded_by(&self, size: Size) -> (r: bool) {
        match size {
            Size::Known(n) => if self.value == 0 {
                0 < n
            } else {
                self.value <= n
            },
            Size::Unknown => false,
        }
    }
}

/// Whether every signed index of a sequence fits the machine index type.
pub open spec fn all_fit_i64(es: Seq<int>) -> bool
    decreases es.len(),
{
    if es.len() == 0 {
        true
    } else {
        fits_i64(es[0]) && all_fit_i64(es.skip(1))
    }
}

/// The view of a vector of machine indexes as mathematical integers.
pub open spec fn i64s_to_ints(s: Seq<i64>) -> Seq<int> {
    s.map_values(|x: i64| x as int)
}

/// A list of named indexes, one per axis.
pub trait IndexList: Sized {
    /// The signed index values, in order.
    spec fn entries(&self) -> Seq<int>;

    /// The axis names the indexes address, in order.
    spec fn inames(&self) -> Seq<u64>;

    /// The signed machine values of the indexes, in order.
    fn to_vec(&self) -> (r: Vec<i64>)
        requires
            all_fit_i64(self.entries()),
        ensures
            i64s_to_ints(r@) == self.entries(),
    ;

    /// Appends the signed machine values of the indexes to `prev`.
    fn append_vec(&self, prev: &mut Vec<i64>)
        requires
            all_fit_i64(self.entries()),
        ensures
            i64s_to_ints(final(prev)@) == i64s_to_ints(old(prev)@) + self.entries(),
    ;
}

/// The empty index list.
pub struct INil;

impl INil {
    /// Returns the empty index list.
    pub fn new() -> (r: INil)
        ensures
            r.entries() == Seq::<int>::empty(),
            r.inames() == Seq::<u64>::empty(),
    {
        INil
    }
}

/// A named index followed by the rest of an index list.
pub struct ICons<Idx: TensorIndex, Tail: IndexList> {
    pub name: u64,
    pub index: Idx,
    pub tail: Tail,
}

impl<Idx: TensorIndex, Tail: IndexList> ICons<Idx, Tail> {
    /// Returns the index list whose head addresses the axis `name` with
    /// `index` and whose rest is `tail`.
    pub fn new(name: u64, index: Idx, tail: Tail) -> (r: ICons<Idx, Tail>)
        ensures
            r.entries() == seq![index.signed()] + tail.entries(),
            r.inames() == seq![name] + tail.inames(),
    {
        ICons { name, index, tail }
    }
}

impl IndexList for INil {
    open spec fn entries(&self) -> Seq<int> {
        Seq::empty()
    }

    open spec fn inames(&self) -> Seq<u64> {
        Seq::empty()
    }

    fn to_vec(&self) -> (r: Vec<i64>) {
        let out: Vec<i64> = Vec::new();
        proof {
            assert(i64s_to_ints(out@) =~= Seq::<int>::empty());
        }
        out
    }

    fn append_vec(&self, prev: &mut Vec<i64>) {
        proof {
            assert(i64s_to_ints(prev@) =~= i64s_to_ints(prev@) + Seq::<int>::empty());
        }
    }
}

impl<Idx: TensorIndex, Tail: IndexList> IndexList for ICons<Idx, Tail> {
    open spec fn entries(&self) -> Seq<int> {
        seq![self.index.signed()] + self.tail.entries()
    }

    open spec fn inames(&self) -> Seq<u64> {
        seq![self.name] + self.tail.inames()
    }

    fn to_vec(&self) -> (r: Vec<i64>) {
        let mut out: Vec<i64> = Vec::new();
        self.append_vec(&mut out);
        proof {
            assert(i64s_to_ints(Seq::<i64>::empty()) =~= Seq::<int>::empty());
        }
        out
    }

    fn append_vec(&self, prev: &mut Vec<i64>) {
        proof {
            assert(self.entries()[0] == self.index.signed());
            assert(self.entries().skip(1) =~= self.tail.entries());
        }
        prev.push(self.index.to_i64());
        let ghost mid = prev@;
        self.tail.append_vec(prev);
        proof {
            assert(i64s_to_ints(mid) =~= i64s_to_ints(mid.drop_last()) + seq![
                self.index.signed(),
            ]);
        }
    }
}

/// Whether an index list addresses a shape axis for axis: one entry per
/// axis, each naming its axis and selecting a valid offset on it.
pub open spec fn spec_index_bounded(es: Seq<int>, ns: Seq<u64>, dims: Seq<Axis>) -> bool
    decreases dims.len(),
{
    if es.len() != dims.len() || ns.len() != dims.len() {
        false
    } else if dims.len() == 0 {
        true
    } else {
        ns[0] == dims[0].name && in_bounds_signed(es[0], dims[0].size) && spec_index_bounded(
            es.skip(1),
            ns.skip(1),
            dims.skip(1),
        )
    }
}

/// The bounds check of an index list against a shape.
pub trait IAssertBounded: IndexList {
    /// Whether this index list addresses every axis of `dims` in order
    /// and within bounds.
    fn assert_bounded(&self, dims: &Shape) -> (r: bool)
        ensures
            r == spec_index_bounded(self.entries(), self.inames(), dims@),
    ;
}

impl IAssertBounded for INil {
    fn assert_bounded(&self, dims: &Shape) -> (r: bool) {
        dims.axes.len() == 0
    }
}

impl<Idx: TensorIndex, Tail: IndexList + IAssertBounded> IAssertBounded for ICons<Idx, Tail> {
    fn assert_bounded(&self, dims: &Shape) -> (r: bool) {
        proof {
            assert(self.entries().len() == 1 + self.tail.entries().len());
            assert(self.inames().len() == 1 + self.tail.inames().len());
        }
        if dims.axes.len() == 0 {
            return false;
        }
        proof {
            assert(self.entries()[0] == self.index.signed());
            assert(self.inames()[0] == self.name);
            assert(self.entries().skip(1) =~= self.tail.entries());
            assert(self.inames().skip(1) =~= self.tail.inames());
        }
        if self.name != dims.axes[0].name {
            return false;
        }
        if !self.index.bounded_by(dims.axes[0].size) {
            return false;
        }
        let rest = dims.suffix(1);
        self.tail.assert_bounded(&rest)
    }
}

} // verus!
