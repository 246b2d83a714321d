use vstd::prelude::*;

use crate::error::ShapeError;
use crate::size::Size;

verus! {

/// One axis of a shape: a symbolic name paired with a size.
#[derive(Clone, Copy, Debug, PartialEq, Eq, Structural)]
pub struct Axis {
    pub name: u64,
    pub size: Size,
}

/// Read access to one dimension.
pub trait Dim: Sized {
    /// The axis value this dimension stands for.
    spec fn axis(&self) -> Axis;

    /// The symbolic name of the dimension.
    fn name(&self) -> (r: u64)
        ensures
            r == self.axis().name,
    ;

    /// The size of the dimension.
    fn size(&self) -> (r: Size)
        ensures
            r == self.axis().size,
    ;
}

impl Dim for Axis {
    open spec fn axis(&self) -> Axis {
        *self
    }

    fn name(&self) -> (r: u64) {
        self.name
    }

    fn size(&self) -> (r: Size) {
        self.size
    }
}

/// The names of a dimension sequence, in order.
pub open spec fn names_of(s: Seq<Axis>) -> Seq<u64> {
    s.map_values(|a: Axis| a.name)
}

/// A well-formed dimension sequence carries no duplicate names.
pub open spec fn wf_dims(s: Seq<Axis>) -> bool {
    forall|i: int, j: int| 0 <= i < j < s.len() ==> s[i].name != s[j].name
}

/// Whether some axis of `s` carries the name `n`.
pub open spec fn has_dim(s: Seq<Axis>, n: u64) -> bool {
    exists|i: int| 0 <= i < s.len() && s[i].name == n
}

/// The position of the first axis named `n`, scanning head to tail;
/// `NameNotFound` if no axis carries that name.
pub open spec fn spec_index_of(s: Seq<Axis>, n: u64) -> Result<int, ShapeError>
    decreases s.len(),
{
    if s.len() == 0 {
        Err(ShapeError::NameNotFound(n))
    } else if s[0].name == n {
        Ok(0)
    } else {
        match spec_index_of(s.skip(1), n) {
            Ok(i) => Ok(i + 1),
            Err(e) => Err(e),
        }
    }
}

/// What `spec_index_of` finds: on success the first position carrying the
/// name, on failure the absence of the name.
pub proof fn lemma_index_of_props(s: Seq<Axis>, n: u64)
    ensures
        match spec_index_of(s, n) {
            Ok(i) => 0 <= i < s.len() && s[i].name == n && (forall|k: int|
                0 <= k < i ==> s[k].name != n),
            Err(e) => e == ShapeError::NameNotFound(n) && !has_dim(s, n),
        },
    decreases s.len(),
{
    if s.len() == 0 {
    } else if s[0].name == n {
    } else {
        lemma_index_of_props(s.skip(1), n);
        match spec_index_of(s.skip(1), n) {
            Ok(i) => {
                assert forall|k: int| 0 <= k < i + 1 implies s[k].name != n by {
                    if k > 0 {
                        assert(s.skip(1)[k - 1].name != n);
                    }
                }
            },
            Err(_) => {
                assert forall|k: int| 0 <= k < s.len() implies s[k].name != n by {
                    if k > 0 {
                        assert(!has_dim(s.skip(1), n));
                        assert(s.skip(1)[k - 1].name != n);
                    }
                }
            },
        }
    }
}

/// A list of ordered, named dimensions.
pub trait DimList: Sized {
    /// The sequence of axes this value stands for.
    spec fn dims(&self) -> Seq<Axis>;
}

/// A shape: an ordered sequence of named axes, the empty sequence standing
/// for a scalar.  Shapes are value types: every operation returns a new
/// shape and none mutates its input.
#[derive(Debug)]
pub struct Shape {
    pub axes: Vec<Axis>,
}

impl View for Shape {
    type V = Seq<Axis>;

    open spec fn view(&self) -> Seq<Axis> {
        self.axes@
    }
}

impl DimList for Shape {
    open spec fn dims(&self) -> Seq<Axis> {
        self@
    }
}

impl Shape {
    /// Well-formedness: no two axes share a name.
    pub open spec fn wf(&self) -> bool {
        wf_dims(self@)
    }

    /// The scalar shape, with no axes.
    pub fn scalar() -> (r: Shape)
        ensures
            r@ == Seq::<Axis>::empty(),
    {
        Shape { axes: Vec::new() }
    }

    /// Builds a shape directly from a vector of axes.
    pub fn from_axes(axes: Vec<Axis>) -> (r: Shape)
        ensures
            r@ == axes@,
    {
        Shape { axes }
    }

    /// The axis at position `i`.
    pub fn axis_at(&self, i: usize) -> (r: Axis)
        requires
            i < self@.len(),
        ensures
            r == self@[i as int],
    {
        self.axes[i]
    }

    /// A copy of this shape.
    pub fn duplicate(&self) -> (r: Shape)
        ensures
            r@ == self@,
    {
        let mut axes: Vec<Axis> = Vec::new();
        let mut i: usize = 0;
        while i < self.axes.len()
            invariant
                i <= self.axes.len(),
                axes@ == self.axes@.take(i as int),
            decreases self.axes.len() - i,
        {
            axes.push(self.axes[i]);
            assert(axes@ =~= self.axes@.take(i + 1));
            i = i + 1;
        }
        assert(axes@ =~= self.axes@);
        Shape { axes }
    }

    /// The position of the first axis named `n`; `NameNotFound` when the
    /// name is absent.  Succeeds exactly when the name occurs in the shape.
    pub fn index_of(&self, n: u64) -> (r: Result<usize, ShapeError>)
        ensures
            match r {
                Ok(i) => spec_index_of(self@, n) == Ok::<int, ShapeError>(i as int),
                Err(e) => spec_index_of(self@, n) == Err::<int, ShapeError>(e),
            },
    {
        proof {
            lemma_index_of_props(self@, n);
        }
        let mut i: usize = 0;
        while i < self.axes.len()
            invariant
                i <= self.axes.len(),
                forall|k: int| 0 <= k < i ==> self@[k].name != n,
                match spec_index_of(self@, n) {
                    Ok(j) => 0 <= j < self@.len() && self@[j].name == n && (forall|k: int|
                        0 <= k < j ==> self@[k].name != n),
                    Err(e) => e == ShapeError::NameNotFound(n) && !has_dim(self@, n),
                },
            decreases self.axes.len() - i,
        {
            if self.axes[i].name == n {
                proof {
                    match spec_index_of(self@, n) {
                        Ok(j) => {
                            if j < i as int {
                                assert(self@[j].name != n);
                            }
                            if j > i as int {
                                assert(self@[i as int].name != n);
                            }
                        },
                        Err(_) => {
                            assert(has_dim(self@, n));
                        },
                    }
                }
                return Ok(i);
            }
            i = i + 1;
        }
        proof {
            match spec_index_of(self@, n) {
                Ok(j) => {
                    assert(self@[j].name != n);
                },
                Err(_) => {},
            }
        }
        Err(ShapeError::NameNotFound(n))
    }

    /// The shape made of the first `n` axes.
    pub fn prefix(&self, n: usize) -> (r: Shape)
        requires
            n <= self@.len(),
        ensures
            r@ == self@.take(n as int),
    {
        let mut out = Shape::scalar();
        let mut i: usize = 0;
        while i < n
            invariant
                i <= n <= self@.len(),
                out@ == self@.take(i as int),
            decreases n - i,
        {
            out.axes.push(self.axes[i]);
            assert(out@ =~= self@.take(i + 1));
            i = i + 1;
        }
        out
    }

    /// The shape made of the axes from position `n` on.
    pub fn suffix(&self, n: usize) -> (r: Shape)
        requires
            n <= self@.len(),
        ensures
            r@ == self@.skip(n as int),
    {
        let mut out = Shape::scalar();
        let mut i: usize = n;
        while i < self.axes.len()
            invariant
                n <= i <= self@.len(),
                out@ == self@.subrange(n as int, i as int),
            decreases self@.len() - i,
        {
            out.axes.push(self.axes[i]);
            assert(out@ =~= self@.subrange(n as int, i + 1));
            i = i + 1;
        }
        proof {
            assert(out@ =~= self@.skip(n as int));
        }
        out
    }

    /// The names of the axes, in order.
    pub fn names(&self) -> (r: Vec<u64>)
        ensures
            r@ == names_of(self@),
    {
        let mut out: Vec<u64> = Vec::new();
        let mut i: usize = 0;
        while i < self.axes.len()
            invariant
                i <= self.axes.len(),
                out@ == names_of(self@).take(i as int),
            decreases self.axes.len() - i,
        {
            out.push(self.axes[i].name);
            assert(out@ =~= names_of(self@).take(i + 1));
            i = i + 1;
        }
        assert(out@ =~= names_of(self@));
        out
    }

    /// The size recorded for the axis named `n`.
    pub fn size_at(&self, n: u64) -> (r: Result<Size, ShapeError>)
        ensures
            match r {
                Ok(sz) => spec_index_of(self@, n) matches Ok(i) && self@[i].size == sz,
                Err(e) => spec_index_of(self@, n) == Err::<int, ShapeError>(e),
            },
    {
        proof {
            lemma_index_of_props(self@, n);
        }
        match self.index_of(n) {
            Ok(i) => Ok(self.axes[i].size),
            Err(e) => Err(e),
        }
    }
}

impl PartialEq for Shape {
    /// Two shapes are equal when their axis sequences are equal.
    fn eq(&self, other: &Shape) -> (r: bool) {
        if self.axes.len() != other.axes.len() {
            proof {
                assert(self@.len() != other@.len());
            }
            return false;
        }
        let mut i: usize = 0;
        while i < self.axes.len()
            invariant
                i <= self.axes.len(),
                self@.len() == other@.len(),
                forall|k: int| 0 <= k < i ==> self@[k] == other@[k],
            decreases self.axes.len() - i,
        {
            if self.axes[i] != other.axes[i] {
                return false;
            }
            i = i + 1;
        }
        proof {
            assert(self@ =~= other@);
        }
        true
    }
}

impl vstd::std_specs::cmp::PartialEqSpecImpl for Shape {
    open spec fn obeys_eq_spec() -> bool {
        true
    }

    open spec fn eq_spec(&self, other: &Shape) -> bool {
        self@ == other@
    }
}

} // verus!
