use vstd::prelude::*;

verus! {

/// The mode of a reduction: whether each reduced axis stays behind as a
/// singleton or disappears.
pub trait KeepDim: Sized {
    /// Whether this mode keeps the reduced axes.
    spec fn keep_spec(&self) -> bool;
}

/// A reduction mode as a runtime flag.
pub trait KeepDimOrNot: KeepDim {
    /// The flag this mode stands for.
    fn keep(&self) -> (r: bool)
        ensures
            r == self.keep_spec(),
    ;
}

/// The mode that keeps each reduced axis in place with size one.
pub struct DoKeepDim;

/// The mode that strikes each reduced axis out.
pub struct NoKeepDim;

impl KeepDim for DoKeepDim {
    open spec fn keep_spec(&self) -> bool {
        true
    }
}

impl KeepDimOrNot for DoKeepDim {
    fn keep(&self) -> (r: bool) {
        true
    }
}

impl KeepDim for NoKeepDim {
    open spec fn keep_spec(&self) -> bool {
        false
    }
}

impl KeepDimOrNot for NoKeepDim {
    fn keep(&self) -> (r: bool) {
        false
    }
}

} // verus!
