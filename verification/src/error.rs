use vstd::prelude::*;

verus! {

/// The ways a shape operation can reject its operands.  Every error is a
/// deterministic function of the inputs; nothing here is transient.
#[derive(Clone, Copy, Debug, PartialEq, Eq, Structural)]
pub enum ShapeError {
    /// An operation referenced a dimension name absent from the shape.
    NameNotFound(u64),
    /// A range operation's begin name stands after its end name.
    OrderViolation,
    /// Two sizes that should unify differ, and neither is the
    /// broadcasting-exempt known size one.
    IncompatibleSizes,
    /// The shared matmul axis has two known, unequal sizes.
    IncompatibleContraction,
    /// Concatenation operands differ in an axis other than the target.
    ShapeMismatch,
    /// An operation expected a specific axis count and got another.
    RankMismatch,
}

} // verus!
