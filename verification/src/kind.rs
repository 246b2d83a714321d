use vstd::prelude::*;

verus! {

/// The element kind of a tensor, as far as shape inference needs to tell
/// kinds apart: a member of the integer, floating or complex family.
#[derive(Clone, Copy, Debug, PartialEq, Eq, Structural)]
pub enum Kind {
    Uint8,
    Int8,
    Int16,
    Int,
    Int64,
    Half,
    Float,
    Double,
    ComplexHalf,
    ComplexFloat,
    ComplexDouble,
}

/// Whether a kind belongs to the integer family.
pub open spec fn spec_is_integer(k: Kind) -> bool {
    match k {
        Kind::Uint8 | Kind::Int8 | Kind::Int16 | Kind::Int | Kind::Int64 => true,
        _ => false,
    }
}

/// Whether a kind belongs to the floating family.
pub open spec fn spec_is_float(k: Kind) -> bool {
    match k {
        Kind::Half | Kind::Float | Kind::Double => true,
        _ => false,
    }
}

/// Whether a kind belongs to the complex family.
pub open spec fn spec_is_complex(k: Kind) -> bool {
    match k {
        Kind::ComplexHalf | Kind::ComplexFloat | Kind::ComplexDouble => true,
        _ => false,
    }
}

/// Membership in the integer family.
pub trait IntegerKind: Sized {
    /// Whether `is_integer` holds.
    spec fn integer_spec(&self) -> bool;

    /// Whether this kind stores integers.
    fn is_integer(&self) -> (r: bool)
        ensures
            r == self.integer_spec(),
    ;
}

/// Membership in the floating family.
pub trait FloatKind: Sized {
    /// Whether `is_float` holds.
    spec fn float_spec(&self) -> bool;

    /// Whether this kind stores floating-point numbers.
    fn is_float(&self) -> (r: bool)
        ensures
            r == self.float_spec(),
    ;
}

/// Membership in the complex family.
pub trait ComplexKind: Sized {
    /// Whether `is_complex` holds.
    spec fn complex_spec(&self) -> bool;

    /// Whether this kind stores complex numbers.
    fn is_complex(&self) -> (r: bool)
        ensures
            r == self.complex_spec(),
    ;
}

impl IntegerKind for Kind {
    open spec fn integer_spec(&self) -> bool {
        spec_is_integer(*self)
    }

    fn is_integer(&self) -> (r: bool) {
        match self {
            Kind::Uint8 | Kind::Int8 | Kind::Int16 | Kind::Int | Kind::Int64 => true,
            _ => false,
        }
    }
}

impl FloatKind for Kind {
    open spec fn float_spec(&self) -> bool {
        spec_is_float(*self)
    }

    fn is_float(&self) -> (r: bool) {
        match self {
            Kind::Half | Kind::Float | Kind::Double => true,
            _ => false,
        }
    }
}

impl ComplexKind for Kind {
    open spec fn complex_spec(&self) -> bool {
        spec_is_complex(*self)
    }

    fn is_complex(&self) -> (r: bool) {
        match self {
            Kind::ComplexHalf | Kind::ComplexFloat | Kind::ComplexDouble => true,
            _ => false,
        }
    }
}

} // verus!
