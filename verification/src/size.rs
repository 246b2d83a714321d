use vstd::prelude::*;

verus! {

/// The size of one dimension: a known non-negative integer, or unknown.
#[derive(Clone, Copy, Debug, PartialEq, Eq, Structural)]
pub enum Size {
    Known(u64),
    Unknown,
}

/// Sum of two sizes: known values add, and unknown poisons the result.
pub open spec fn spec_size_add(a: Size, b: Size) -> Size {
    match (a, b) {
        (Size::Known(x), Size::Known(y)) => Size::Known((x + y) as u64),
        _ => Size::Unknown,
    }
}

/// Whether the sum of two sizes stays inside the machine range.
pub open spec fn size_add_in_range(a: Size, b: Size) -> bool {
    match (a, b) {
        (Size::Known(x), Size::Known(y)) => x + y <= u64::MAX,
        _ => true,
    }
}

/// Product of two sizes: known values multiply, and unknown poisons the
/// result.
pub open spec fn spec_size_mul(a: Size, b: Size) -> Size {
    match (a, b) {
        (Size::Known(x), Size::Known(y)) => Size::Known((x * y) as u64),
        _ => Size::Unknown,
    }
}

/// Whether the product of two sizes stays inside the machine range.
pub open spec fn size_mul_in_range(a: Size, b: Size) -> bool {
    match (a, b) {
        (Size::Known(x), Size::Known(y)) => x * y <= u64::MAX,
        _ => true,
    }
}

/// Arithmetic over dimension sizes.
pub trait DimSize: Sized {
    /// The value `plus` returns.
    spec fn spec_plus(self, other: Self) -> Self;

    /// The value `times` returns.
    spec fn spec_times(self, other: Self) -> Self;

    /// Whether `plus` stays inside the machine range.
    spec fn plus_in_range(self, other: Self) -> bool;

    /// Whether `times` stays inside the machine range.
    spec fn times_in_range(self, other: Self) -> bool;

    /// Adds two sizes.
    fn plus(self, other: Self) -> (r: Self)
        requires
            self.plus_in_range(other),
        ensures
            r == self.spec_plus(other),
    ;

    /// Multiplies two sizes.
    fn times(self, other: Self) -> (r: Self)
        requires
            self.times_in_range(other),
        ensures
            r == self.spec_times(other),
    ;
}

impl DimSize for Size {
    open spec fn spec_plus(self, other: Self) -> Self {
        spec_size_add(self, other)
    }

    open spec fn spec_times(self, other: Self) -> Self {
        spec_size_mul(self, other)
    }

    open spec fn plus_in_range(self, other: Self) -> bool {
        size_add_in_range(self, other)
    }

    open spec fn times_in_range(self, other: Self) -> bool {
        size_mul_in_range(self, other)
    }

    fn plus(self, other: Self) -> (r: Self) {
        match (self, other) {
            (Size::Known(x), Size::Known(y)) => Size::Known(x + y),
            _ => Size::Unknown,
        }
    }

    fn times(self, other: Self) -> (r: Self) {
        match (self, other) {
            (Size::Known(x), Size::Known(y)) => Size::Known(x * y),
            _ => Size::Unknown,
        }
    }
}

/// Conversion from a size to a concrete optional integer.
pub trait SizeToOption: Sized {
    /// The value `to_option` returns.
    spec fn spec_to_option(self) -> Option<u64>;

    /// A known size becomes `Some` of its value; an unknown size becomes
    /// `None`.
    fn to_option(self) -> (r: Option<u64>)
        ensures
            r == self.spec_to_option(),
    ;
}

impl SizeToOption for Size {
    open spec fn spec_to_option(self) -> Option<u64> {
        match self {
            Size::Known(n) => Some(n),
            Size::Unknown => None,
        }
    }

    fn to_option(self) -> (r: Option<u64>) {
        match self {
            Size::Known(n) => Some(n),
            Size::Unknown => None,
        }
    }
}

/// Shorthand constructor for the unknown size value.
pub struct Unknown;

impl Unknown {
    /// Returns the unknown size.
    pub fn new() -> (r: Size)
        ensures
            r == Size::Unknown,
    {
        Size::Unknown
    }
}

} // verus!
