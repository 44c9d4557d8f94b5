//! Positions as pairs of single-precision numbers, held by their bit patterns.
use vstd::prelude::*;

verus! {

/// All bits of a single-precision number but its sign.
pub const MAGNITUDE: u32 = 0x7fff_ffff;

/// The bit pattern of positive infinity; every magnitude above it is no number.
pub const INFINITY: u32 = 0x7f80_0000;

/// Whether `bits` is the pattern of a value that is not a number.
pub open spec fn is_nan(bits: u32) -> bool {
    (bits & MAGNITUDE) > INFINITY
}

/// Whether `bits` is the pattern of zero, of either sign.
pub open spec fn is_zero(bits: u32) -> bool {
    (bits & MAGNITUDE) == 0
}

/// Equality of two single-precision numbers, stated over their bit patterns:
/// nothing equals a value that is not a number, the two zeros are equal, and
/// every other value equals itself alone.
pub open spec fn same_number(a: u32, b: u32) -> bool {
    &&& !is_nan(a)
    &&& !is_nan(b)
    &&& (a == b || (is_zero(a) && is_zero(b)))
}

/// Latitude and longitude, each the bit pattern of a single-precision number.
#[derive(Debug, Clone, Copy, PartialEq, Eq)]
pub struct Coordinates {
    pub lat: u32,
    pub lon: u32,
}

impl Coordinates {
    /// Both numbers agree, with no tolerance.
    pub open spec fn same_place(self, other: Coordinates) -> bool {
        same_number(self.lat, other.lat) && same_number(self.lon, other.lon)
    }

    /// Neither latitude nor longitude is a value that is not a number.
    pub open spec fn is_numeric(self) -> bool {
        !is_nan(self.lat) && !is_nan(self.lon)
    }

    pub fn new(lat: u32, lon: u32) -> (c: Coordinates)
        ensures
            c.lat == lat,
            c.lon == lon,
    {
        Coordinates { lat, lon }
    }

    /// Compares two positions as the numbers they stand for compare.
    pub fn same(&self, other: &Coordinates) -> (r: bool)
        ensures
            r == self.same_place(*other),
    {
        numbers_equal(self.lat, other.lat) && numbers_equal(self.lon, other.lon)
    }
}

/// Compares two bit patterns as the numbers they stand for compare.
pub fn numbers_equal(a: u32, b: u32) -> (r: bool)
    ensures
        r == same_number(a, b),
{
    let a_mag: u32 = a & MAGNITUDE;
    let b_mag: u32 = b & MAGNITUDE;
    a_mag <= INFINITY && b_mag <= INFINITY && (a == b || (a_mag == 0 && b_mag == 0))
}

/// Positions made of numbers are equal to themselves, and equality reads the
/// same from both sides.
pub proof fn same_place_is_reflexive_and_symmetric(a: Coordinates, b: Coordinates)
    ensures
        a.is_numeric() ==> a.same_place(a),
        a.same_place(b) == b.same_place(a),
        a.same_place(b) ==> a.is_numeric() && b.is_numeric(),
{
}

/// Positions equal to a common third are equal to each other.
pub proof fn same_place_is_transitive(a: Coordinates, b: Coordinates, c: Coordinates)
    requires
        a.same_place(b),
        b.same_place(c),
    ensures
        a.same_place(c),
{
}

} // verus!
