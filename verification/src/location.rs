//! A point on the earth's surface: a latitude / longitude pair of IEEE 754
//! binary64 degrees, each held as its bit pattern.
//!
//! No range is enforced: out-of-range degree values pass through silently,
//! by design.  Equality between locations is the exact IEEE equality of the
//! coordinates, so a location with a NaN coordinate equals nothing, and the
//! two zeros equal each other.
//!
//! The great-circle distance between two locations is trigonometric
//! floating-point work that the caller performs on the coordinate bit
//! patterns; this module holds the state and the comparison semantics.

use vstd::prelude::*;
use vstd::string::StrSliceExecFns;

use crate::ieee754::{eq_bits, same_value};

verus! {

/// The latitude of the Dublin, Ireland reference point, 53.3393 degrees.
pub const DUBLIN_LATITUDE: u64 = 0x404A_AB6E_2EB1_C433;

/// The longitude of the Dublin, Ireland reference point, -6.2576841 degrees.
pub const DUBLIN_LONGITUDE: u64 = 0xC019_07DE_5738_CBF9;

/// A location on the earth's surface.  Each field is the bit pattern of the
/// binary64 degree value.
#[derive(Debug, Clone, Copy)]
pub struct Location {
    pub latitude: u64,
    pub longitude: u64,
}

/// IEEE equality of two locations: both coordinates equal as values.
pub open spec fn location_eq(a: Location, b: Location) -> bool {
    same_value(a.latitude, b.latitude) && same_value(a.longitude, b.longitude)
}

impl Location {
    /// Constructs a `Location` from the bit patterns of the latitude and
    /// longitude degree values.  No validation: any pattern passes through.
    pub fn new(latitude: u64, longitude: u64) -> (r: Location)
        ensures
            r.latitude == latitude,
            r.longitude == longitude,
    {
        Location { latitude, longitude }
    }

    /// The Dublin, Ireland reference point.
    pub fn dublin() -> (r: Location)
        ensures
            r.latitude == DUBLIN_LATITUDE,
            r.longitude == DUBLIN_LONGITUDE,
    {
        Location { latitude: DUBLIN_LATITUDE, longitude: DUBLIN_LONGITUDE }
    }

    /// Whether the location is the Dublin reference point, under IEEE
    /// equality of the coordinates.
    pub fn is_dublin(&self) -> (r: bool)
        ensures
            r == location_eq(*self, Location { latitude: DUBLIN_LATITUDE, longitude: DUBLIN_LONGITUDE }),
    {
        *self == Self::dublin()
    }
}

impl PartialEq for Location {
    fn eq(&self, other: &Location) -> (r: bool) {
        eq_bits(self.latitude, other.latitude) && eq_bits(self.longitude, other.longitude)
    }
}

impl vstd::std_specs::cmp::PartialEqSpecImpl for Location {
    open spec fn obeys_eq_spec() -> bool {
        true
    }

    open spec fn eq_spec(&self, other: &Location) -> bool {
        location_eq(*self, *other)
    }
}

/// An error when building a `Location` from text: carries a human-readable
/// message.
#[derive(Debug)]
pub struct ParseLocationError(pub String);

impl ParseLocationError {
    /// The full human-readable rendering of the error.
    pub fn message(&self) -> (r: String)
        ensures
            r@ == "Location parse error: "@ + self.0@,
    {
        let mut r = String::new();
        r.append("Location parse error: ");
        r.append(self.0.as_str());
        r
    }
}

/// The position of the first comma in `s`, or `s.len()` when there is none.
pub open spec fn first_comma(s: Seq<char>) -> int
    decreases s.len(),
{
    if s.len() == 0 {
        0
    } else if s[0] == ',' {
        0
    } else {
        1 + first_comma(s.subrange(1, s.len() as int))
    }
}

/// `first_comma` lies between 0 and the length, it points at a comma when
/// one exists, and nothing before it is a comma.
pub proof fn lemma_first_comma_bounds(s: Seq<char>)
    ensures
        0 <= first_comma(s) <= s.len(),
        first_comma(s) < s.len() ==> s[first_comma(s)] == ',',
        forall|q: int| 0 <= q < first_comma(s) ==> s[q] != ',',
    decreases s.len(),
{
    if s.len() == 0 {
    } else if s[0] == ',' {
    } else {
        let rest = s.subrange(1, s.len() as int);
        lemma_first_comma_bounds(rest);
        assert(forall|q: int| 1 <= q < first_comma(s) ==> s[q] == rest[q - 1]);
    }
}

/// A scan that stopped at `i` without seeing a comma, at a comma or at the
/// end, found the first comma.
pub proof fn lemma_first_comma_is(s: Seq<char>, i: int)
    requires
        0 <= i <= s.len(),
        forall|q: int| 0 <= q < i ==> s[q] != ',',
        i < s.len() ==> s[i] == ',',
    ensures
        first_comma(s) == i,
    decreases s.len(),
{
    if s.len() == 0 {
    } else if s[0] == ',' {
    } else {
        let rest = s.subrange(1, s.len() as int);
        assert(forall|q: int| 0 <= q < i - 1 ==> rest[q] == s[q + 1] && rest[q] != ',');
        lemma_first_comma_is(rest, i - 1);
    }
}

/// The latitude text of a coordinate pair: everything before the first
/// comma.
pub open spec fn latitude_text(s: Seq<char>) -> Seq<char> {
    s.take(first_comma(s))
}

/// The longitude text of a coordinate pair: everything between the first
/// comma and the second one, or the end.  Anything after a second comma is
/// ignored.
pub open spec fn longitude_text(s: Seq<char>) -> Seq<char> {
    let rest = s.skip(first_comma(s) + 1);
    rest.take(first_comma(rest))
}

/// Splits a `latitude,longitude` pair into its two coordinate texts.
///
/// The pair must hold at least one comma: without one there is no longitude
/// element, and the result is the "missing element" parse error.  The
/// texts themselves are handed back as they stand — converting them to
/// binary64 degree values is the caller's floating-point work.
pub fn coordinate_parts(s: &str) -> (r: Result<(String, String), ParseLocationError>)
    ensures
        match r {
            Ok(parts) => {
                &&& first_comma(s@) < s@.len()
                &&& parts.0@ == latitude_text(s@)
                &&& parts.1@ == longitude_text(s@)
            },
            Err(e) => {
                &&& first_comma(s@) == s@.len()
                &&& e.0@ == "missing element latitude,longitude on tuple"@
            },
        },
{
    let n = s.unicode_len();
    let mut i: usize = 0;
    while i < n && s.get_char(i) != ','
        invariant
            0 <= i <= n,
            n == s@.len(),
            forall|q: int| 0 <= q < i ==> s@[q] != ',',
        decreases n - i,
    {
        i = i + 1;
    }
    proof {
        lemma_first_comma_is(s@, i as int);
    }
    if i == n {
        return Err(ParseLocationError("missing element latitude,longitude on tuple".to_owned()));
    }
    let latitude = s.substring_char(0, i).to_owned();
    let mut j: usize = i + 1;
    while j < n && s.get_char(j) != ','
        invariant
            i + 1 <= j <= n,
            n == s@.len(),
            forall|q: int| i + 1 <= q < j ==> s@[q] != ',',
        decreases n - j,
    {
        j = j + 1;
    }
    let longitude = s.substring_char(i + 1, j).to_owned();
    proof {
        let rest = s@.skip(i + 1);
        assert(forall|q: int| 0 <= q < j - i - 1 ==> rest[q] == s@[q + i + 1] && rest[q] != ',');
        lemma_first_comma_is(rest, j - i - 1);
        assert(longitude@ =~= rest.take(first_comma(rest)));
        assert(latitude@ =~= s@.take(first_comma(s@)));
    }
    Ok((latitude, longitude))
}

impl PartialEq for ParseLocationError {
    fn eq(&self, other: &ParseLocationError) -> (r: bool) {
        self.0 == other.0
    }
}

impl vstd::std_specs::cmp::PartialEqSpecImpl for ParseLocationError {
    open spec fn obeys_eq_spec() -> bool {
        true
    }

    open spec fn eq_spec(&self, other: &ParseLocationError) -> bool {
        self.0@ == other.0@
    }
}

} // verus!
