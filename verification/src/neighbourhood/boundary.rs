//! Neighbourhood boundaries: an identifier, a name and a polygon.
use vstd::prelude::*;

use crate::geospatial::polygon::Polygon;
use crate::location::{is_ascii_digit, location_pairs, location_pairs_spec, pair_views};
use crate::text::str_eq;

verus! {

/// The error of parsing an integer.
#[verifier::external_type_specification]
#[verifier::external_body]
pub struct ExParseIntError(core::num::ParseIntError);

/// A neighbourhood: its identifier, its name and its boundary.
#[derive(Debug)]
pub struct NeighbourhoodBoundary<P> {
    pub id: u64,
    pub name: String,
    pub polygon: Polygon<P>,
}

/// Why a neighbourhood file could not be read.
#[derive(Debug)]
pub enum NeighbourhoodBoundaryError {
    InvalidHeaders(csv::Error),
    ReadRecordFailure { line: usize, error: csv::Error },
    IDParseFailure { line: usize, id: String, error: core::num::ParseIntError },
    CoordinateParseFailure { line: usize, value: String, error: core::num::ParseFloatError },
    LineIntersection { line: usize },
    InvalidPolygon { line: usize },
}

/// The value of a string of decimal digits.
pub open spec fn digits_value(d: Seq<char>) -> int
    decreases d.len(),
{
    if d.len() == 0 {
        0
    } else {
        digits_value(d.drop_last()) * 10 + (d.last() as int - '0' as int)
    }
}

/// Whether every character of `d` is an ASCII digit.
pub open spec fn all_digits(d: Seq<char>) -> bool {
    forall|i: int| 0 <= i < d.len() ==> is_ascii_digit(#[trigger] d[i])
}

/// The value of an unsigned decimal integer: an optional plus sign and at
/// least one ASCII digit, nothing else; `None` for any other text.
pub open spec fn unsigned_value(s: Seq<char>) -> Option<int> {
    let digits = if s.len() > 0 && s[0] == '+' {
        s.drop_first()
    } else {
        s
    };
    if digits.len() > 0 && all_digits(digits) {
        Some(digits_value(digits))
    } else {
        None
    }
}

/// `str::parse::<u64>`: as the standard library documents it, the text must
/// be an optional `+` followed by decimal digits only, and the value must fit
/// in `u64`; the contract claims exactly this, and nothing of the error.
#[verifier::external_body]
fn parse_u64(s: &str) -> (res: Result<u64, core::num::ParseIntError>)
    ensures
        res is Ok <==> (unsigned_value(s@) matches Some(v) && v <= u64::MAX),
        res matches Ok(v) ==> unsigned_value(s@) == Some(v as int),
{
    s.parse::<u64>()
}

/// The identifier of the record on `line`.
pub fn parse_id(line: usize, id: &str) -> (res: Result<u64, NeighbourhoodBoundaryError>)
    ensures
        match res {
            Ok(v) => unsigned_value(id@) == Some(v as int),
            Err(NeighbourhoodBoundaryError::IDParseFailure { line: l, id: text, .. }) => {
                &&& l == line
                &&& text@ == id@
                &&& !(unsigned_value(id@) matches Some(v) && v <= u64::MAX)
            },
            Err(_) => false,
        },
{
    match parse_u64(id) {
        Ok(v) => Ok(v),
        Err(error) => Err(NeighbourhoodBoundaryError::IDParseFailure { line, id: id.to_owned(), error }),
    }
}

/// A text with a character that is neither a digit nor a leading `+` is no
/// unsigned integer, and an empty text is none either.
pub proof fn lemma_not_a_number(s: Seq<char>, k: int)
    requires
        0 <= k < s.len(),
        !is_ascii_digit(s[k]),
        !(k == 0 && s[k] == '+'),
    ensures
        unsigned_value(s) is None,
        unsigned_value(Seq::<char>::empty()) is None,
{
    if s.len() > 0 && s[0] == '+' {
        assert(s.drop_first()[k - 1] == s[k]);
    }
}

/// Whether the header row names the identifier, name and location columns,
/// in this order, first.
pub open spec fn boundary_headers_ok(headers: Seq<Seq<char>>) -> bool {
    &&& headers.len() >= 3
    &&& headers[0] == "ID"@
    &&& headers[1] == "Name"@
    &&& headers[2] == "Location"@
}

/// Decides `boundary_headers_ok`; a reader stops where it fails.
pub fn check_boundary_headers(headers: &Vec<String>) -> (b: bool)
    ensures
        b == boundary_headers_ok(headers@.map_values(|h: String| h@)),
{
    headers.len() >= 3 && str_eq(headers[0].as_str(), "ID") && str_eq(headers[1].as_str(), "Name")
        && str_eq(headers[2].as_str(), "Location")
}

/// The text of one neighbourhood record: its line, identifier, name, and
/// the (latitude, longitude) text of each point of its boundary.
#[derive(Debug)]
pub struct BoundaryText {
    pub line: usize,
    pub id: u64,
    pub name: String,
    pub coordinates: Vec<(String, String)>,
}

/// Reads the record at position `index` (on line `index + 2`, the header
/// being line 1) as far as it goes without floating-point numbers: the
/// reader's error, the identifier or its error, the name and the coordinate
/// pairs of the location. A record must have the three fields.
pub fn boundary_record(index: usize, record: Result<Vec<String>, csv::Error>) -> (res: Result<
    BoundaryText,
    NeighbourhoodBoundaryError,
>)
    requires
        index + 2 <= usize::MAX,
        record matches Ok(fields) ==> fields@.len() >= 3,
    ensures
        match (record, res) {
            (Err(read), Err(NeighbourhoodBoundaryError::ReadRecordFailure { line, error })) => line == index
                + 2 && error == read,
            (Ok(fields), Ok(b)) => {
                &&& b.line == index + 2
                &&& unsigned_value(fields@[0]@) == Some(b.id as int)
                &&& b.name@ == fields@[1]@
                &&& pair_views(b.coordinates@) == location_pairs_spec(fields@[2]@)
            },
            (Ok(fields), Err(NeighbourhoodBoundaryError::IDParseFailure { line, id, .. })) => {
                &&& line == index + 2
                &&& id@ == fields@[0]@
                &&& !(unsigned_value(fields@[0]@) matches Some(v) && v <= u64::MAX)
            },
            _ => false,
        },
{
    let line = index + 2;
    match record {
        Err(error) => Err(NeighbourhoodBoundaryError::ReadRecordFailure { line, error }),
        Ok(fields) => {
            let id = parse_id(line, fields[0].as_str())?;
            Ok(
                BoundaryText {
                    line,
                    id,
                    name: fields[1].clone(),
                    coordinates: location_pairs(fields[2].as_str()),
                },
            )
        },
    }
}

} // verus!
