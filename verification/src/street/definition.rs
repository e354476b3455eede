//! Street segments as the city's linear reference system lists them: the
//! columns of the file, and the text of each record.
use vstd::prelude::*;

use crate::location::{location_pairs, location_pairs_spec, pair_views};
use vstd::std_specs::iter::IteratorSpec;
use vstd::string::StringExecFns;
use crate::text::{ascii_lower, remove_commas, str_eq, to_ascii_lowercase, without_commas};

verus! {

/// The error type of the CSV reader.
#[verifier::external_type_specification]
#[verifier::external_body]
pub struct ExCsvError(csv::Error);

/// The error of parsing a floating-point number.
#[verifier::external_type_specification]
#[verifier::external_body]
pub struct ExParseFloatError(core::num::ParseFloatError);

/// Why the columns of a street file could not be made out.
#[derive(Debug)]
pub enum SDFromCSVError {
    /// The reader failed to read the header row.
    ReadHeadersFailed(csv::Error),
    /// A column the file must have is absent.
    MissingHeader(&'static str),
    /// A column appears twice.
    RepeatHeader(&'static str),
    /// A column of no known name, lowercased.
    UnknownHeader(String),
}

/// Why one record of a street file could not be read.
#[derive(Debug)]
pub struct SDEntryParseError {
    /// The line of the file, counting the header as line 1.
    pub line: usize,
    pub error: StreetDefinitionParseError,
}

/// Why the fields of a record could not be read.
#[derive(Debug)]
pub enum StreetDefinitionParseError {
    /// The reader failed to read the record.
    ReadFailure(csv::Error),
    /// The record has no field for the named column.
    MissingEntry(&'static str),
    /// A coordinate of the location is no number.
    CoordinateParseError { value: String, source: core::num::ParseFloatError },
    /// A measure is no number.
    MeasureParseError { value: String, source: core::num::ParseFloatError },
}

/// The error of a record, with its line.
pub fn new_error(line: usize, error: StreetDefinitionParseError) -> (e: SDEntryParseError)
    ensures
        e == (SDEntryParseError { line, error }),
{
    SDEntryParseError { line, error }
}

/// The position of each column of a street file.
#[derive(Clone, Copy, Debug, PartialEq, Eq)]
pub struct HeaderIndices {
    pub street_name: usize,
    pub street_qualifier: usize,
    pub begin_measure: usize,
    pub end_measure: usize,
    pub location: usize,
}

/// The columns found so far while the headers are read.
#[derive(Clone, Copy, Debug, PartialEq, Eq)]
pub struct HeaderSlots {
    pub street_name: Option<usize>,
    pub street_qualifier: Option<usize>,
    pub begin_measure: Option<usize>,
    pub end_measure: Option<usize>,
    pub location: Option<usize>,
}

/// What reading the headers gives.
pub enum HeaderOutcome {
    Found(HeaderIndices),
    Missing(Seq<char>),
    Repeated(Seq<char>),
    Unknown(Seq<char>),
}

/// What reading the headers from position `i` on, with the columns found
/// before it, gives: the columns, or the first repeated or unknown header.
pub enum HeaderScan {
    Done(HeaderSlots),
    Repeated(Seq<char>),
    Unknown(Seq<char>),
}

/// A header as it is compared: lowercased.
pub open spec fn lowered(h: Seq<char>) -> Seq<char> {
    h.map_values(|c: char| ascii_lower(c))
}

/// Reads the headers from position `i` on.
pub open spec fn scan_headers(hs: Seq<Seq<char>>, i: int, slots: HeaderSlots) -> HeaderScan
    decreases hs.len() - i,
{
    if i < 0 || i >= hs.len() {
        HeaderScan::Done(slots)
    } else {
        let l = lowered(hs[i]);
        let at = Some(i as usize);
        if l == "street name"@ {
            if slots.street_name is Some {
                HeaderScan::Repeated("street name"@)
            } else {
                scan_headers(hs, i + 1, HeaderSlots { street_name: at, ..slots })
            }
        } else if l == "street qualifier"@ {
            if slots.street_qualifier is Some {
                HeaderScan::Repeated("street qualifier"@)
            } else {
                scan_headers(hs, i + 1, HeaderSlots { street_qualifier: at, ..slots })
            }
        } else if l == "begin measure"@ {
            if slots.begin_measure is Some {
                HeaderScan::Repeated("begin measure"@)
            } else {
                scan_headers(hs, i + 1, HeaderSlots { begin_measure: at, ..slots })
            }
        } else if l == "end measure"@ {
            if slots.end_measure is Some {
                HeaderScan::Repeated("end measure"@)
            } else {
                scan_headers(hs, i + 1, HeaderSlots { end_measure: at, ..slots })
            }
        } else if l == "location"@ {
            if slots.location is Some {
                HeaderScan::Repeated("location"@)
            } else {
                scan_headers(hs, i + 1, HeaderSlots { location: at, ..slots })
            }
        } else {
            HeaderScan::Unknown(l)
        }
    }
}

/// No column found yet.
pub open spec fn no_slots() -> HeaderSlots {
    HeaderSlots {
        street_name: None,
        street_qualifier: None,
        begin_measure: None,
        end_measure: None,
        location: None,
    }
}

/// The columns that a list of headers gives, or why it gives none: the first
/// repeated or unknown header, else the first absent column in the order
/// street name, street qualifier, begin measure, end measure, location.
pub open spec fn header_outcome(hs: Seq<Seq<char>>) -> HeaderOutcome {
    match scan_headers(hs, 0, no_slots()) {
        HeaderScan::Repeated(n) => HeaderOutcome::Repeated(n),
        HeaderScan::Unknown(l) => HeaderOutcome::Unknown(l),
        HeaderScan::Done(slots) => if slots.street_name is None {
            HeaderOutcome::Missing("street name"@)
        } else if slots.street_qualifier is None {
            HeaderOutcome::Missing("street qualifier"@)
        } else if slots.begin_measure is None {
            HeaderOutcome::Missing("begin measure"@)
        } else if slots.end_measure is None {
            HeaderOutcome::Missing("end measure"@)
        } else if slots.location is None {
            HeaderOutcome::Missing("location"@)
        } else {
            HeaderOutcome::Found(
                HeaderIndices {
                    street_name: slots.street_name->0,
                    street_qualifier: slots.street_qualifier->0,
                    begin_measure: slots.begin_measure->0,
                    end_measure: slots.end_measure->0,
                    location: slots.location->0,
                },
            )
        },
    }
}

/// Whether each column found so far points, below `i`, at a header of its name.
pub open spec fn slots_point_at(hs: Seq<Seq<char>>, slots: HeaderSlots, i: int) -> bool {
    &&& slots.street_name matches Some(k) ==> k < i && k < hs.len() && lowered(hs[k as int]) == "street name"@
    &&& slots.street_qualifier matches Some(k) ==> k < i && k < hs.len() && lowered(hs[k as int]) == "street qualifier"@
    &&& slots.begin_measure matches Some(k) ==> k < i && k < hs.len() && lowered(hs[k as int]) == "begin measure"@
    &&& slots.end_measure matches Some(k) ==> k < i && k < hs.len() && lowered(hs[k as int]) == "end measure"@
    &&& slots.location matches Some(k) ==> k < i && k < hs.len() && lowered(hs[k as int]) == "location"@
}

proof fn lemma_scan_points_at(hs: Seq<Seq<char>>, i: int, slots: HeaderSlots)
    requires
        0 <= i <= hs.len(),
        hs.len() <= usize::MAX,
        slots_point_at(hs, slots, i),
    ensures
        scan_headers(hs, i, slots) matches HeaderScan::Done(f) ==> slots_point_at(hs, f, hs.len() as int),
    decreases hs.len() - i,
{
    if i < hs.len() {
        let l = lowered(hs[i]);
        let at = Some(i as usize);
        if l == "street name"@ {
            lemma_scan_points_at(hs, i + 1, HeaderSlots { street_name: at, ..slots });
        } else if l == "street qualifier"@ {
            lemma_scan_points_at(hs, i + 1, HeaderSlots { street_qualifier: at, ..slots });
        } else if l == "begin measure"@ {
            lemma_scan_points_at(hs, i + 1, HeaderSlots { begin_measure: at, ..slots });
        } else if l == "end measure"@ {
            lemma_scan_points_at(hs, i + 1, HeaderSlots { end_measure: at, ..slots });
        } else if l == "location"@ {
            lemma_scan_points_at(hs, i + 1, HeaderSlots { location: at, ..slots });
        }
    }
}

/// Columns are found wherever they stand: where the headers are read
/// without error, each position found holds the header of its column, in
/// any letter case, so the five positions are all different.
pub proof fn lemma_found_columns(hs: Seq<Seq<char>>)
    requires
        hs.len() <= usize::MAX,
    ensures
        header_outcome(hs) matches HeaderOutcome::Found(ix) ==> {
            &&& ix.street_name < hs.len() && lowered(hs[ix.street_name as int]) == "street name"@
            &&& ix.street_qualifier < hs.len() && lowered(hs[ix.street_qualifier as int]) == "street qualifier"@
            &&& ix.begin_measure < hs.len() && lowered(hs[ix.begin_measure as int]) == "begin measure"@
            &&& ix.end_measure < hs.len() && lowered(hs[ix.end_measure as int]) == "end measure"@
            &&& ix.location < hs.len() && lowered(hs[ix.location as int]) == "location"@
            &&& ix.street_name != ix.street_qualifier && ix.street_name != ix.begin_measure
            &&& ix.street_name != ix.end_measure && ix.street_name != ix.location
            &&& ix.street_qualifier != ix.begin_measure && ix.street_qualifier != ix.end_measure
            &&& ix.street_qualifier != ix.location && ix.begin_measure != ix.end_measure
            &&& ix.begin_measure != ix.location && ix.end_measure != ix.location
        },
{
    lemma_scan_points_at(hs, 0, no_slots());
    reveal_strlit("street name");
    reveal_strlit("street qualifier");
    reveal_strlit("begin measure");
    reveal_strlit("end measure");
    reveal_strlit("location");
    assert("street name"@[0] != "end measure"@[0]);
    assert("street name"@ != "end measure"@);
    assert("street name"@.len() != "street qualifier"@.len());
    assert("street name"@.len() != "begin measure"@.len());
    assert("street name"@.len() != "location"@.len());
    assert("street qualifier"@.len() != "begin measure"@.len());
    assert("street qualifier"@.len() != "end measure"@.len());
    assert("street qualifier"@.len() != "location"@.len());
    assert("begin measure"@.len() != "end measure"@.len());
    assert("begin measure"@.len() != "location"@.len());
    assert("end measure"@.len() != "location"@.len());
}

/// The views of a list of strings.
pub open spec fn string_views(v: Seq<String>) -> Seq<Seq<char>> {
    v.map_values(|s: String| s@)
}

/// Whether an executable result is the given outcome of reading headers.
pub open spec fn header_result_is(res: Result<HeaderIndices, SDFromCSVError>, outcome: HeaderOutcome) -> bool {
    match (res, outcome) {
        (Ok(ix), HeaderOutcome::Found(found)) => ix == found,
        (Err(SDFromCSVError::MissingHeader(n)), HeaderOutcome::Missing(m)) => n@ == m,
        (Err(SDFromCSVError::RepeatHeader(n)), HeaderOutcome::Repeated(m)) => n@ == m,
        (Err(SDFromCSVError::UnknownHeader(s)), HeaderOutcome::Unknown(l)) => s@ == l,
        _ => false,
    }
}

/// Works out the position of each column from the header row.
pub fn header_indices(headers: &Vec<String>) -> (res: Result<HeaderIndices, SDFromCSVError>)
    ensures
        header_result_is(res, header_outcome(string_views(headers@))),
{
    let ghost hs = string_views(headers@);
    let mut slots = HeaderSlots {
        street_name: None,
        street_qualifier: None,
        begin_measure: None,
        end_measure: None,
        location: None,
    };
    let n = headers.len();
    let mut i: usize = 0;
    while i < n
        invariant
            n == headers@.len(),
            hs == string_views(headers@),
            i <= n,
            scan_headers(hs, 0, no_slots()) == scan_headers(hs, i as int, slots),
        decreases n - i,
    {
        let header = to_ascii_lowercase(headers[i].as_str());
        assert(header@ == lowered(hs[i as int]));
        if str_eq(header.as_str(), "street name") {
            if slots.street_name.is_some() {
                return Err(SDFromCSVError::RepeatHeader("street name"));
            }
            slots = HeaderSlots { street_name: Some(i), ..slots };
        } else if str_eq(header.as_str(), "street qualifier") {
            if slots.street_qualifier.is_some() {
                return Err(SDFromCSVError::RepeatHeader("street qualifier"));
            }
            slots = HeaderSlots { street_qualifier: Some(i), ..slots };
        } else if str_eq(header.as_str(), "begin measure") {
            if slots.begin_measure.is_some() {
                return Err(SDFromCSVError::RepeatHeader("begin measure"));
            }
            slots = HeaderSlots { begin_measure: Some(i), ..slots };
        } else if str_eq(header.as_str(), "end measure") {
            if slots.end_measure.is_some() {
                return Err(SDFromCSVError::RepeatHeader("end measure"));
            }
            slots = HeaderSlots { end_measure: Some(i), ..slots };
        } else if str_eq(header.as_str(), "location") {
            if slots.location.is_some() {
                return Err(SDFromCSVError::RepeatHeader("location"));
            }
            slots = HeaderSlots { location: Some(i), ..slots };
        } else {
            return Err(SDFromCSVError::UnknownHeader(header));
        }
        i = i + 1;
    }
    let street_name = match slots.street_name {
        Some(x) => x,
        None => {
            return Err(SDFromCSVError::MissingHeader("street name"));
        },
    };
    let street_qualifier = match slots.street_qualifier {
        Some(x) => x,
        None => {
            return Err(SDFromCSVError::MissingHeader("street qualifier"));
        },
    };
    let begin_measure = match slots.begin_measure {
        Some(x) => x,
        None => {
            return Err(SDFromCSVError::MissingHeader("begin measure"));
        },
    };
    let end_measure = match slots.end_measure {
        Some(x) => x,
        None => {
            return Err(SDFromCSVError::MissingHeader("end measure"));
        },
    };
    let location = match slots.location {
        Some(x) => x,
        None => {
            return Err(SDFromCSVError::MissingHeader("location"));
        },
    };
    Ok(HeaderIndices { street_name, street_qualifier, begin_measure, end_measure, location })
}

/// The fields of one record, by column.
#[derive(Debug)]
pub struct RecordText {
    pub name: String,
    pub qualifier: String,
    pub begin_measure: String,
    pub end_measure: String,
    pub location: String,
}

/// The name of the first column, in the order name, qualifier, begin measure,
/// end measure, location, that a record of `len` fields lacks.
pub open spec fn first_missing_field(ix: HeaderIndices, len: int) -> Option<Seq<char>> {
    if ix.street_name >= len {
        Some("street name"@)
    } else if ix.street_qualifier >= len {
        Some("street qualifier"@)
    } else if ix.begin_measure >= len {
        Some("begin measure"@)
    } else if ix.end_measure >= len {
        Some("end measure"@)
    } else if ix.location >= len {
        Some("location"@)
    } else {
        None
    }
}

/// Whether `r` holds the field of each column of `record`, which has them all.
pub open spec fn fields_are(ix: HeaderIndices, record: Seq<String>, r: RecordText) -> bool {
    &&& first_missing_field(ix, record.len() as int) is None
    &&& r.name@ == record[ix.street_name as int]@
    &&& r.qualifier@ == record[ix.street_qualifier as int]@
    &&& r.begin_measure@ == record[ix.begin_measure as int]@
    &&& r.end_measure@ == record[ix.end_measure as int]@
    &&& r.location@ == record[ix.location as int]@
}

/// Takes the field of each column out of a record.
pub fn record_fields(ix: &HeaderIndices, record: &Vec<String>) -> (res: Result<RecordText, StreetDefinitionParseError>)
    ensures
        match res {
            Ok(r) => fields_are(*ix, record@, r),
            Err(StreetDefinitionParseError::MissingEntry(n)) => first_missing_field(*ix, record@.len() as int) == Some(n@),
            Err(_) => false,
        },
{
    let len = record.len();
    if ix.street_name >= len {
        return Err(StreetDefinitionParseError::MissingEntry("street name"));
    }
    if ix.street_qualifier >= len {
        return Err(StreetDefinitionParseError::MissingEntry("street qualifier"));
    }
    if ix.begin_measure >= len {
        return Err(StreetDefinitionParseError::MissingEntry("begin measure"));
    }
    if ix.end_measure >= len {
        return Err(StreetDefinitionParseError::MissingEntry("end measure"));
    }
    if ix.location >= len {
        return Err(StreetDefinitionParseError::MissingEntry("location"));
    }
    Ok(
        RecordText {
            name: record[ix.street_name].clone(),
            qualifier: record[ix.street_qualifier].clone(),
            begin_measure: record[ix.begin_measure].clone(),
            end_measure: record[ix.end_measure].clone(),
            location: record[ix.location].clone(),
        },
    )
}

/// The text of a record made ready for its numbers to be parsed.
#[derive(Debug)]
pub struct RawStreetRecord {
    pub name: String,
    pub qualifier: String,
    /// The begin measure without its thousands separators.
    pub begin_measure: String,
    /// The end measure without its thousands separators.
    pub end_measure: String,
    /// The (latitude, longitude) text of each coordinate pair of the location.
    pub coordinates: Vec<(String, String)>,
}

/// Splits the fields of a record into the texts of its numbers: measures
/// without commas, and the coordinate pairs of the location.
pub fn split_record(name: &str, qualifier: &str, begin_measure: &str, end_measure: &str, location: &str) -> (r: RawStreetRecord)
    ensures
        r.name@ == name@,
        r.qualifier@ == qualifier@,
        r.begin_measure@ == without_commas(begin_measure@),
        r.end_measure@ == without_commas(end_measure@),
        pair_views(r.coordinates@) == location_pairs_spec(location@),
{
    RawStreetRecord {
        name: name.to_owned(),
        qualifier: qualifier.to_owned(),
        begin_measure: remove_commas(begin_measure),
        end_measure: remove_commas(end_measure),
        coordinates: location_pairs(location),
    }
}

/// Whether `out` is what reading `record`, found on line `line`, gives: the
/// line and the fields of the record; the reader's error; or the first
/// column the record lacks.
pub open spec fn record_read_as(
    ix: HeaderIndices,
    line: int,
    record: Result<Vec<String>, csv::Error>,
    out: Result<(usize, RecordText), SDEntryParseError>,
) -> bool {
    match (record, out) {
        (Ok(fields), Ok((l, r))) => l == line && fields_are(ix, fields@, r),
        (Ok(fields), Err(e)) => {
            &&& e.line == line
            &&& e.error matches StreetDefinitionParseError::MissingEntry(n)
            &&& first_missing_field(ix, fields@.len() as int) == Some(n@)
        },
        (Err(read), Err(e)) => e.line == line && e.error == StreetDefinitionParseError::ReadFailure(read),
        _ => false,
    }
}

/// Reads the records of a street file, in order, into their fields; the
/// record at position `i` stands on line `i + 2` (the header is line 1), and
/// each result carries that line.
pub fn records_text(ix: &HeaderIndices, records: Vec<Result<Vec<String>, csv::Error>>) -> (out: Vec<
    Result<(usize, RecordText), SDEntryParseError>,
>)
    requires
        records@.len() + 1 <= usize::MAX,
    ensures
        out@.len() == records@.len(),
        forall|i: int| 0 <= i < records@.len() ==> #[trigger] record_read_as(*ix, i + 2, records@[i], out@[i]),
{
    broadcast use vstd::std_specs::vec::group_vec_axioms;

    let ghost input = records@;
    let mut out: Vec<Result<(usize, RecordText), SDEntryParseError>> = Vec::new();
    for record in it: records.into_iter()
        invariant
            it.seq() == input,
            input.len() + 1 <= usize::MAX,
            it.index() == out@.len(),
            forall|k: int| 0 <= k < out@.len() ==> #[trigger] record_read_as(*ix, k + 2, input[k], out@[k]),
    {
        let line = out.len() + 2;
        let result = match record {
            Ok(fields) => match record_fields(ix, &fields) {
                Ok(text) => Ok((line, text)),
                Err(error) => Err(new_error(line, error)),
            },
            Err(error) => Err(new_error(line, StreetDefinitionParseError::ReadFailure(error))),
        };
        out.push(result);
    }
    out
}

/// Whether `l` is the (lowercased) name of one of the five columns.
pub open spec fn known_header(l: Seq<char>) -> bool {
    ||| l == "street name"@
    ||| l == "street qualifier"@
    ||| l == "begin measure"@
    ||| l == "end measure"@
    ||| l == "location"@
}

/// The slot of the column named `l`, `None` for an unknown name.
pub open spec fn slot_of(slots: HeaderSlots, l: Seq<char>) -> Option<usize> {
    if l == "street name"@ {
        slots.street_name
    } else if l == "street qualifier"@ {
        slots.street_qualifier
    } else if l == "begin measure"@ {
        slots.begin_measure
    } else if l == "end measure"@ {
        slots.end_measure
    } else if l == "location"@ {
        slots.location
    } else {
        None
    }
}

proof fn lemma_column_names_differ()
    ensures
        "street name"@ != "street qualifier"@,
        "street name"@ != "begin measure"@,
        "street name"@ != "end measure"@,
        "street name"@ != "location"@,
        "street qualifier"@ != "begin measure"@,
        "street qualifier"@ != "end measure"@,
        "street qualifier"@ != "location"@,
        "begin measure"@ != "end measure"@,
        "begin measure"@ != "location"@,
        "end measure"@ != "location"@,
{
    reveal_strlit("street name");
    reveal_strlit("street qualifier");
    reveal_strlit("begin measure");
    reveal_strlit("end measure");
    reveal_strlit("location");
    assert("street name"@[0] != "end measure"@[0]);
    assert("street name"@.len() != "street qualifier"@.len());
    assert("street name"@.len() != "begin measure"@.len());
    assert("street name"@.len() != "location"@.len());
    assert("street qualifier"@.len() != "begin measure"@.len());
    assert("street qualifier"@.len() != "end measure"@.len());
    assert("street qualifier"@.len() != "location"@.len());
    assert("begin measure"@.len() != "end measure"@.len());
    assert("begin measure"@.len() != "location"@.len());
    assert("end measure"@.len() != "location"@.len());
}

/// Whether the lowercased headers are all column names, none twice.
pub open spec fn headers_known_once(hs: Seq<Seq<char>>) -> bool {
    &&& forall|k: int| 0 <= k < hs.len() ==> known_header(#[trigger] lowered(hs[k]))
    &&& forall|a: int, b: int| 0 <= a < b < hs.len() ==> #[trigger] lowered(hs[a]) != #[trigger] lowered(hs[b])
}

/// A scan that reads the headers from `i` on without error met only column
/// names, none twice and none already found.
proof fn lemma_scan_done_headers(hs: Seq<Seq<char>>, i: int, slots: HeaderSlots)
    requires
        0 <= i <= hs.len(),
        scan_headers(hs, i, slots) is Done,
    ensures
        forall|k: int| i <= k < hs.len() ==> known_header(#[trigger] lowered(hs[k])) && slot_of(slots, lowered(hs[k])) is None,
        forall|a: int, b: int| i <= a < b < hs.len() ==> #[trigger] lowered(hs[a]) != #[trigger] lowered(hs[b]),
    decreases hs.len() - i,
{
    lemma_column_names_differ();
    if i < hs.len() {
        let l = lowered(hs[i]);
        let at = Some(i as usize);
        let next = if l == "street name"@ {
            HeaderSlots { street_name: at, ..slots }
        } else if l == "street qualifier"@ {
            HeaderSlots { street_qualifier: at, ..slots }
        } else if l == "begin measure"@ {
            HeaderSlots { begin_measure: at, ..slots }
        } else if l == "end measure"@ {
            HeaderSlots { end_measure: at, ..slots }
        } else {
            HeaderSlots { location: at, ..slots }
        };
        assert(known_header(l));
        assert(slot_of(slots, l) is None);
        assert(scan_headers(hs, i, slots) == scan_headers(hs, i + 1, next));
        lemma_scan_done_headers(hs, i + 1, next);
        assert(slot_of(next, l) is Some);
        assert forall|k: int| i <= k < hs.len() implies known_header(#[trigger] lowered(hs[k])) && slot_of(
            slots,
            lowered(hs[k]),
        ) is None by {
            if k > i {
                let m = lowered(hs[k]);
                assert(slot_of(next, m) is None);
                assert(m != l);
            }
        }
        assert forall|a: int, b: int| i <= a < b < hs.len() implies #[trigger] lowered(hs[a]) != #[trigger] lowered(
            hs[b],
        ) by {
            if a == i {
                assert(slot_of(next, lowered(hs[b])) is None);
            }
        }
    }
}

/// Headers that are all column names, none twice, are read without error,
/// every one of them from `i` on finding its slot, and slots found before
/// `i` kept.
proof fn lemma_scan_known_once(hs: Seq<Seq<char>>, i: int, slots: HeaderSlots)
    requires
        0 <= i <= hs.len(),
        hs.len() <= usize::MAX,
        headers_known_once(hs),
        forall|k: int| i <= k < hs.len() ==> slot_of(slots, #[trigger] lowered(hs[k])) is None,
    ensures
        scan_headers(hs, i, slots) matches HeaderScan::Done(f) && {
            &&& forall|k: int| i <= k < hs.len() ==> slot_of(f, #[trigger] lowered(hs[k])) is Some
            &&& forall|l: Seq<char>| #[trigger] slot_of(slots, l) is Some ==> slot_of(f, l) == slot_of(slots, l)
        },
    decreases hs.len() - i,
{
    lemma_column_names_differ();
    if i < hs.len() {
        let l = lowered(hs[i]);
        assert(known_header(l));
        let at = Some(i as usize);
        let next = if l == "street name"@ {
            HeaderSlots { street_name: at, ..slots }
        } else if l == "street qualifier"@ {
            HeaderSlots { street_qualifier: at, ..slots }
        } else if l == "begin measure"@ {
            HeaderSlots { begin_measure: at, ..slots }
        } else if l == "end measure"@ {
            HeaderSlots { end_measure: at, ..slots }
        } else {
            HeaderSlots { location: at, ..slots }
        };
        assert(slot_of(slots, l) is None);
        assert(scan_headers(hs, i, slots) == scan_headers(hs, i + 1, next));
        assert forall|k: int| i + 1 <= k < hs.len() implies slot_of(next, #[trigger] lowered(hs[k])) is None by {
            assert(lowered(hs[i]) != lowered(hs[k]));
        }
        lemma_scan_known_once(hs, i + 1, next);
        let f = scan_headers(hs, i + 1, next)->Done_0;
        assert(slot_of(next, l) == at);
        assert forall|l2: Seq<char>| #[trigger] slot_of(slots, l2) is Some implies slot_of(f, l2) == slot_of(slots, l2) by {
            assert(l2 != l);
            assert(slot_of(next, l2) == slot_of(slots, l2));
        }
    }
}

/// Whether `perm` and `inv` are inverse bijections of `0..n`.
pub open spec fn is_permutation(perm: Seq<int>, inv: Seq<int>, n: int) -> bool {
    &&& perm.len() == n
    &&& inv.len() == n
    &&& forall|j: int| 0 <= j < n ==> 0 <= #[trigger] perm[j] < n && inv[perm[j]] == j
    &&& forall|k: int| 0 <= k < n ==> 0 <= #[trigger] inv[k] < n && perm[inv[k]] == k
}

/// Whether `hs2` is the header row `hs` with its columns put in the order
/// `perm` (column `j` of `hs2` being column `perm[j]` of `hs`), each header
/// in any ASCII letter case.
pub open spec fn headers_reordered(hs: Seq<Seq<char>>, hs2: Seq<Seq<char>>, perm: Seq<int>) -> bool {
    &&& hs2.len() == hs.len()
    &&& forall|j: int| 0 <= j < hs2.len() ==> lowered(#[trigger] hs2[j]) == lowered(hs[perm[j]])
}

/// Whether record `r2` is record `r` with its fields in the order `perm`.
pub open spec fn fields_reordered(r: Seq<String>, r2: Seq<String>, perm: Seq<int>) -> bool {
    &&& r.len() == perm.len()
    &&& r2.len() == perm.len()
    &&& forall|j: int| 0 <= j < r2.len() ==> (#[trigger] r2[j])@ == r[perm[j]]@
}

/// Reordering the columns of a readable header row, and changing the letter
/// case of its headers, still gives a readable header row, whose columns are
/// found where the permutation moved them.
pub proof fn lemma_reordered_headers(hs: Seq<Seq<char>>, hs2: Seq<Seq<char>>, perm: Seq<int>, inv: Seq<int>)
    requires
        hs.len() <= usize::MAX,
        is_permutation(perm, inv, hs.len() as int),
        headers_reordered(hs, hs2, perm),
        header_outcome(hs) is Found,
    ensures
        header_outcome(hs2) matches HeaderOutcome::Found(ix2) && header_outcome(hs) matches HeaderOutcome::Found(
            ix,
        ) && {
            &&& ix2.street_name == inv[ix.street_name as int]
            &&& ix2.street_qualifier == inv[ix.street_qualifier as int]
            &&& ix2.begin_measure == inv[ix.begin_measure as int]
            &&& ix2.end_measure == inv[ix.end_measure as int]
            &&& ix2.location == inv[ix.location as int]
        },
{
    let n = hs.len() as int;
    lemma_column_names_differ();
    lemma_found_columns(hs);
    lemma_found_columns(hs2);
    lemma_scan_done_headers(hs, 0, no_slots());
    let ix = header_outcome(hs)->Found_0;
    assert forall|k: int| 0 <= k < n implies known_header(#[trigger] lowered(hs2[k])) by {
        assert(lowered(hs2[k]) == lowered(hs[perm[k]]));
        assert(known_header(lowered(hs[perm[k]])));
    }
    assert forall|a: int, b: int| 0 <= a < b < n implies #[trigger] lowered(hs2[a]) != #[trigger] lowered(hs2[b]) by {
        assert(lowered(hs2[a]) == lowered(hs[perm[a]]));
        assert(lowered(hs2[b]) == lowered(hs[perm[b]]));
        assert(inv[perm[a]] == a && inv[perm[b]] == b);
        if perm[a] < perm[b] {
            assert(lowered(hs[perm[a]]) != lowered(hs[perm[b]]));
        } else {
            assert(lowered(hs[perm[b]]) != lowered(hs[perm[a]]));
        }
    }
    assert(headers_known_once(hs2));
    lemma_scan_known_once(hs2, 0, no_slots());
    let f = scan_headers(hs2, 0, no_slots())->Done_0;
    let names = seq!["street name"@, "street qualifier"@, "begin measure"@, "end measure"@, "location"@];
    let at = seq![ix.street_name as int, ix.street_qualifier as int, ix.begin_measure as int, ix.end_measure as int, ix.location as int];
    assert forall|t: int| 0 <= t < 5 implies slot_of(f, #[trigger] names[t]) == Some(inv[at[t]] as usize) by {
        let k = at[t];
        assert(0 <= k < n);
        assert(lowered(hs[k]) == names[t]);
        let j = inv[k];
        assert(lowered(hs2[j]) == lowered(hs[perm[j]]));
        assert(lowered(hs2[j]) == names[t]);
        assert(slot_of(f, lowered(hs2[j])) is Some);
        let m = slot_of(f, names[t])->0;
        lemma_scan_points_at(hs2, 0, no_slots());
        assert(slot_of(f, names[t]) == Some(m));
        if m as int != j {
            if (m as int) < j {
                assert(lowered(hs2[m as int]) != lowered(hs2[j]));
            } else {
                assert(lowered(hs2[j]) != lowered(hs2[m as int]));
            }
        }
    }
    assert(slot_of(f, names[0]) == Some(inv[at[0]] as usize));
    assert(slot_of(f, names[1]) == Some(inv[at[1]] as usize));
    assert(slot_of(f, names[2]) == Some(inv[at[2]] as usize));
    assert(slot_of(f, names[3]) == Some(inv[at[3]] as usize));
    assert(slot_of(f, names[4]) == Some(inv[at[4]] as usize));
}

/// Whether two record texts hold the same fields.
pub open spec fn same_text(r: RecordText, r2: RecordText) -> bool {
    &&& r.name@ == r2.name@
    &&& r.qualifier@ == r2.qualifier@
    &&& r.begin_measure@ == r2.begin_measure@
    &&& r.end_measure@ == r2.end_measure@
    &&& r.location@ == r2.location@
}

/// Reordering the columns of a street file, header row and every record
/// alike, and changing the letter case of its headers, gives the same record
/// texts, line for line, and the same errors: where the records of both
/// files are read as `records_text` reads them, with the columns that
/// `header_indices` finds in each, each result of one file equals that of the
/// other.
pub proof fn lemma_reordered_records(
    hs: Seq<Seq<char>>,
    hs2: Seq<Seq<char>>,
    perm: Seq<int>,
    inv: Seq<int>,
    ix: HeaderIndices,
    ix2: HeaderIndices,
    records: Seq<Result<Vec<String>, csv::Error>>,
    records2: Seq<Result<Vec<String>, csv::Error>>,
    out: Seq<Result<(usize, RecordText), SDEntryParseError>>,
    out2: Seq<Result<(usize, RecordText), SDEntryParseError>>,
)
    requires
        hs.len() <= usize::MAX,
        is_permutation(perm, inv, hs.len() as int),
        headers_reordered(hs, hs2, perm),
        header_outcome(hs) == HeaderOutcome::Found(ix),
        header_outcome(hs2) == HeaderOutcome::Found(ix2),
        records2.len() == records.len(),
        forall|i: int|
            0 <= i < records.len() ==> match (#[trigger] records[i], records2[i]) {
                (Ok(r), Ok(r2)) => fields_reordered(r@, r2@, perm),
                (Err(e), Err(e2)) => e == e2,
                _ => false,
            },
        out.len() == records.len(),
        out2.len() == records.len(),
        forall|i: int| 0 <= i < records.len() ==> #[trigger] record_read_as(ix, i + 2, records[i], out[i]),
        forall|i: int| 0 <= i < records.len() ==> #[trigger] record_read_as(ix2, i + 2, records2[i], out2[i]),
    ensures
        forall|i: int|
            0 <= i < records.len() ==> match (#[trigger] out[i], out2[i]) {
                (Ok((l, r)), Ok((l2, r2))) => l == l2 && same_text(r, r2),
                (Err(e), Err(e2)) => e == e2,
                _ => false,
            },
{
    lemma_reordered_headers(hs, hs2, perm, inv);
    lemma_found_columns(hs);
    let n = hs.len() as int;
    assert forall|i: int| 0 <= i < records.len() implies match (#[trigger] out[i], out2[i]) {
        (Ok((l, r)), Ok((l2, r2))) => l == l2 && same_text(r, r2),
        (Err(e), Err(e2)) => e == e2,
        _ => false,
    } by {
        assert(record_read_as(ix, i + 2, records[i], out[i]));
        assert(record_read_as(ix2, i + 2, records2[i], out2[i]));
        match (records[i], records2[i]) {
            (Ok(r), Ok(r2)) => {
                assert(fields_reordered(r@, r2@, perm));
                assert(first_missing_field(ix, r@.len() as int) is None);
                assert(first_missing_field(ix2, r2@.len() as int) is None);
                assert(r2@[ix2.street_name as int]@ == r@[ix.street_name as int]@);
                assert(r2@[ix2.street_qualifier as int]@ == r@[ix.street_qualifier as int]@);
                assert(r2@[ix2.begin_measure as int]@ == r@[ix.begin_measure as int]@);
                assert(r2@[ix2.end_measure as int]@ == r@[ix.end_measure as int]@);
                assert(r2@[ix2.location as int]@ == r@[ix.location as int]@);
            },
            (Err(e), Err(e2)) => {},
            _ => {},
        }
    }
}

} // verus!
