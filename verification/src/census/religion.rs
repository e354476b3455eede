//! Residents by religion.
use vstd::prelude::*;

use crate::census::label_map::LabelMap;
use crate::census::rows::{rows_readable, scan_count_rows, scan_result, scan_rows, CountRule};
use crate::census::sheet::{Sheet, SheetView};
use crate::census::{label_at, label_holds, CensusError};

verus! {

/// Residents by religion, keyed by the trimmed label of each row.
#[derive(Debug)]
pub struct Religion(pub LabelMap<u64>);

/// How the rows of the religion table are read.
pub open spec fn religion_rule() -> CountRule {
    CountRule::Typed { positive_ints: true }
}

/// The religion table as a map, or the error reading it gives.
pub open spec fn religion_spec(s: SheetView) -> Result<Map<Seq<char>, u64>, CensusError> {
    scan_result(scan_rows(s, 328, 350, religion_rule(), true))
}

/// What `get_religion` requires: the heading of the table, and rows that do
/// not stop the reading.
pub open spec fn religion_readable(s: SheetView) -> bool {
    &&& label_at(s, 326, 0, "RELIGION"@)
    &&& !(scan_rows(s, 328, 350, religion_rule(), true) is Halted)
}

/// Decides `religion_readable`.
pub fn check_religion_readable(sheet: &Sheet) -> (b: bool)
    ensures
        b == religion_readable(sheet@),
{
    label_holds(sheet, 326, 0, "RELIGION") && rows_readable(
        sheet,
        328,
        350,
        CountRule::Typed { positive_ints: true },
        true,
    )
}

/// Reads the religion table.
pub fn get_religion(sheet: &Sheet) -> (res: Result<Religion, CensusError>)
    requires
        religion_readable(sheet@),
    ensures
        match res {
            Ok(r) => religion_spec(sheet@) == Ok::<Map<Seq<char>, u64>, CensusError>(r.0@),
            Err(e) => religion_spec(sheet@) == Err::<Map<Seq<char>, u64>, CensusError>(e),
        },
{
    let map = scan_count_rows(sheet, 328, 350, CountRule::Typed { positive_ints: true }, true)?;
    Ok(Religion(map))
}

/// The religion table holds one entry per row from 328 to 350: read without
/// stopping, it either fails on one of these rows or gives the map whose
/// keys are the trimmed labels of these rows, each with the count of the last
/// row so labelled.
pub proof fn lemma_religion_rows(s: SheetView)
    ensures
        religion_readable(s) ==> (religion_spec(s) matches Ok(m) ==> crate::census::rows::table_of_rows(
            m,
            328,
            350,
            |r: int| crate::census::rows::row_key(s, r, true),
            |r: int| crate::census::rows::row_count(s, r, CountRule::Typed { positive_ints: true }),
        )),
        religion_spec(s) matches Err(e) ==> exists|r: int|
            328 <= r <= 350 && #[trigger] crate::census::rows::row_fails(s, r, CountRule::Typed { positive_ints: true }, e),
{
    crate::census::rows::lemma_scan_table(s, 328, 350, religion_rule(), true);
    crate::census::rows::lemma_scan_failed(s, 328, 350, religion_rule(), true);
}

} // verus!
