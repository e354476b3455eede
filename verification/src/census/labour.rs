//! Residents by sector of employment.
use vstd::prelude::*;

use crate::census::label_map::LabelMap;
use crate::census::rows::{
    lemma_rounded_never_halts, map_view, rows_complete, scan_count_rows, scan_result, scan_rows,
    CountRule,
};
use crate::census::sheet::{Sheet, SheetView};
use crate::census::CensusError;

verus! {

/// Residents by sector of employment, keyed by the trimmed label of each row.
#[derive(Debug)]
pub struct EmploymentSector(pub LabelMap<u64>);

/// The employment-sector table as a map.
pub open spec fn employment_sector_spec(s: SheetView) -> Result<Map<Seq<char>, u64>, CensusError> {
    scan_result(scan_rows(s, 442, 461, CountRule::Rounded, true))
}

/// What `get_employment_sector` requires: every row a label and a count.
pub open spec fn employment_sector_readable(s: SheetView) -> bool {
    scan_rows(s, 442, 461, CountRule::Rounded, true) is Done
}

/// Decides `employment_sector_readable`.
pub fn check_employment_sector_readable(sheet: &Sheet) -> (b: bool)
    ensures
        b == employment_sector_readable(sheet@),
{
    rows_complete(sheet, 442, 461, CountRule::Rounded, true)
}

/// Reads the employment-sector table, every row of which holds a label and a
/// count.
pub fn get_employment_sector(sheet: &Sheet) -> (res: Result<EmploymentSector, CensusError>)
    requires
        employment_sector_readable(sheet@),
    ensures
        res matches Ok(e) && employment_sector_spec(sheet@) == Ok::<Map<Seq<char>, u64>, CensusError>(e.0@),
{
    proof {
        lemma_rounded_never_halts(sheet@, 442, 461, true);
    }
    let map = scan_count_rows(sheet, 442, 461, CountRule::Rounded, true)?;
    Ok(EmploymentSector(map))
}

/// The employment-sector table holds one entry per row from 442 to 461: a
/// readable table gives the map whose keys are the trimmed labels of these
/// rows, each with the rounded count of the last row so labelled.
pub proof fn lemma_employment_sector_rows(s: SheetView)
    ensures
        employment_sector_readable(s) ==> (employment_sector_spec(s) matches Ok(m) && crate::census::rows::table_of_rows(
            m,
            442,
            461,
            |r: int| crate::census::rows::row_key(s, r, true),
            |r: int| crate::census::rows::row_count(s, r, CountRule::Rounded),
        )),
{
    crate::census::rows::lemma_scan_table(s, 442, 461, CountRule::Rounded, true);
}

} // verus!
