//! Residents by marital status.
use vstd::prelude::*;

use crate::census::sheet::{Sheet, SheetView};
use crate::census::{
    assert_get_counts, count_cells, count_labels_hold, count_labels_ok, map_counts,
    read_counts_spec, CensusError,
};
use crate::census::{count_at, counted_rows_outcome, lemma_count_cells_column, lemma_counts_of_rows};

verus! {

/// Residents by marital status.
#[derive(Clone, Copy, Debug, PartialEq, Eq)]
pub struct MaritalStatus {
    pub married: u64,
    pub common_law: u64,
    pub single: u64,
    pub separated: u64,
    pub divorced: u64,
    pub widowed: u64,
}

/// The labelled rows of the table, in the order they are read.
pub open spec fn marital_status_tests() -> Seq<(u32, &'static str)> {
    seq![(357u32, "Married (and not separated)"), (358u32, "Living common law"), (360u32, "Single (never legally married)"), (361u32, "Separated , but still legally married"), (362u32, "Divorced"), (363u32, "Widowed")]
}

fn marital_status_rows() -> (rows: Vec<(u32, &'static str)>)
    ensures
        rows@ == marital_status_tests(),
{
    let rows = vec![(357u32, "Married (and not separated)"), (358u32, "Living common law"), (360u32, "Single (never legally married)"), (361u32, "Separated , but still legally married"), (362u32, "Divorced"), (363u32, "Widowed")];
    assert(rows@ =~= marital_status_tests());
    rows
}

/// The table read from its counts, in the order of `marital_status_tests`.
pub open spec fn marital_status_from(v: Seq<u64>) -> MaritalStatus {
    MaritalStatus {
        married: v[0],
        common_law: v[1],
        single: v[2],
        separated: v[3],
        divorced: v[4],
        widowed: v[5],
    }
}

/// The table as read from a sheet, or the error the first missing count gives.
pub open spec fn marital_status_spec(s: SheetView) -> Result<MaritalStatus, CensusError> {
    map_counts(read_counts_spec(s, count_cells(marital_status_tests())), |v: Seq<u64>| marital_status_from(v))
}

/// Whether the rows of the table are labelled as `get_marital_status` requires.
pub fn check_marital_status_readable(sheet: &Sheet) -> (b: bool)
    ensures
        b == count_labels_ok(sheet@, marital_status_tests()),
{
    count_labels_hold(sheet, &marital_status_rows())
}

/// Reads the table, stopping at the first row without a count.
pub fn get_marital_status(sheet: &Sheet) -> (res: Result<MaritalStatus, CensusError>)
    requires
        count_labels_ok(sheet@, marital_status_tests()),
    ensures
        res == marital_status_spec(sheet@),
{
    let v = assert_get_counts(sheet, &marital_status_rows())?;
    Ok(
        MaritalStatus {
            married: v[0],
            common_law: v[1],
            single: v[2],
            separated: v[3],
            divorced: v[4],
            widowed: v[5],
        },
    )
}

/// The marital status table is read row by row, from row 357 to row 363: it is read
/// exactly when each of its rows holds a count, each field then holding the
/// count of its own row, and otherwise fails on the first row without one.
pub proof fn lemma_marital_status_by_row(s: SheetView)
    ensures
        counted_rows_outcome(s, seq![357u32, 358, 360, 361, 362, 363], 1, marital_status_spec(s)),
        marital_status_spec(s) matches Ok(v) ==> {
            &&& count_at(s, 357, 1) == Some(v.married)
            &&& count_at(s, 358, 1) == Some(v.common_law)
            &&& count_at(s, 360, 1) == Some(v.single)
            &&& count_at(s, 361, 1) == Some(v.separated)
            &&& count_at(s, 362, 1) == Some(v.divorced)
            &&& count_at(s, 363, 1) == Some(v.widowed)
        },
{
    let rows = seq![357u32, 358, 360, 361, 362, 363];
    lemma_count_cells_column(marital_status_tests(), rows);
    lemma_counts_of_rows(s, rows, 1, |v: Seq<u64>| marital_status_from(v));
    if let Ok(v) = read_counts_spec(s, count_cells(marital_status_tests())) {
        assert(count_at(s, rows[0] as int, 1) == Some(v[0]));
        assert(count_at(s, rows[1] as int, 1) == Some(v[1]));
        assert(count_at(s, rows[2] as int, 1) == Some(v[2]));
        assert(count_at(s, rows[3] as int, 1) == Some(v[3]));
        assert(count_at(s, rows[4] as int, 1) == Some(v[4]));
        assert(count_at(s, rows[5] as int, 1) == Some(v[5]));
    }
}

} // verus!
