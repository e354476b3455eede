//! Counts of citizens and non-citizens.
use vstd::prelude::*;

use crate::census::sheet::{Sheet, SheetView};
use crate::census::{
    assert_get_counts, count_cells, count_labels_hold, count_labels_ok, map_counts,
    read_counts_spec, CensusError,
};
use crate::census::{count_at, counted_rows_outcome, lemma_count_cells_column, lemma_counts_of_rows};

verus! {

/// Residents by citizenship.
#[derive(Clone, Copy, Debug, PartialEq, Eq)]
pub struct Citizenship {
    pub citizen: u64,
    pub non_citizen: u64,
}

/// The labelled rows of the table, in the order they are read.
pub open spec fn citizenship_tests() -> Seq<(u32, &'static str)> {
    seq![(222u32, "Canadian citizens"), (223u32, "Not Canadian citizens")]
}

fn citizenship_rows() -> (rows: Vec<(u32, &'static str)>)
    ensures
        rows@ == citizenship_tests(),
{
    let rows = vec![(222u32, "Canadian citizens"), (223u32, "Not Canadian citizens")];
    assert(rows@ =~= citizenship_tests());
    rows
}

/// The table read from its counts, in the order of `citizenship_tests`.
pub open spec fn citizenship_from(v: Seq<u64>) -> Citizenship {
    Citizenship {
        citizen: v[0],
        non_citizen: v[1],
    }
}

/// The table as read from a sheet, or the error the first missing count gives.
pub open spec fn citizenship_spec(s: SheetView) -> Result<Citizenship, CensusError> {
    map_counts(read_counts_spec(s, count_cells(citizenship_tests())), |v: Seq<u64>| citizenship_from(v))
}

/// Whether the rows of the table are labelled as `get_citizenship` requires.
pub fn check_citizenship_readable(sheet: &Sheet) -> (b: bool)
    ensures
        b == count_labels_ok(sheet@, citizenship_tests()),
{
    count_labels_hold(sheet, &citizenship_rows())
}

/// Reads the table, stopping at the first row without a count.
pub fn get_citizenship(sheet: &Sheet) -> (res: Result<Citizenship, CensusError>)
    requires
        count_labels_ok(sheet@, citizenship_tests()),
    ensures
        res == citizenship_spec(sheet@),
{
    let v = assert_get_counts(sheet, &citizenship_rows())?;
    Ok(
        Citizenship {
            citizen: v[0],
            non_citizen: v[1],
        },
    )
}

/// The Citizenship table is read row by row, from row 222 to row 223: it is read
/// exactly when each of its rows holds a count, each field then holding the
/// count of its own row, and otherwise fails on the first row without one.
pub proof fn lemma_citizenship_by_row(s: SheetView)
    ensures
        counted_rows_outcome(s, seq![222u32, 223], 1, citizenship_spec(s)),
        citizenship_spec(s) matches Ok(v) ==> {
            &&& count_at(s, 222, 1) == Some(v.citizen)
            &&& count_at(s, 223, 1) == Some(v.non_citizen)
        },
{
    let rows = seq![222u32, 223];
    lemma_count_cells_column(citizenship_tests(), rows);
    lemma_counts_of_rows(s, rows, 1, |v: Seq<u64>| citizenship_from(v));
    if let Ok(v) = read_counts_spec(s, count_cells(citizenship_tests())) {
        assert(count_at(s, rows[0] as int, 1) == Some(v[0]));
        assert(count_at(s, rows[1] as int, 1) == Some(v[1]));
    }
}

} // verus!
