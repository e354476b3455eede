//! Indigenous identity and ancestry.
use vstd::prelude::*;

use crate::census::sheet::{Sheet, SheetView};
use crate::census::{
    assert_get_counts, count_cells, lemma_row_labels_ok_counts, map_counts,
    read_counts_spec, row_labels_hold, row_labels_ok, CensusError,
};
use crate::census::{count_at, counted_rows_outcome, lemma_count_cells_column, lemma_counts_of_rows};

verus! {

/// Residents by Indigenous identity and ancestry.
#[derive(Clone, Copy, Debug)]
pub struct Indigenous {
    pub identity: IndigenousIdentity,
    pub ancestry: IndigenousAncestry,
}

/// Residents by Indigenous identity.
#[derive(Clone, Copy, Debug, PartialEq, Eq)]
pub struct IndigenousIdentity {
    pub metis: u64,
    pub first_nations: u64,
    pub inuk: u64,
    pub multiple: u64,
    pub other: u64,
}

/// Residents by Indigenous ancestry.
#[derive(Clone, Copy, Debug, PartialEq, Eq)]
pub struct IndigenousAncestry {
    pub first_nations: u64,
    pub metis: u64,
    pub inuit: u64,
}

/// The labelled rows of the table, in the order they are read.
pub open spec fn indigenous_identity_tests() -> Seq<(u32, &'static str)> {
    seq![(178u32, "Métis single identity"), (179u32, "First Nations (North American Indian) single identity"), (180u32, "Inuk (Inuit) single identity"), (181u32, "Multiple Indigenous identities"), (182u32, "Aboriginal identities not included elsewhere")]
}

fn indigenous_identity_rows() -> (rows: Vec<(u32, &'static str)>)
    ensures
        rows@ == indigenous_identity_tests(),
{
    let rows = vec![(178u32, "Métis single identity"), (179u32, "First Nations (North American Indian) single identity"), (180u32, "Inuk (Inuit) single identity"), (181u32, "Multiple Indigenous identities"), (182u32, "Aboriginal identities not included elsewhere")];
    assert(rows@ =~= indigenous_identity_tests());
    rows
}

/// The table read from its counts, in the order of `indigenous_identity_tests`.
pub open spec fn indigenous_identity_from(v: Seq<u64>) -> IndigenousIdentity {
    IndigenousIdentity {
        metis: v[0],
        first_nations: v[1],
        inuk: v[2],
        multiple: v[3],
        other: v[4],
    }
}

/// The table as read from a sheet, or the error the first missing count gives.
pub open spec fn indigenous_identity_spec(s: SheetView) -> Result<IndigenousIdentity, CensusError> {
    map_counts(read_counts_spec(s, count_cells(indigenous_identity_tests())), |v: Seq<u64>| indigenous_identity_from(v))
}

/// Whether every row of the table is labelled as `get_indigenous_identity` requires.
pub fn check_indigenous_identity_readable(sheet: &Sheet) -> (b: bool)
    ensures
        b == row_labels_ok(sheet@, indigenous_identity_tests()),
{
    row_labels_hold(sheet, &indigenous_identity_rows())
}

/// Reads the table once all its labels are known to be in place.
pub fn get_indigenous_identity(sheet: &Sheet) -> (res: Result<IndigenousIdentity, CensusError>)
    requires
        row_labels_ok(sheet@, indigenous_identity_tests()),
    ensures
        res == indigenous_identity_spec(sheet@),
{
    proof {
        lemma_row_labels_ok_counts(sheet@, indigenous_identity_tests());
    }
    let v = assert_get_counts(sheet, &indigenous_identity_rows())?;
    Ok(
        IndigenousIdentity {
            metis: v[0],
            first_nations: v[1],
            inuk: v[2],
            multiple: v[3],
            other: v[4],
        },
    )
}

/// The labelled rows of the table, in the order they are read.
pub open spec fn indigenous_ancestry_tests() -> Seq<(u32, &'static str)> {
    seq![(190u32, "First Nations (North American Indian) Indigenous ancestry"), (191u32, "Métis ancestry"), (192u32, "Inuit ancestry")]
}

fn indigenous_ancestry_rows() -> (rows: Vec<(u32, &'static str)>)
    ensures
        rows@ == indigenous_ancestry_tests(),
{
    let rows = vec![(190u32, "First Nations (North American Indian) Indigenous ancestry"), (191u32, "Métis ancestry"), (192u32, "Inuit ancestry")];
    assert(rows@ =~= indigenous_ancestry_tests());
    rows
}

/// The table read from its counts, in the order of `indigenous_ancestry_tests`.
pub open spec fn indigenous_ancestry_from(v: Seq<u64>) -> IndigenousAncestry {
    IndigenousAncestry {
        first_nations: v[0],
        metis: v[1],
        inuit: v[2],
    }
}

/// The table as read from a sheet, or the error the first missing count gives.
pub open spec fn indigenous_ancestry_spec(s: SheetView) -> Result<IndigenousAncestry, CensusError> {
    map_counts(read_counts_spec(s, count_cells(indigenous_ancestry_tests())), |v: Seq<u64>| indigenous_ancestry_from(v))
}

/// Whether every row of the table is labelled as `get_indigenous_ancestry` requires.
pub fn check_indigenous_ancestry_readable(sheet: &Sheet) -> (b: bool)
    ensures
        b == row_labels_ok(sheet@, indigenous_ancestry_tests()),
{
    row_labels_hold(sheet, &indigenous_ancestry_rows())
}

/// Reads the table once all its labels are known to be in place.
pub fn get_indigenous_ancestry(sheet: &Sheet) -> (res: Result<IndigenousAncestry, CensusError>)
    requires
        row_labels_ok(sheet@, indigenous_ancestry_tests()),
    ensures
        res == indigenous_ancestry_spec(sheet@),
{
    proof {
        lemma_row_labels_ok_counts(sheet@, indigenous_ancestry_tests());
    }
    let v = assert_get_counts(sheet, &indigenous_ancestry_rows())?;
    Ok(
        IndigenousAncestry {
            first_nations: v[0],
            metis: v[1],
            inuit: v[2],
        },
    )
}

/// What `get_indigenous` requires: labelled identity rows and, where the
/// identity table reads without error, labelled ancestry rows.
pub open spec fn indigenous_readable(s: SheetView) -> bool {
    &&& row_labels_ok(s, indigenous_identity_tests())
    &&& indigenous_identity_spec(s) is Ok ==> row_labels_ok(s, indigenous_ancestry_tests())
}

/// Decides `indigenous_readable`.
pub fn check_indigenous_readable(sheet: &Sheet) -> (b: bool)
    ensures
        b == indigenous_readable(sheet@),
{
    if !check_indigenous_identity_readable(sheet) {
        return false;
    }
    match get_indigenous_identity(sheet) {
        Ok(_) => check_indigenous_ancestry_readable(sheet),
        Err(_) => true,
    }
}

/// Reads both Indigenous tables, identity first.
pub fn get_indigenous(sheet: &Sheet) -> (res: Result<Indigenous, CensusError>)
    requires
        indigenous_readable(sheet@),
    ensures
        match res {
            Ok(i) => {
                &&& indigenous_identity_spec(sheet@) == Ok::<IndigenousIdentity, CensusError>(i.identity)
                &&& indigenous_ancestry_spec(sheet@) == Ok::<IndigenousAncestry, CensusError>(i.ancestry)
            },
            Err(e) => {
                ||| indigenous_identity_spec(sheet@) == Err::<IndigenousIdentity, CensusError>(e)
                ||| (indigenous_identity_spec(sheet@) is Ok && indigenous_ancestry_spec(sheet@) == Err::<
                    IndigenousAncestry,
                    CensusError,
                >(e))
            },
        },
{
    let identity = get_indigenous_identity(sheet)?;
    let ancestry = get_indigenous_ancestry(sheet)?;
    Ok(Indigenous { identity, ancestry })
}

/// The Indigenous identity table is read row by row, from row 178 to row 182: it is read
/// exactly when each of its rows holds a count, each field then holding the
/// count of its own row, and otherwise fails on the first row without one.
pub proof fn lemma_indigenous_identity_by_row(s: SheetView)
    ensures
        counted_rows_outcome(s, seq![178u32, 179, 180, 181, 182], 1, indigenous_identity_spec(s)),
        indigenous_identity_spec(s) matches Ok(v) ==> {
            &&& count_at(s, 178, 1) == Some(v.metis)
            &&& count_at(s, 179, 1) == Some(v.first_nations)
            &&& count_at(s, 180, 1) == Some(v.inuk)
            &&& count_at(s, 181, 1) == Some(v.multiple)
            &&& count_at(s, 182, 1) == Some(v.other)
        },
{
    let rows = seq![178u32, 179, 180, 181, 182];
    lemma_count_cells_column(indigenous_identity_tests(), rows);
    lemma_counts_of_rows(s, rows, 1, |v: Seq<u64>| indigenous_identity_from(v));
    if let Ok(v) = read_counts_spec(s, count_cells(indigenous_identity_tests())) {
        assert(count_at(s, rows[0] as int, 1) == Some(v[0]));
        assert(count_at(s, rows[1] as int, 1) == Some(v[1]));
        assert(count_at(s, rows[2] as int, 1) == Some(v[2]));
        assert(count_at(s, rows[3] as int, 1) == Some(v[3]));
        assert(count_at(s, rows[4] as int, 1) == Some(v[4]));
    }
}

/// The Indigenous ancestry table is read row by row, from row 190 to row 192: it is read
/// exactly when each of its rows holds a count, each field then holding the
/// count of its own row, and otherwise fails on the first row without one.
pub proof fn lemma_indigenous_ancestry_by_row(s: SheetView)
    ensures
        counted_rows_outcome(s, seq![190u32, 191, 192], 1, indigenous_ancestry_spec(s)),
        indigenous_ancestry_spec(s) matches Ok(v) ==> {
            &&& count_at(s, 190, 1) == Some(v.first_nations)
            &&& count_at(s, 191, 1) == Some(v.metis)
            &&& count_at(s, 192, 1) == Some(v.inuit)
        },
{
    let rows = seq![190u32, 191, 192];
    lemma_count_cells_column(indigenous_ancestry_tests(), rows);
    lemma_counts_of_rows(s, rows, 1, |v: Seq<u64>| indigenous_ancestry_from(v));
    if let Ok(v) = read_counts_spec(s, count_cells(indigenous_ancestry_tests())) {
        assert(count_at(s, rows[0] as int, 1) == Some(v[0]));
        assert(count_at(s, rows[1] as int, 1) == Some(v[1]));
        assert(count_at(s, rows[2] as int, 1) == Some(v[2]));
    }
}

} // verus!
