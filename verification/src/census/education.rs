//! Residents by post-secondary field of study and by highest certificate.
use vstd::prelude::*;

use crate::census::label_map::LabelMap;
use crate::census::population::Population;
use crate::census::rows::{
    lemma_rounded_never_halts, map_view, pairs_map, scan_count_rows, scan_result, scan_rows,
    CountRule,
};
use crate::census::sheet::{Cell, Sheet, SheetView};
use crate::census::{count_at, get_int_rounding, label_at, label_holds, CensusError};
use crate::text::{trim, trimmed};

verus! {

/// Residents by post-secondary field of study, keyed by the trimmed label of
/// each row.
#[derive(Debug)]
pub struct PostSecondary(pub LabelMap<Population>);

/// Residents by highest certificate, diploma or degree, keyed by the trimmed
/// label of each row.
#[derive(Debug)]
pub struct HighestCertDiplomaDegree(pub LabelMap<u64>);

/// What reading one row of the field-of-study table gives: its trimmed label
/// and the male and female counts, or the first error.
pub open spec fn post_secondary_row(s: SheetView, row: int) -> Result<(Seq<char>, Population), CensusError> {
    match s.cell(row, 0) {
        Some(Cell::String(t)) => match count_at(s, row, 1) {
            None => Err(CensusError::InvalidCount { row: row as u32, col: 1 }),
            Some(male) => match count_at(s, row, 2) {
                None => Err(CensusError::InvalidCount { row: row as u32, col: 2 }),
                Some(female) => Ok((trimmed(t@), Population { male, female })),
            },
        },
        _ => Err(CensusError::NotALabel { row: row as u32 }),
    }
}

/// Reads the rows `row` to `last` of the field-of-study table in order.
pub open spec fn post_secondary_rows(s: SheetView, row: int, last: int) -> Result<
    Seq<(Seq<char>, Population)>,
    CensusError,
>
    decreases last - row + 1,
{
    if row > last {
        Ok(seq![])
    } else {
        match post_secondary_row(s, row) {
            Ok(e) => match post_secondary_rows(s, row + 1, last) {
                Ok(rest) => Ok(seq![e] + rest),
                Err(err) => Err(err),
            },
            Err(err) => Err(err),
        }
    }
}

/// The field-of-study table as a map, or the error reading it gives.
pub open spec fn post_secondary_spec(s: SheetView) -> Result<Map<Seq<char>, Population>, CensusError> {
    match post_secondary_rows(s, 371, 382) {
        Ok(entries) => Ok(pairs_map(entries)),
        Err(e) => Err(e),
    }
}

/// Reads the field-of-study table.
pub fn get_post_secondary(sheet: &Sheet) -> (res: Result<PostSecondary, CensusError>)
    ensures
        match res {
            Ok(p) => post_secondary_spec(sheet@) == Ok::<Map<Seq<char>, Population>, CensusError>(p.0@),
            Err(e) => post_secondary_spec(sheet@) == Err::<Map<Seq<char>, Population>, CensusError>(e),
        },
{
    let ghost whole = post_secondary_rows(sheet@, 371, 382);
    let ghost mut entries: Seq<(Seq<char>, Population)> = seq![];
    let mut map: LabelMap<Population> = LabelMap::new();
    let mut row: u32 = 371;
    proof {
        if let Ok(rest) = whole {
            assert(entries + rest =~= rest);
        }
    }
    while row <= 382
        invariant
            371 <= row <= 383,
            whole == post_secondary_rows(sheet@, 371, 382),
            whole == match post_secondary_rows(sheet@, row as int, 382) {
                Ok(rest) => Ok(entries + rest),
                Err(e) => Err(e),
            },
            map@ == pairs_map(entries),
        decreases 383 - row,
    {
        let ghost later = post_secondary_rows(sheet@, row as int + 1, 382);
        let key = match sheet.get_value(row, 0) {
            Some(Cell::String(t)) => trim(t.as_str()).to_owned(),
            _ => {
                return Err(CensusError::NotALabel { row });
            },
        };
        let male = match get_int_rounding(sheet.get_value(row, 1)) {
            Some(v) => v as u64,
            None => {
                return Err(CensusError::InvalidCount { row, col: 1 });
            },
        };
        let female = match get_int_rounding(sheet.get_value(row, 2)) {
            Some(v) => v as u64,
            None => {
                return Err(CensusError::InvalidCount { row, col: 2 });
            },
        };
        let population = Population { male, female };
        proof {
            let e = (key@, population);
            if let Ok(rest) = later {
                assert(entries + (seq![e] + rest) =~= entries.push(e) + rest);
            }
            assert(entries.push(e).drop_last() =~= entries);
            entries = entries.push(e);
        }
        map.insert(key, population);
        row = row + 1;
    }
    assert(entries + seq![] =~= entries);
    Ok(PostSecondary(map))
}

/// The highest-certificate table as a map, or the error reading it gives.
pub open spec fn highest_cert_spec(s: SheetView) -> Result<Map<Seq<char>, u64>, CensusError> {
    scan_result(scan_rows(s, 387, 395, CountRule::Rounded, true))
}

/// Reads the highest-certificate table.
pub fn get_highest_cert_diploma_or_degree(sheet: &Sheet) -> (res: Result<HighestCertDiplomaDegree, CensusError>)
    ensures
        match res {
            Ok(h) => highest_cert_spec(sheet@) == Ok::<Map<Seq<char>, u64>, CensusError>(h.0@),
            Err(e) => highest_cert_spec(sheet@) == Err::<Map<Seq<char>, u64>, CensusError>(e),
        },
{
    proof {
        lemma_rounded_never_halts(sheet@, 387, 395, true);
    }
    let map = scan_count_rows(sheet, 387, 395, CountRule::Rounded, true)?;
    Ok(HighestCertDiplomaDegree(map))
}

/// What `get_education` requires: the heading of the education tables.
pub open spec fn education_readable(s: SheetView) -> bool {
    label_at(s, 369, 0, "EDUCATION"@)
}

/// Decides `education_readable`.
pub fn check_education_readable(sheet: &Sheet) -> (b: bool)
    ensures
        b == education_readable(sheet@),
{
    label_holds(sheet, 369, 0, "EDUCATION")
}

/// Reads both education tables, field of study first.
pub fn get_education(sheet: &Sheet) -> (res: Result<(PostSecondary, HighestCertDiplomaDegree), CensusError>)
    requires
        education_readable(sheet@),
    ensures
        match res {
            Ok((p, h)) => {
                &&& post_secondary_spec(sheet@) == Ok::<Map<Seq<char>, Population>, CensusError>(p.0@)
                &&& highest_cert_spec(sheet@) == Ok::<Map<Seq<char>, u64>, CensusError>(h.0@)
            },
            Err(e) => {
                ||| post_secondary_spec(sheet@) == Err::<Map<Seq<char>, Population>, CensusError>(e)
                ||| (post_secondary_spec(sheet@) is Ok && highest_cert_spec(sheet@) == Err::<
                    Map<Seq<char>, u64>,
                    CensusError,
                >(e))
            },
        },
{
    let post_secondary = get_post_secondary(sheet)?;
    let highest = get_highest_cert_diploma_or_degree(sheet)?;
    Ok((post_secondary, highest))
}

/// The highest-certificate table holds one entry per row from 387 to 395: it
/// either fails on one of these rows or gives the map whose keys are the
/// trimmed labels of these rows, each with the rounded count of the last row
/// so labelled.
pub proof fn lemma_highest_cert_rows(s: SheetView)
    ensures
        highest_cert_spec(s) matches Ok(m) ==> crate::census::rows::table_of_rows(
            m,
            387,
            395,
            |r: int| crate::census::rows::row_key(s, r, true),
            |r: int| crate::census::rows::row_count(s, r, CountRule::Rounded),
        ),
        highest_cert_spec(s) matches Err(e) ==> exists|r: int| 387 <= r <= 395 && #[trigger] crate::census::rows::row_fails(s, r, CountRule::Rounded, e),
{
    lemma_rounded_never_halts(s, 387, 395, true);
    crate::census::rows::lemma_scan_table(s, 387, 395, CountRule::Rounded, true);
    crate::census::rows::lemma_scan_failed(s, 387, 395, CountRule::Rounded, true);
}

/// The male and female counts of row `r`, in columns 1 and 2.
pub open spec fn row_counts_by_sex(s: SheetView, r: int) -> Option<Population> {
    match (count_at(s, r, 1), count_at(s, r, 2)) {
        (Some(male), Some(female)) => Some(Population { male, female }),
        _ => None,
    }
}

/// Whether row `r` of the field-of-study table fails with `e`: a first cell
/// without text, or a missing male count, or then a missing female count.
pub open spec fn field_row_fails(s: SheetView, r: int, e: CensusError) -> bool {
    if !(s.cell(r, 0) matches Some(Cell::String(_))) {
        e == (CensusError::NotALabel { row: r as u32 })
    } else if count_at(s, r, 1) is None {
        e == (CensusError::InvalidCount { row: r as u32, col: 1 })
    } else {
        count_at(s, r, 2) is None && e == (CensusError::InvalidCount { row: r as u32, col: 2 })
    }
}

proof fn lemma_post_secondary_entries(s: SheetView, row: int, last: int)
    requires
        row <= last + 1,
    ensures
        post_secondary_rows(s, row, last) matches Ok(entries) ==> {
            &&& entries.len() == last - row + 1
            &&& forall|i: int|
                0 <= i < entries.len() ==> crate::census::rows::row_key(s, row + i, true) == Some(#[trigger] entries[i].0)
                    && row_counts_by_sex(s, row + i) == Some(entries[i].1)
        },
        post_secondary_rows(s, row, last) matches Err(e) ==> exists|r: int| row <= r <= last && #[trigger] field_row_fails(s, r, e),
    decreases last - row + 1,
{
    if row <= last {
        lemma_post_secondary_entries(s, row + 1, last);
        if let Ok(entries) = post_secondary_rows(s, row, last) {
            let rest = post_secondary_rows(s, row + 1, last)->Ok_0;
            assert forall|i: int| 0 <= i < entries.len() implies crate::census::rows::row_key(s, row + i, true) == Some(
                #[trigger] entries[i].0,
            ) && row_counts_by_sex(s, row + i) == Some(entries[i].1) by {
                if i > 0 {
                    assert(entries[i] == rest[i - 1]);
                    assert(row + 1 + (i - 1) == row + i);
                }
            }
        }
        if let Err(e) = post_secondary_rows(s, row, last) {
            if post_secondary_row(s, row) is Err {
                assert(field_row_fails(s, row, e));
            } else {
                let r = choose|r: int| row + 1 <= r <= last && #[trigger] field_row_fails(s, r, e);
                assert(field_row_fails(s, r, e));
            }
        }
    }
}

/// The field-of-study table holds one entry per row from 371 to 382: it
/// either fails on one of these rows or gives the map whose keys are the
/// trimmed labels of these rows, each with the male and female counts of the
/// last row so labelled.
pub proof fn lemma_post_secondary_rows(s: SheetView)
    ensures
        post_secondary_spec(s) matches Ok(m) ==> crate::census::rows::table_of_rows(
            m,
            371,
            382,
            |r: int| crate::census::rows::row_key(s, r, true),
            |r: int| row_counts_by_sex(s, r),
        ),
        post_secondary_spec(s) matches Err(e) ==> exists|r: int| 371 <= r <= 382 && #[trigger] field_row_fails(s, r, e),
{
    lemma_post_secondary_entries(s, 371, 382);
    if let Ok(entries) = post_secondary_rows(s, 371, 382) {
        crate::census::rows::lemma_table_of_entries(entries, 371, 382, |r: int| crate::census::rows::row_key(s, r, true), |r: int| row_counts_by_sex(s, r));
    }
}

} // verus!
