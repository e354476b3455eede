//! Knowledge of official and non-official languages.
use vstd::prelude::*;

use crate::census::sheet::{Sheet, SheetView};
use crate::census::{
    assert_get_counts, count_cells, exact_label_at, exact_label_holds, lemma_row_labels_ok_counts, map_counts,
    read_counts_spec, row_labels_hold, row_labels_ok, CensusError,
};
use crate::census::{count_at, counted_rows_outcome, lemma_count_cells_column, lemma_counts_of_rows};
use crate::census::rows::{map_view, rows_readable, scan_count_rows, scan_result, scan_rows, with_extra, CountRule};
use crate::census::label_map::LabelMap;
use crate::census::get_int_rounding;

verus! {

/// Residents by knowledge of languages.
#[derive(Debug)]
pub struct Language {
    pub official: OfficialLanguages,
    pub unofficial: UnofficialLanguages,
}

/// Residents by knowledge of the official languages.
#[derive(Clone, Copy, Debug, PartialEq, Eq)]
pub struct OfficialLanguages {
    pub english_only: u64,
    pub english_and_french: u64,
    pub neither_english_or_french: u64,
    pub french_only: u64,
}

/// Residents by knowledge of the non-official languages most spoken, keyed by
/// the label of each row as it stands, with the remaining languages under
/// "Other".
#[derive(Debug)]
pub struct UnofficialLanguages(pub LabelMap<u64>);

/// The labelled rows of the table, in the order they are read.
pub open spec fn official_language_tests() -> Seq<(u32, &'static str)> {
    seq![(128u32, "English only"), (129u32, "English and French"), (130u32, "Neither English nor French"), (131u32, "French only")]
}

fn official_language_rows() -> (rows: Vec<(u32, &'static str)>)
    ensures
        rows@ == official_language_tests(),
{
    let rows = vec![(128u32, "English only"), (129u32, "English and French"), (130u32, "Neither English nor French"), (131u32, "French only")];
    assert(rows@ =~= official_language_tests());
    rows
}

/// The table read from its counts, in the order of `official_language_tests`.
pub open spec fn official_language_from(v: Seq<u64>) -> OfficialLanguages {
    OfficialLanguages {
        english_only: v[0],
        english_and_french: v[1],
        neither_english_or_french: v[2],
        french_only: v[3],
    }
}

/// The table as read from a sheet, or the error the first missing count gives.
pub open spec fn official_language_spec(s: SheetView) -> Result<OfficialLanguages, CensusError> {
    map_counts(read_counts_spec(s, count_cells(official_language_tests())), |v: Seq<u64>| official_language_from(v))
}

/// Whether every row of the table is labelled as `read_official_language_counts` requires.
pub fn check_official_language_readable(sheet: &Sheet) -> (b: bool)
    ensures
        b == row_labels_ok(sheet@, official_language_tests()),
{
    row_labels_hold(sheet, &official_language_rows())
}

/// Reads the table once all its labels are known to be in place.
fn read_official_language_counts(sheet: &Sheet) -> (res: Result<OfficialLanguages, CensusError>)
    requires
        row_labels_ok(sheet@, official_language_tests()),
    ensures
        res == official_language_spec(sheet@),
{
    proof {
        lemma_row_labels_ok_counts(sheet@, official_language_tests());
    }
    let v = assert_get_counts(sheet, &official_language_rows())?;
    Ok(
        OfficialLanguages {
            english_only: v[0],
            english_and_french: v[1],
            neither_english_or_french: v[2],
            french_only: v[3],
        },
    )
}

/// What `get_official_languages` requires: the heading and the labelled rows.
pub open spec fn official_languages_readable(s: SheetView) -> bool {
    &&& exact_label_at(s, 126, 0, "LANGUAGES"@)
    &&& row_labels_ok(s, official_language_tests())
}

/// Decides `official_languages_readable`.
pub fn check_official_languages_readable(sheet: &Sheet) -> (b: bool)
    ensures
        b == official_languages_readable(sheet@),
{
    exact_label_holds(sheet, 126, 0, "LANGUAGES") && check_official_language_readable(sheet)
}

/// Reads the official-languages table.
pub fn get_official_languages(sheet: &Sheet) -> (res: Result<OfficialLanguages, CensusError>)
    requires
        official_languages_readable(sheet@),
    ensures
        res == official_language_spec(sheet@),
{
    read_official_language_counts(sheet)
}

/// How the rows of the non-official-languages table are read.
pub open spec fn unofficial_rule() -> CountRule {
    CountRule::Typed { positive_ints: true }
}

/// The count of the remaining languages, or the error reading it gives.
pub open spec fn other_languages(s: SheetView) -> Result<u64, CensusError> {
    match count_at(s, 166, 1) {
        Some(v) => Ok(v),
        None => Err(CensusError::InvalidCount { row: 166, col: 1 }),
    }
}

/// The non-official-languages table as a map, or the error reading it gives.
pub open spec fn unofficial_languages_spec(s: SheetView) -> Result<Map<Seq<char>, u64>, CensusError> {
    with_extra(scan_result(scan_rows(s, 136, 165, unofficial_rule(), false)), "Other"@, other_languages(s))
}

/// What `get_unofficial_languages` requires: the heading of the table and
/// rows that do not stop the reading.
pub open spec fn unofficial_languages_readable(s: SheetView) -> bool {
    &&& exact_label_at(s, 135, 0, "Knowledge of Non-official Languages Spoken (Top 30)"@)
    &&& !(scan_rows(s, 136, 165, unofficial_rule(), false) is Halted)
}

/// Decides `unofficial_languages_readable`.
pub fn check_unofficial_languages_readable(sheet: &Sheet) -> (b: bool)
    ensures
        b == unofficial_languages_readable(sheet@),
{
    exact_label_holds(sheet, 135, 0, "Knowledge of Non-official Languages Spoken (Top 30)")
        && rows_readable(sheet, 136, 165, CountRule::Typed { positive_ints: true }, false)
}

/// Reads the non-official-languages table.
pub fn get_unofficial_languages(sheet: &Sheet) -> (res: Result<UnofficialLanguages, CensusError>)
    requires
        unofficial_languages_readable(sheet@),
    ensures
        match res {
            Ok(u) => unofficial_languages_spec(sheet@) == Ok::<Map<Seq<char>, u64>, CensusError>(u.0@),
            Err(e) => unofficial_languages_spec(sheet@) == Err::<Map<Seq<char>, u64>, CensusError>(e),
        },
{
    let mut map = scan_count_rows(sheet, 136, 165, CountRule::Typed { positive_ints: true }, false)?;
    match get_int_rounding(sheet.get_value(166, 1)) {
        Some(v) => {
            map.insert("Other".to_owned(), v as u64);
        },
        None => {
            return Err(CensusError::InvalidCount { row: 166, col: 1 });
        },
    }
    Ok(UnofficialLanguages(map))
}

/// What `get_languages` requires: a readable official-languages table and,
/// where it reads without error, a readable non-official one.
pub open spec fn languages_readable(s: SheetView) -> bool {
    &&& official_languages_readable(s)
    &&& official_language_spec(s) is Ok ==> unofficial_languages_readable(s)
}

/// Decides `languages_readable`.
pub fn check_languages_readable(sheet: &Sheet) -> (b: bool)
    ensures
        b == languages_readable(sheet@),
{
    if !check_official_languages_readable(sheet) {
        return false;
    }
    match get_official_languages(sheet) {
        Ok(_) => check_unofficial_languages_readable(sheet),
        Err(_) => true,
    }
}

/// Reads both language tables, official languages first.
pub fn get_languages(sheet: &Sheet) -> (res: Result<Language, CensusError>)
    requires
        languages_readable(sheet@),
    ensures
        match res {
            Ok(l) => {
                &&& official_language_spec(sheet@) == Ok::<OfficialLanguages, CensusError>(l.official)
                &&& unofficial_languages_spec(sheet@) == Ok::<Map<Seq<char>, u64>, CensusError>(l.unofficial.0@)
            },
            Err(e) => {
                ||| official_language_spec(sheet@) == Err::<OfficialLanguages, CensusError>(e)
                ||| (official_language_spec(sheet@) is Ok && unofficial_languages_spec(sheet@) == Err::<
                    Map<Seq<char>, u64>,
                    CensusError,
                >(e))
            },
        },
{
    let official = get_official_languages(sheet)?;
    let unofficial = get_unofficial_languages(sheet)?;
    Ok(Language { official, unofficial })
}

/// The official languages table is read row by row, from row 128 to row 131: it is read
/// exactly when each of its rows holds a count, each field then holding the
/// count of its own row, and otherwise fails on the first row without one.
pub proof fn lemma_official_language_by_row(s: SheetView)
    ensures
        counted_rows_outcome(s, seq![128u32, 129, 130, 131], 1, official_language_spec(s)),
        official_language_spec(s) matches Ok(v) ==> {
            &&& count_at(s, 128, 1) == Some(v.english_only)
            &&& count_at(s, 129, 1) == Some(v.english_and_french)
            &&& count_at(s, 130, 1) == Some(v.neither_english_or_french)
            &&& count_at(s, 131, 1) == Some(v.french_only)
        },
{
    let rows = seq![128u32, 129, 130, 131];
    lemma_count_cells_column(official_language_tests(), rows);
    lemma_counts_of_rows(s, rows, 1, |v: Seq<u64>| official_language_from(v));
    if let Ok(v) = read_counts_spec(s, count_cells(official_language_tests())) {
        assert(count_at(s, rows[0] as int, 1) == Some(v[0]));
        assert(count_at(s, rows[1] as int, 1) == Some(v[1]));
        assert(count_at(s, rows[2] as int, 1) == Some(v[2]));
        assert(count_at(s, rows[3] as int, 1) == Some(v[3]));
    }
}

/// The non-official-languages table holds one entry per row from 136 to 165,
/// keyed by the label as written, and the remaining languages under
/// "Other": read without stopping, it fails on one of these rows, or on a
/// missing count in row 166, or gives the map of these rows (each with the
/// count of the last row so labelled) with "Other" set to the count of row
/// 166.
pub proof fn lemma_unofficial_languages_rows(s: SheetView)
    ensures
        unofficial_languages_readable(s) ==> (unofficial_languages_spec(s) matches Ok(m) ==> exists|rows: Map<Seq<char>, u64>|
            {
                &&& crate::census::rows::table_of_rows(
                    rows,
                    136,
                    165,
                    |r: int| crate::census::rows::row_key(s, r, false),
                    |r: int| crate::census::rows::row_count(s, r, CountRule::Typed { positive_ints: true }),
                )
                &&& count_at(s, 166, 1) == Some(m["Other"@])
                &&& #[trigger] rows.insert("Other"@, m["Other"@]) == m
            }),
        unofficial_languages_readable(s) ==> (unofficial_languages_spec(s) matches Err(e) ==> {
            ||| exists|r: int| 136 <= r <= 165 && #[trigger] crate::census::rows::row_fails(s, r, CountRule::Typed { positive_ints: true }, e)
            ||| count_at(s, 166, 1) is None && e == (CensusError::InvalidCount { row: 166, col: 1 })
        }),
{
    crate::census::rows::lemma_scan_table(s, 136, 165, unofficial_rule(), false);
    crate::census::rows::lemma_scan_failed(s, 136, 165, unofficial_rule(), false);
    if unofficial_languages_readable(s) {
        if let Ok(m) = unofficial_languages_spec(s) {
            let rows = crate::census::rows::scan_result(crate::census::rows::scan_rows(s, 136, 165, unofficial_rule(), false))->Ok_0;
            assert(rows.insert("Other"@, m["Other"@]) == m);
        }
    }
}

} // verus!
