//! Immigrants by place of birth and by period of immigration.
use vstd::prelude::*;

use crate::census::label_map::LabelMap;
use crate::census::rows::{
    map_view, rows_readable, scan_count_rows, scan_result, scan_rows, with_extra, CountRule,
};
use crate::census::sheet::{Sheet, SheetView};
use crate::census::{
    assert_get_counts, count_at, count_cells, count_labels_hold, count_labels_ok,
    get_int_rounding, label_at, label_holds, map_counts, read_counts_spec, CensusError,
};
use crate::census::{counted_rows_outcome, lemma_count_cells_column, lemma_counts_of_rows};

verus! {

/// Immigrants by place of birth and by period of immigration.
#[derive(Debug)]
pub struct Immigration {
    pub birthplace: Birthplace,
    pub period: ImmigrationPeriod,
}

/// Immigrants by place of birth, keyed by the trimmed label of each row, with
/// the remaining places counted under "Other".
#[derive(Debug)]
pub struct Birthplace(pub LabelMap<u64>);

/// Immigrants by period of immigration.
#[derive(Clone, Copy, Debug, PartialEq, Eq)]
pub struct ImmigrationPeriod {
    pub before_1980: u64,
    pub from_1980_to_1990: u64,
    pub from_1991_to_2000: u64,
    pub from_2000_to_2010: u64,
    pub from_2011_to_2015: u64,
    pub from_2016_to_2021: u64,
}

/// How the rows of the place-of-birth table are read.
pub open spec fn birthplace_rule() -> CountRule {
    CountRule::Typed { positive_ints: false }
}

/// The count of the remaining places of birth, or the error reading it gives.
pub open spec fn other_birthplaces(s: SheetView) -> Result<u64, CensusError> {
    match count_at(s, 262, 1) {
        Some(v) => Ok(v),
        None => Err(CensusError::InvalidCount { row: 262, col: 1 }),
    }
}

/// The place-of-birth table as a map, or the error reading it gives.
pub open spec fn birthplace_spec(s: SheetView) -> Result<Map<Seq<char>, u64>, CensusError> {
    with_extra(scan_result(scan_rows(s, 232, 261, birthplace_rule(), true)), "Other"@, other_birthplaces(s))
}

/// What `get_birthplace` requires: the headings of the table, and rows that
/// do not stop the reading.
pub open spec fn birthplace_readable(s: SheetView) -> bool {
    &&& label_at(s, 230, 0, "IMMIGRATION"@)
    &&& label_at(s, 231, 0, "Place of Birth"@)
    &&& !(scan_rows(s, 232, 261, birthplace_rule(), true) is Halted)
}

/// Decides `birthplace_readable`.
pub fn check_birthplace_readable(sheet: &Sheet) -> (b: bool)
    ensures
        b == birthplace_readable(sheet@),
{
    label_holds(sheet, 230, 0, "IMMIGRATION") && label_holds(sheet, 231, 0, "Place of Birth")
        && rows_readable(sheet, 232, 261, CountRule::Typed { positive_ints: false }, true)
}

/// Reads the place-of-birth table.
pub fn get_birthplace(sheet: &Sheet) -> (res: Result<Birthplace, CensusError>)
    requires
        birthplace_readable(sheet@),
    ensures
        match res {
            Ok(b) => birthplace_spec(sheet@) == Ok::<Map<Seq<char>, u64>, CensusError>(b.0@),
            Err(e) => birthplace_spec(sheet@) == Err::<Map<Seq<char>, u64>, CensusError>(e),
        },
{
    let mut map = scan_count_rows(sheet, 232, 261, CountRule::Typed { positive_ints: false }, true)?;
    match get_int_rounding(sheet.get_value(262, 1)) {
        Some(v) => {
            map.insert("Other".to_owned(), v as u64);
        },
        None => {
            return Err(CensusError::InvalidCount { row: 262, col: 1 });
        },
    }
    Ok(Birthplace(map))
}

/// The labelled rows of the period table, in the order they are read.
pub open spec fn immigration_period_tests() -> Seq<(u32, &'static str)> {
    seq![(269u32, "Before 1980"), (270u32, "1980 to 1990"), (271u32, "1991 to 2000"), (272u32, "2001 to 2010"), (274u32, "2011 to 2015"), (275u32, "2016 to 2021")]
}

fn immigration_period_rows() -> (rows: Vec<(u32, &'static str)>)
    ensures
        rows@ == immigration_period_tests(),
{
    let rows = vec![(269u32, "Before 1980"), (270u32, "1980 to 1990"), (271u32, "1991 to 2000"), (272u32, "2001 to 2010"), (274u32, "2011 to 2015"), (275u32, "2016 to 2021")];
    assert(rows@ =~= immigration_period_tests());
    rows
}

/// The period table read from its counts.
pub open spec fn immigration_period_from(v: Seq<u64>) -> ImmigrationPeriod {
    ImmigrationPeriod {
        before_1980: v[0],
        from_1980_to_1990: v[1],
        from_1991_to_2000: v[2],
        from_2000_to_2010: v[3],
        from_2011_to_2015: v[4],
        from_2016_to_2021: v[5],
    }
}

/// The period table as read from a sheet, or the error the first missing
/// count gives.
pub open spec fn immigration_period_spec(s: SheetView) -> Result<ImmigrationPeriod, CensusError> {
    map_counts(
        read_counts_spec(s, count_cells(immigration_period_tests())),
        |v: Seq<u64>| immigration_period_from(v),
    )
}

/// Whether the rows of the period table are labelled as
/// `get_immigration_period` requires.
pub fn check_immigration_period_readable(sheet: &Sheet) -> (b: bool)
    ensures
        b == count_labels_ok(sheet@, immigration_period_tests()),
{
    count_labels_hold(sheet, &immigration_period_rows())
}

/// Reads the period table, stopping at the first row without a count.
pub fn get_immigration_period(sheet: &Sheet) -> (res: Result<ImmigrationPeriod, CensusError>)
    requires
        count_labels_ok(sheet@, immigration_period_tests()),
    ensures
        res == immigration_period_spec(sheet@),
{
    let v = assert_get_counts(sheet, &immigration_period_rows())?;
    Ok(
        ImmigrationPeriod {
            before_1980: v[0],
            from_1980_to_1990: v[1],
            from_1991_to_2000: v[2],
            from_2000_to_2010: v[3],
            from_2011_to_2015: v[4],
            from_2016_to_2021: v[5],
        },
    )
}

/// What `get_immigration` requires: a readable place-of-birth table and, where
/// it reads without error, a labelled period table.
pub open spec fn immigration_readable(s: SheetView) -> bool {
    &&& birthplace_readable(s)
    &&& birthplace_spec(s) is Ok ==> count_labels_ok(s, immigration_period_tests())
}

/// Decides `immigration_readable`.
pub fn check_immigration_readable(sheet: &Sheet) -> (b: bool)
    ensures
        b == immigration_readable(sheet@),
{
    if !check_birthplace_readable(sheet) {
        return false;
    }
    match get_birthplace(sheet) {
        Ok(_) => check_immigration_period_readable(sheet),
        Err(_) => true,
    }
}

/// Reads both immigration tables, place of birth first.
pub fn get_immigration(sheet: &Sheet) -> (res: Result<Immigration, CensusError>)
    requires
        immigration_readable(sheet@),
    ensures
        match res {
            Ok(i) => {
                &&& birthplace_spec(sheet@) == Ok::<Map<Seq<char>, u64>, CensusError>(i.birthplace.0@)
                &&& immigration_period_spec(sheet@) == Ok::<ImmigrationPeriod, CensusError>(i.period)
            },
            Err(e) => {
                ||| birthplace_spec(sheet@) == Err::<Map<Seq<char>, u64>, CensusError>(e)
                ||| (birthplace_spec(sheet@) is Ok && immigration_period_spec(sheet@) == Err::<
                    ImmigrationPeriod,
                    CensusError,
                >(e))
            },
        },
{
    let birthplace = get_birthplace(sheet)?;
    let period = get_immigration_period(sheet)?;
    Ok(Immigration { birthplace, period })
}

/// The immigration period table is read row by row, from row 269 to row 275: it is read
/// exactly when each of its rows holds a count, each field then holding the
/// count of its own row, and otherwise fails on the first row without one.
pub proof fn lemma_immigration_period_by_row(s: SheetView)
    ensures
        counted_rows_outcome(s, seq![269u32, 270, 271, 272, 274, 275], 1, immigration_period_spec(s)),
        immigration_period_spec(s) matches Ok(v) ==> {
            &&& count_at(s, 269, 1) == Some(v.before_1980)
            &&& count_at(s, 270, 1) == Some(v.from_1980_to_1990)
            &&& count_at(s, 271, 1) == Some(v.from_1991_to_2000)
            &&& count_at(s, 272, 1) == Some(v.from_2000_to_2010)
            &&& count_at(s, 274, 1) == Some(v.from_2011_to_2015)
            &&& count_at(s, 275, 1) == Some(v.from_2016_to_2021)
        },
{
    let rows = seq![269u32, 270, 271, 272, 274, 275];
    lemma_count_cells_column(immigration_period_tests(), rows);
    lemma_counts_of_rows(s, rows, 1, |v: Seq<u64>| immigration_period_from(v));
    if let Ok(v) = read_counts_spec(s, count_cells(immigration_period_tests())) {
        assert(count_at(s, rows[0] as int, 1) == Some(v[0]));
        assert(count_at(s, rows[1] as int, 1) == Some(v[1]));
        assert(count_at(s, rows[2] as int, 1) == Some(v[2]));
        assert(count_at(s, rows[3] as int, 1) == Some(v[3]));
        assert(count_at(s, rows[4] as int, 1) == Some(v[4]));
        assert(count_at(s, rows[5] as int, 1) == Some(v[5]));
    }
}

/// The place-of-birth table holds one entry per row from 232 to 261 and the
/// remaining places under "Other": read without stopping, it fails on one of
/// these rows, or on a missing count in row 262, or gives the map of these
/// rows (keys the trimmed labels, each with the count of the last row so
/// labelled) with "Other" set to the count of row 262.
pub proof fn lemma_birthplace_rows(s: SheetView)
    ensures
        birthplace_readable(s) ==> (birthplace_spec(s) matches Ok(m) ==> exists|rows: Map<Seq<char>, u64>|
            {
                &&& crate::census::rows::table_of_rows(
                    rows,
                    232,
                    261,
                    |r: int| crate::census::rows::row_key(s, r, true),
                    |r: int| crate::census::rows::row_count(s, r, CountRule::Typed { positive_ints: false }),
                )
                &&& count_at(s, 262, 1) == Some(m["Other"@])
                &&& #[trigger] rows.insert("Other"@, m["Other"@]) == m
            }),
        birthplace_readable(s) ==> (birthplace_spec(s) matches Err(e) ==> {
            ||| exists|r: int| 232 <= r <= 261 && #[trigger] crate::census::rows::row_fails(s, r, CountRule::Typed { positive_ints: false }, e)
            ||| count_at(s, 262, 1) is None && e == (CensusError::InvalidCount { row: 262, col: 1 })
        }),
{
    crate::census::rows::lemma_scan_table(s, 232, 261, birthplace_rule(), true);
    crate::census::rows::lemma_scan_failed(s, 232, 261, birthplace_rule(), true);
    if birthplace_readable(s) {
        if let Ok(m) = birthplace_spec(s) {
            let rows = crate::census::rows::scan_result(crate::census::rows::scan_rows(s, 232, 261, birthplace_rule(), true))->Ok_0;
            assert(rows.insert("Other"@, m["Other"@]) == m);
        }
    }
}

} // verus!
