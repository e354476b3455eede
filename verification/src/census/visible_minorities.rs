//! Residents by visible minority.
use vstd::prelude::*;

use crate::census::sheet::{Sheet, SheetView};
use crate::census::{
    assert_get_counts, count_at, count_cells, count_labels_hold, count_labels_ok, counted_rows_outcome,
    lemma_count_cells_column, lemma_counts_of_rows, map_counts, read_counts_spec, CensusError,
};

verus! {

/// Residents by visible minority.
#[derive(Clone, Copy, Debug, PartialEq, Eq)]
pub struct VisibleMinorities {
    pub filipino: u64,
    pub south_asian: u64,
    pub black: u64,
    pub chinese: u64,
    pub southeast_asian: u64,
    pub latin_american: u64,
    pub arab: u64,
    pub korean: u64,
    pub west_asian: u64,
    pub japanese: u64,
    pub multiple: u64,
    pub other: u64,
}

/// The labelled rows of the table, in the order they are read.
pub open spec fn visible_minorities_tests() -> Seq<(u32, &'static str)> {
    seq![(202u32, "Filipino"), (203u32, "South Asian"), (204u32, "Black"), (205u32, "Chinese"), (206u32, "Southeast Asian"), (207u32, "Latin American"), (208u32, "Arab"), (209u32, "Korean"), (210u32, "West Asian"), (211u32, "Japanese"), (212u32, "Multiple visible minorities"), (213u32, "Visible minority not included elsewhere")]
}

fn visible_minorities_rows() -> (rows: Vec<(u32, &'static str)>)
    ensures
        rows@ == visible_minorities_tests(),
{
    let rows = vec![(202u32, "Filipino"), (203u32, "South Asian"), (204u32, "Black"), (205u32, "Chinese"), (206u32, "Southeast Asian"), (207u32, "Latin American"), (208u32, "Arab"), (209u32, "Korean"), (210u32, "West Asian"), (211u32, "Japanese"), (212u32, "Multiple visible minorities"), (213u32, "Visible minority not included elsewhere")];
    assert(rows@ =~= visible_minorities_tests());
    rows
}

/// The table read from its counts, in the order of `visible_minorities_tests`.
pub open spec fn visible_minorities_from(v: Seq<u64>) -> VisibleMinorities {
    VisibleMinorities {
        filipino: v[0],
        south_asian: v[1],
        black: v[2],
        chinese: v[3],
        southeast_asian: v[4],
        latin_american: v[5],
        arab: v[6],
        korean: v[7],
        west_asian: v[8],
        japanese: v[9],
        multiple: v[10],
        other: v[11],
    }
}

/// The table as read from a sheet, or the error the first missing count gives.
pub open spec fn visible_minorities_spec(s: SheetView) -> Result<VisibleMinorities, CensusError> {
    map_counts(read_counts_spec(s, count_cells(visible_minorities_tests())), |v: Seq<u64>| visible_minorities_from(v))
}

/// Whether the rows of the table are labelled as `get_visible_minorities` requires.
pub fn check_visible_minorities_readable(sheet: &Sheet) -> (b: bool)
    ensures
        b == count_labels_ok(sheet@, visible_minorities_tests()),
{
    count_labels_hold(sheet, &visible_minorities_rows())
}

/// Reads the table, stopping at the first row without a count.
pub fn get_visible_minorities(sheet: &Sheet) -> (res: Result<VisibleMinorities, CensusError>)
    requires
        count_labels_ok(sheet@, visible_minorities_tests()),
    ensures
        res == visible_minorities_spec(sheet@),
{
    let v = assert_get_counts(sheet, &visible_minorities_rows())?;
    Ok(
        VisibleMinorities {
            filipino: v[0],
            south_asian: v[1],
            black: v[2],
            chinese: v[3],
            southeast_asian: v[4],
            latin_american: v[5],
            arab: v[6],
            korean: v[7],
            west_asian: v[8],
            japanese: v[9],
            multiple: v[10],
            other: v[11],
        },
    )
}

/// The table is read row by row, Filipino on row 202 down to visible
/// minorities not included elsewhere on row 213: it is read exactly when
/// each of these rows holds a count, each field then holding the count of
/// its own row, and otherwise fails on the first row without one.
pub proof fn lemma_visible_minorities_by_row(s: SheetView)
    ensures
        counted_rows_outcome(
            s,
            seq![202u32, 203, 204, 205, 206, 207, 208, 209, 210, 211, 212, 213],
            1,
            visible_minorities_spec(s),
        ),
        visible_minorities_spec(s) matches Ok(v) ==> {
            &&& count_at(s, 202, 1) == Some(v.filipino)
            &&& count_at(s, 203, 1) == Some(v.south_asian)
            &&& count_at(s, 204, 1) == Some(v.black)
            &&& count_at(s, 205, 1) == Some(v.chinese)
            &&& count_at(s, 206, 1) == Some(v.southeast_asian)
            &&& count_at(s, 207, 1) == Some(v.latin_american)
            &&& count_at(s, 208, 1) == Some(v.arab)
            &&& count_at(s, 209, 1) == Some(v.korean)
            &&& count_at(s, 210, 1) == Some(v.west_asian)
            &&& count_at(s, 211, 1) == Some(v.japanese)
            &&& count_at(s, 212, 1) == Some(v.multiple)
            &&& count_at(s, 213, 1) == Some(v.other)
        },
{
    let rows = seq![202u32, 203, 204, 205, 206, 207, 208, 209, 210, 211, 212, 213];
    lemma_count_cells_column(visible_minorities_tests(), rows);
    lemma_counts_of_rows(s, rows, 1, |v: Seq<u64>| visible_minorities_from(v));
    if let Ok(v) = read_counts_spec(s, count_cells(visible_minorities_tests())) {
        assert(count_at(s, rows[0] as int, 1) == Some(v[0]));
        assert(count_at(s, rows[1] as int, 1) == Some(v[1]));
        assert(count_at(s, rows[2] as int, 1) == Some(v[2]));
        assert(count_at(s, rows[3] as int, 1) == Some(v[3]));
        assert(count_at(s, rows[4] as int, 1) == Some(v[4]));
        assert(count_at(s, rows[5] as int, 1) == Some(v[5]));
        assert(count_at(s, rows[6] as int, 1) == Some(v[6]));
        assert(count_at(s, rows[7] as int, 1) == Some(v[7]));
        assert(count_at(s, rows[8] as int, 1) == Some(v[8]));
        assert(count_at(s, rows[9] as int, 1) == Some(v[9]));
        assert(count_at(s, rows[10] as int, 1) == Some(v[10]));
        assert(count_at(s, rows[11] as int, 1) == Some(v[11]));
    }
}

} // verus!
