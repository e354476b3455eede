//! Extraction of neighbourhood census profiles from their worksheets.
use vstd::prelude::*;

use crate::census::sheet::{Cell, Sheet, SheetView};
use crate::text::{str_eq, trim, trimmed};

pub mod citizenship;
pub mod education;
pub mod immigration;
pub mod income;
pub mod indigenous;
pub mod labour;
pub mod language;
pub mod marital_status;
pub mod transportation;
pub mod visible_minorities;
pub mod label_map;
pub mod population;
pub mod religion;
pub mod rows;
pub mod sheet;

verus! {

/// Why a census table could not be read from a sheet.
#[derive(Clone, Copy, Debug, PartialEq, Eq)]
pub enum CensusError {
    /// The cell at (`row`, `col`) holds no number where a count belongs.
    InvalidCount { row: u32, col: u32 },
    /// The first cell of `row` holds no text where a label belongs.
    NotALabel { row: u32 },
    /// The row holds neither a label and an integer nor a label and a number.
    UnexpectedCells { row: u32 },
    /// The male counts of a table do not add up to the total the sheet records.
    MaleTotalMismatch { counted: u64, expected: u64 },
    /// The female counts of a table do not add up to the total the sheet records.
    FemaleTotalMismatch { counted: u64, expected: u64 },
}

/// The integer a cell holds, a number with a fraction being rounded.
pub open spec fn cell_int_rounding(c: Cell) -> Option<i64> {
    match c {
        Cell::Int(v) => Some(v),
        Cell::Float(f) => Some(f.rounded),
        _ => None,
    }
}

/// The integer a cell holds, rounding a number with a fraction; `None` for a
/// missing cell or one that holds no number.
pub fn get_int_rounding(data: Option<&Cell>) -> (res: Option<i64>)
    ensures
        res == match data {
            Some(c) => cell_int_rounding(*c),
            None => None,
        },
{
    match data {
        Some(Cell::Int(v)) => Some(*v),
        Some(Cell::Float(f)) => Some(f.rounded),
        _ => None,
    }
}

/// The count a sheet holds at (`row`, `col`): the rounded integer taken as
/// `u64` (a negative integer wraps).
pub open spec fn count_at(s: SheetView, row: int, col: int) -> Option<u64> {
    match s.cell(row, col) {
        Some(c) => match cell_int_rounding(c) {
            Some(v) => Some(v as u64),
            None => None,
        },
        None => None,
    }
}

/// Whether the cell at (`row`, `col`) holds text that, trimmed, is `label`.
pub open spec fn label_at(s: SheetView, row: int, col: int, label: Seq<char>) -> bool {
    s.cell(row, col) matches Some(Cell::String(t)) && trimmed(t@) == label
}

/// Whether the cell at (`row`, `col`) holds exactly the text `label`.
pub open spec fn exact_label_at(s: SheetView, row: int, col: int, label: Seq<char>) -> bool {
    s.cell(row, col) matches Some(Cell::String(t)) && t@ == label
}

/// Decides `label_at`.
pub fn label_holds(sheet: &Sheet, row: u32, col: u32, label: &str) -> (b: bool)
    ensures
        b == label_at(sheet@, row as int, col as int, label@),
{
    match sheet.get_value(row, col) {
        Some(Cell::String(t)) => str_eq(trim(t.as_str()), label),
        _ => false,
    }
}

/// Decides `exact_label_at`.
pub fn exact_label_holds(sheet: &Sheet, row: u32, col: u32, label: &str) -> (b: bool)
    ensures
        b == exact_label_at(sheet@, row as int, col as int, label@),
{
    match sheet.get_value(row, col) {
        Some(Cell::String(t)) => str_eq(t.as_str(), label),
        _ => false,
    }
}

/// The counts at the given positions, read in order; the first position
/// without a count gives the error.
pub open spec fn read_counts_spec(s: SheetView, cells: Seq<(u32, u32)>) -> Result<
    Seq<u64>,
    CensusError,
>
    decreases cells.len(),
{
    if cells.len() == 0 {
        Ok(seq![])
    } else {
        match count_at(s, cells[0].0 as int, cells[0].1 as int) {
            None => Err(CensusError::InvalidCount { row: cells[0].0, col: cells[0].1 }),
            Some(v) => match read_counts_spec(s, cells.drop_first()) {
                Ok(rest) => Ok(seq![v] + rest),
                Err(e) => Err(e),
            },
        }
    }
}

/// A successful read of counts, passed through `f`; an error unchanged.
pub open spec fn map_counts<T>(
    read: Result<Seq<u64>, CensusError>,
    f: spec_fn(Seq<u64>) -> T,
) -> Result<T, CensusError> {
    match read {
        Ok(v) => Ok(f(v)),
        Err(e) => Err(e),
    }
}

/// A successful read holds one count per position.
pub proof fn lemma_read_counts_len(s: SheetView, cells: Seq<(u32, u32)>)
    ensures
        read_counts_spec(s, cells) matches Ok(v) ==> v.len() == cells.len(),
    decreases cells.len(),
{
    if cells.len() > 0 {
        lemma_read_counts_len(s, cells.drop_first());
    }
}

/// A read succeeds exactly when every position holds a count, and then gives
/// the count of each position; otherwise it names the first position
/// without one.
pub proof fn lemma_read_counts_values(s: SheetView, cells: Seq<(u32, u32)>)
    ensures
        read_counts_spec(s, cells) is Ok <==> forall|i: int|
            0 <= i < cells.len() ==> #[trigger] count_at(s, cells[i].0 as int, cells[i].1 as int) is Some,
        read_counts_spec(s, cells) matches Ok(v) ==> forall|i: int|
            0 <= i < cells.len() ==> count_at(s, cells[i].0 as int, cells[i].1 as int) == Some(
                #[trigger] v[i],
            ),
        read_counts_spec(s, cells) matches Err(e) ==> exists|i: int|
            0 <= i < cells.len() && #[trigger] count_at(s, cells[i].0 as int, cells[i].1 as int) is None
                && e == (CensusError::InvalidCount { row: cells[i].0, col: cells[i].1 }) && forall|j: int|
                0 <= j < i ==> count_at(s, cells[j].0 as int, cells[j].1 as int) is Some,
    decreases cells.len(),
{
    if cells.len() > 0 {
        let rest = cells.drop_first();
        lemma_read_counts_values(s, rest);
        lemma_read_counts_len(s, rest);
        assert forall|i: int| 0 < i < cells.len() implies #[trigger] cells[i] == rest[i - 1] by {}
        if let Ok(v) = read_counts_spec(s, cells) {
            assert forall|i: int| 0 <= i < cells.len() implies count_at(s, cells[i].0 as int, cells[i].1 as int) == Some(
                #[trigger] v[i],
            ) by {
                if i > 0 {
                    assert(cells[i] == rest[i - 1]);
                }
            }
        }
        if read_counts_spec(s, cells) is Ok {
        } else if count_at(s, cells[0].0 as int, cells[0].1 as int) is Some {
            let i = choose|i: int|
                0 <= i < rest.len() && #[trigger] count_at(s, rest[i].0 as int, rest[i].1 as int) is None
                    && read_counts_spec(s, rest) == Err::<Seq<u64>, CensusError>(CensusError::InvalidCount { row: rest[i].0, col: rest[i].1 }) && forall|j: int|
                    0 <= j < i ==> count_at(s, rest[j].0 as int, rest[j].1 as int) is Some;
            assert(cells[i + 1] == rest[i]);
            assert forall|j: int| 0 <= j < i + 1 implies count_at(s, cells[j].0 as int, cells[j].1 as int) is Some by {
                if j > 0 {
                    assert(cells[j] == rest[j - 1]);
                }
            }
        }
    }
}

/// `counts` put before the counts of a later read, or that read's error.
pub open spec fn prepend_counts(counts: Seq<u64>, later: Result<Seq<u64>, CensusError>) -> Result<
    Seq<u64>,
    CensusError,
> {
    match later {
        Ok(rest) => Ok(counts + rest),
        Err(e) => Err(e),
    }
}

/// Whether an executable result holds the counts, or the error, of `spec`.
pub open spec fn counts_match(res: Result<Vec<u64>, CensusError>, spec: Result<Seq<u64>, CensusError>) -> bool {
    match (res, spec) {
        (Ok(v), Ok(w)) => v@ == w,
        (Err(e), Err(f)) => e == f,
        _ => false,
    }
}

/// Reads the counts at `cells` in order, stopping at the first cell that
/// holds no number.
pub fn read_counts(sheet: &Sheet, cells: &Vec<(u32, u32)>) -> (res: Result<Vec<u64>, CensusError>)
    ensures
        counts_match(res, read_counts_spec(sheet@, cells@)),
        res matches Ok(v) ==> v@.len() == cells@.len(),
{
    proof {
        lemma_read_counts_len(sheet@, cells@);
    }
    let n = cells.len();
    let mut out: Vec<u64> = Vec::new();
    let mut i: usize = 0;
    proof {
        assert(cells@.skip(0) =~= cells@);
        if let Ok(r) = read_counts_spec(sheet@, cells@) {
            assert(out@ + r =~= r);
        }
    }
    while i < n
        invariant
            n == cells@.len(),
            i <= n,
            read_counts_spec(sheet@, cells@) == prepend_counts(
                out@,
                read_counts_spec(sheet@, cells@.skip(i as int)),
            ),
        decreases n - i,
    {
        let (row, col) = cells[i];
        let ghost rest = cells@.skip(i as int);
        assert(rest[0] == cells@[i as int]);
        assert(rest.drop_first() =~= cells@.skip(i + 1));
        match get_int_rounding(sheet.get_value(row, col)) {
            Some(v) => {
                proof {
                    let later = read_counts_spec(sheet@, cells@.skip(i + 1));
                    if let Ok(r) = later {
                        assert(out@ + (seq![v as u64] + r) =~= out@.push(v as u64) + r);
                    }
                }
                out.push(v as u64);
            },
            None => {
                return Err(CensusError::InvalidCount { row, col });
            },
        }
        i = i + 1;
    }
    assert(out@ + seq![] =~= out@);
    Ok(out)
}

/// The positions of the counts of labelled rows: the second column of each.
pub open spec fn count_cells(tests: Seq<(u32, &str)>) -> Seq<(u32, u32)> {
    tests.map_values(|t: (u32, &str)| (t.0, 1u32))
}

/// Whether each row of `tests` is labelled as it says, up to the first row
/// whose count is missing: the rows that `assert_get_counts` reaches.
pub open spec fn count_labels_ok(s: SheetView, tests: Seq<(u32, &str)>) -> bool
    decreases tests.len(),
{
    tests.len() == 0 || (label_at(s, tests[0].0 as int, 0, tests[0].1@) && (count_at(
        s,
        tests[0].0 as int,
        1,
    ) is Some ==> count_labels_ok(s, tests.drop_first())))
}

/// Decides `count_labels_ok`.
pub fn count_labels_hold(sheet: &Sheet, tests: &Vec<(u32, &str)>) -> (b: bool)
    ensures
        b == count_labels_ok(sheet@, tests@),
{
    let n = tests.len();
    let mut i: usize = 0;
    assert(tests@.skip(0) =~= tests@);
    while i < n
        invariant
            n == tests@.len(),
            i <= n,
            count_labels_ok(sheet@, tests@) == count_labels_ok(sheet@, tests@.skip(i as int)),
        decreases n - i,
    {
        let (row, label) = tests[i];
        let ghost rest = tests@.skip(i as int);
        assert(rest[0] == tests@[i as int]);
        assert(rest.drop_first() =~= tests@.skip(i + 1));
        if !label_holds(sheet, row, 0, label) {
            return false;
        }
        if get_int_rounding(sheet.get_value(row, 1)).is_none() {
            return true;
        }
        i = i + 1;
    }
    true
}

/// The counts of labelled rows, read from the second column in the order of
/// `tests`, up to the first row without a count, which gives the error.
pub fn assert_get_counts(sheet: &Sheet, tests: &Vec<(u32, &str)>) -> (res: Result<
    Vec<u64>,
    CensusError,
>)
    requires
        count_labels_ok(sheet@, tests@),
    ensures
        counts_match(res, read_counts_spec(sheet@, count_cells(tests@))),
        res matches Ok(v) ==> v@.len() == tests@.len(),
{
    proof {
        lemma_read_counts_len(sheet@, count_cells(tests@));
    }
    let n = tests.len();
    let mut out: Vec<u64> = Vec::new();
    let mut i: usize = 0;
    proof {
        assert(tests@.skip(0) =~= tests@);
        if let Ok(r) = read_counts_spec(sheet@, count_cells(tests@)) {
            assert(out@ + r =~= r);
        }
    }
    while i < n
        invariant
            n == tests@.len(),
            i <= n,
            read_counts_spec(sheet@, count_cells(tests@)) == prepend_counts(
                out@,
                read_counts_spec(sheet@, count_cells(tests@.skip(i as int))),
            ),
        decreases n - i,
    {
        let (row, _label) = tests[i];
        let ghost rest = tests@.skip(i as int);
        assert(rest[0] == tests@[i as int]);
        assert(rest.drop_first() =~= tests@.skip(i + 1));
        assert(count_cells(rest).drop_first() =~= count_cells(tests@.skip(i + 1)));
        match get_int_rounding(sheet.get_value(row, 1)) {
            Some(v) => {
                proof {
                    let later = read_counts_spec(sheet@, count_cells(tests@.skip(i + 1)));
                    if let Ok(r) = later {
                        assert(out@ + (seq![v as u64] + r) =~= out@.push(v as u64) + r);
                    }
                }
                out.push(v as u64);
            },
            None => {
                return Err(CensusError::InvalidCount { row, col: 1 });
            },
        }
        i = i + 1;
    }
    assert(out@ + seq![] =~= out@);
    Ok(out)
}

/// Whether the first cell of each row of `tests` holds its label, trimmed.
pub open spec fn row_labels_ok(s: SheetView, tests: Seq<(u32, &str)>) -> bool {
    forall|i: int| 0 <= i < tests.len() ==> label_at(s, #[trigger] tests[i].0 as int, 0, tests[i].1@)
}

/// Rows labelled as they say are labelled up to any row.
pub proof fn lemma_row_labels_ok_counts(s: SheetView, tests: Seq<(u32, &str)>)
    requires
        row_labels_ok(s, tests),
    ensures
        count_labels_ok(s, tests),
    decreases tests.len(),
{
    if tests.len() > 0 {
        let rest = tests.drop_first();
        assert forall|i: int| 0 <= i < rest.len() implies label_at(s, #[trigger] rest[i].0 as int, 0, rest[i].1@) by {
            assert(rest[i] == tests[i + 1]);
        }
        lemma_row_labels_ok_counts(s, rest);
        assert(tests[0] == tests[0]);
    }
}

/// Decides `row_labels_ok`.
pub fn row_labels_hold(sheet: &Sheet, tests: &Vec<(u32, &str)>) -> (b: bool)
    ensures
        b == row_labels_ok(sheet@, tests@),
{
    let n = tests.len();
    let mut i: usize = 0;
    while i < n
        invariant
            n == tests@.len(),
            i <= n,
            forall|k: int| 0 <= k < i ==> label_at(sheet@, #[trigger] tests@[k].0 as int, 0, tests@[k].1@),
        decreases n - i,
    {
        let (row, label) = tests[i];
        if !label_holds(sheet, row, 0, label) {
            return false;
        }
        i = i + 1;
    }
    true
}

/// Whether each position of `tests` holds its label (trimmed).
pub open spec fn labels_ok(s: SheetView, tests: Seq<((u32, u32), &str)>) -> bool {
    forall|i: int|
        0 <= i < tests.len() ==> label_at(
            s,
            #[trigger] tests[i].0.0 as int,
            tests[i].0.1 as int,
            tests[i].1@,
        )
}

/// Whether every position of `tests` holds its label, trimmed; a caller that
/// must not go on otherwise stops on `false`.
pub fn assert_test_ranges(sheet: &Sheet, tests: &Vec<((u32, u32), &str)>) -> (ok: bool)
    ensures
        ok == labels_ok(sheet@, tests@),
{
    let n = tests.len();
    let mut i: usize = 0;
    while i < n
        invariant
            n == tests@.len(),
            i <= n,
            forall|k: int|
                0 <= k < i ==> label_at(
                    sheet@,
                    #[trigger] tests@[k].0.0 as int,
                    tests@[k].0.1 as int,
                    tests@[k].1@,
                ),
        decreases n - i,
    {
        let ((row, col), label) = tests[i];
        if !label_holds(sheet, row, col, label) {
            return false;
        }
        i = i + 1;
    }
    true
}

/// Whether `res` is what reading a table whose counts stand in column `col`
/// of `rows`, in this order, gives: it succeeds exactly when every one of
/// these cells holds a count, and otherwise fails on the first cell without
/// one.
pub open spec fn counted_rows_outcome<T>(s: SheetView, rows: Seq<u32>, col: u32, res: Result<T, CensusError>) -> bool {
    &&& res is Ok <==> forall|i: int| 0 <= i < rows.len() ==> #[trigger] count_at(s, rows[i] as int, col as int) is Some
    &&& res matches Err(e) ==> exists|i: int|
        0 <= i < rows.len() && e == (CensusError::InvalidCount { row: rows[i], col })
            && #[trigger] count_at(s, rows[i] as int, col as int) is None && forall|j: int|
            0 <= j < i ==> count_at(s, rows[j] as int, col as int) is Some
}

/// The cells of column `col` of `rows`.
pub open spec fn column_cells(rows: Seq<u32>, col: u32) -> Seq<(u32, u32)> {
    rows.map_values(|r: u32| (r, col))
}

/// Reading the counts of column `col` of `rows` gives, one for one, the
/// count of each row, or fails on the first row without one; passing the
/// counts through `f` keeps the failure.
pub proof fn lemma_counts_of_rows<T>(s: SheetView, rows: Seq<u32>, col: u32, f: spec_fn(Seq<u64>) -> T)
    ensures
        counted_rows_outcome(s, rows, col, read_counts_spec(s, column_cells(rows, col))),
        counted_rows_outcome(s, rows, col, map_counts(read_counts_spec(s, column_cells(rows, col)), f)),
        read_counts_spec(s, column_cells(rows, col)) matches Ok(v) ==> v.len() == rows.len() && forall|i: int|
            0 <= i < rows.len() ==> count_at(s, rows[i] as int, col as int) == Some(#[trigger] v[i]),
{
    let cells = column_cells(rows, col);
    lemma_read_counts_len(s, cells);
    lemma_read_counts_values(s, cells);
    assert forall|i: int| 0 <= i < rows.len() implies #[trigger] cells[i] == (rows[i], col) by {}
    let r = read_counts_spec(s, cells);
    if r is Ok {
        assert forall|i: int| 0 <= i < rows.len() implies #[trigger] count_at(s, rows[i] as int, col as int) is Some by {
            assert(cells[i] == (rows[i], col));
            assert(count_at(s, cells[i].0 as int, cells[i].1 as int) is Some);
        }
    } else {
        if forall|i: int| 0 <= i < rows.len() ==> #[trigger] count_at(s, rows[i] as int, col as int) is Some {
            assert forall|i: int| 0 <= i < cells.len() implies #[trigger] count_at(s, cells[i].0 as int, cells[i].1 as int) is Some by {
                assert(cells[i] == (rows[i], col));
                assert(count_at(s, rows[i] as int, col as int) is Some);
            }
        }
        let e = r->Err_0;
        let i = choose|i: int|
            0 <= i < cells.len() && #[trigger] count_at(s, cells[i].0 as int, cells[i].1 as int) is None
                && e == (CensusError::InvalidCount { row: cells[i].0, col: cells[i].1 }) && forall|j: int|
                0 <= j < i ==> count_at(s, cells[j].0 as int, cells[j].1 as int) is Some;
        assert(cells[i] == (rows[i], col));
        assert forall|j: int| 0 <= j < i implies count_at(s, rows[j] as int, col as int) is Some by {
            assert(cells[j] == (rows[j], col));
        }
        assert(count_at(s, rows[i] as int, col as int) is None);
    }
    if let Ok(v) = r {
        assert forall|i: int| 0 <= i < rows.len() implies count_at(s, rows[i] as int, col as int) == Some(#[trigger] v[i]) by {
            assert(cells[i] == (rows[i], col));
        }
    }
}

/// The cells of labelled rows are their rows' cells in the second column.
pub proof fn lemma_count_cells_column(tests: Seq<(u32, &str)>, rows: Seq<u32>)
    requires
        tests.len() == rows.len(),
        forall|i: int| 0 <= i < rows.len() ==> #[trigger] tests[i].0 == rows[i],
    ensures
        count_cells(tests) == column_cells(rows, 1),
{
    assert(count_cells(tests) =~= column_cells(rows, 1));
}

/// The count at a cell is the integer it holds, or the rounded value of the
/// number it holds, taken as `u64`; any other cell, or a position outside the
/// sheet, holds no count.
pub proof fn lemma_count_at_cell(s: SheetView, row: int, col: int)
    ensures
        count_at(s, row, col) == match s.cell(row, col) {
            Some(Cell::Int(v)) => Some(v as u64),
            Some(Cell::Float(f)) => Some(f.rounded as u64),
            _ => None::<u64>,
        },
{
}

} // verus!
