//! Population counts split by sex, and the total population table.
use vstd::prelude::*;

use crate::census::sheet::Sheet;
use crate::census::{
    column_cells, count_at, counted_rows_outcome, exact_label_at, exact_label_holds, lemma_counts_of_rows,
    map_counts, read_counts, read_counts_spec, CensusError,
};
use crate::Datapoint;

pub mod by_age;

verus! {

/// A count split by sex.
#[derive(Clone, Copy, Debug)]
pub struct Population<T = u64> {
    pub male: T,
    pub female: T,
}

impl Population {
    /// Adds two populations field by field.
    pub fn add(self, rhs: Population) -> (sum: Population)
        requires
            self.male + rhs.male <= u64::MAX,
            self.female + rhs.female <= u64::MAX,
        ensures
            sum.male == self.male + rhs.male,
            sum.female == self.female + rhs.female,
    {
        Population { male: self.male + rhs.male, female: self.female + rhs.female }
    }
}

impl<T> From<Population<T>> for Population<Datapoint<T>> {
    fn from(value: Population<T>) -> (res: Self) {
        Population {
            male: Datapoint::Datapoint(value.male),
            female: Datapoint::Datapoint(value.female),
        }
    }
}

impl<T> vstd::std_specs::convert::FromSpecImpl<Population<T>> for Population<Datapoint<T>> {
    open spec fn obeys_from_spec() -> bool {
        true
    }

    open spec fn from_spec(value: Population<T>) -> Self {
        Population {
            male: Datapoint::Datapoint(value.male),
            female: Datapoint::Datapoint(value.female),
        }
    }
}

/// The total population at each census.
#[derive(Clone, Copy, Debug, PartialEq, Eq)]
pub struct TotalPopulation {
    pub census_2021: u64,
    pub census_2016: u64,
    pub census_2011: u64,
    pub census_2006: u64,
    pub census_2001: u64,
    pub census_1996: u64,
    pub census_1991: u64,
}

/// The cells of the total population table, 2021 first.
pub open spec fn total_population_cells() -> Seq<(u32, u32)> {
    seq![(54u32, 1u32), (55u32, 1u32), (56u32, 1u32), (57u32, 1u32), (58u32, 1u32), (59u32, 1u32), (60u32, 1u32)]
}

/// The table read from its counts, in the order of `total_population_cells`.
pub open spec fn total_population_from(v: Seq<u64>) -> TotalPopulation {
    TotalPopulation {
        census_2021: v[0],
        census_2016: v[1],
        census_2011: v[2],
        census_2006: v[3],
        census_2001: v[4],
        census_1996: v[5],
        census_1991: v[6],
    }
}

/// Whether the sheet holds the headings that `get_population` requires.
pub open spec fn population_labels_ok(s: crate::census::sheet::SheetView) -> bool {
    &&& exact_label_at(s, 52, 0, "TOTAL POPULATION"@)
    &&& exact_label_at(s, 60, 0, "1991 CENSUS"@)
}

/// Decides `population_labels_ok`.
pub fn population_labels_hold(sheet: &Sheet) -> (b: bool)
    ensures
        b == population_labels_ok(sheet@),
{
    exact_label_holds(sheet, 52, 0, "TOTAL POPULATION") && exact_label_holds(
        sheet,
        60,
        0,
        "1991 CENSUS",
    )
}

/// Reads the total population table.
pub fn get_population(sheet: &Sheet) -> (res: Result<TotalPopulation, CensusError>)
    requires
        population_labels_ok(sheet@),
    ensures
        res == map_counts(
            read_counts_spec(sheet@, total_population_cells()),
            |v: Seq<u64>| total_population_from(v),
        ),
{
    let cells = vec![(54u32, 1u32), (55u32, 1u32), (56u32, 1u32), (57u32, 1u32), (58u32, 1u32), (59u32, 1u32), (60u32, 1u32)];
    assert(cells@ =~= total_population_cells());
    let v = read_counts(sheet, &cells)?;
    Ok(
        TotalPopulation {
            census_2021: v[0],
            census_2016: v[1],
            census_2011: v[2],
            census_2006: v[3],
            census_2001: v[4],
            census_1996: v[5],
            census_1991: v[6],
        },
    )
}

/// The male and female counts of a row, from its second and third cells.
pub open spec fn row_population_spec(s: crate::census::sheet::SheetView, row: u32) -> Result<
    Population,
    CensusError,
> {
    map_counts(
        read_counts_spec(s, seq![(row, 1u32), (row, 2u32)]),
        |v: Seq<u64>| Population { male: v[0], female: v[1] },
    )
}

/// Reads the male and female counts of a row.
pub fn get_row_int_population(sheet: &Sheet, row: u32) -> (res: Result<Population, CensusError>)
    ensures
        res == row_population_spec(sheet@, row),
{
    let cells = vec![(row, 1u32), (row, 2u32)];
    assert(cells@ =~= seq![(row, 1u32), (row, 2u32)]);
    let v = read_counts(sheet, &cells)?;
    Ok(Population { male: v[0], female: v[1] })
}

/// The total population table is read from column 1 of rows 54 (2021) down
/// to 60 (1991): it is read exactly when each of these rows holds a count,
/// each census year then holding the count of its own row, and otherwise
/// fails on the first row without one.
pub proof fn lemma_total_population_by_row(s: crate::census::sheet::SheetView)
    ensures
        ({
            let res = map_counts(
                read_counts_spec(s, total_population_cells()),
                |v: Seq<u64>| total_population_from(v),
            );
            &&& counted_rows_outcome(s, seq![54u32, 55, 56, 57, 58, 59, 60], 1, res)
            &&& res matches Ok(p) ==> {
                &&& count_at(s, 54, 1) == Some(p.census_2021)
                &&& count_at(s, 55, 1) == Some(p.census_2016)
                &&& count_at(s, 56, 1) == Some(p.census_2011)
                &&& count_at(s, 57, 1) == Some(p.census_2006)
                &&& count_at(s, 58, 1) == Some(p.census_2001)
                &&& count_at(s, 59, 1) == Some(p.census_1996)
                &&& count_at(s, 60, 1) == Some(p.census_1991)
            }
        }),
{
    let rows = seq![54u32, 55, 56, 57, 58, 59, 60];
    assert(total_population_cells() =~= column_cells(rows, 1));
    lemma_counts_of_rows(s, rows, 1, |v: Seq<u64>| total_population_from(v));
    if let Ok(v) = read_counts_spec(s, total_population_cells()) {
        assert(count_at(s, rows[0] as int, 1) == Some(v[0]));
        assert(count_at(s, rows[1] as int, 1) == Some(v[1]));
        assert(count_at(s, rows[2] as int, 1) == Some(v[2]));
        assert(count_at(s, rows[3] as int, 1) == Some(v[3]));
        assert(count_at(s, rows[4] as int, 1) == Some(v[4]));
        assert(count_at(s, rows[5] as int, 1) == Some(v[5]));
        assert(count_at(s, rows[6] as int, 1) == Some(v[6]));
    }
}

/// A row's population is its male count from column 1 and its female count
/// from column 2; a missing male count is the error before a missing female
/// count.
pub proof fn lemma_row_population_cells(s: crate::census::sheet::SheetView, row: u32)
    ensures
        row_population_spec(s, row) is Ok <==> count_at(s, row as int, 1) is Some && count_at(s, row as int, 2) is Some,
        row_population_spec(s, row) matches Ok(p) ==> count_at(s, row as int, 1) == Some(p.male) && count_at(
            s,
            row as int,
            2,
        ) == Some(p.female),
        row_population_spec(s, row) matches Err(e) ==> if count_at(s, row as int, 1) is None {
            e == (CensusError::InvalidCount { row, col: 1 })
        } else {
            e == (CensusError::InvalidCount { row, col: 2 })
        },
{
    let cells = seq![(row, 1u32), (row, 2u32)];
    let rest = seq![(row, 2u32)];
    assert(cells.drop_first() =~= rest);
    assert(rest.drop_first() =~= Seq::<(u32, u32)>::empty());
    assert(read_counts_spec(s, Seq::<(u32, u32)>::empty()) == Ok::<Seq<u64>, CensusError>(seq![]));
    let r2 = read_counts_spec(s, rest);
    let r1 = read_counts_spec(s, cells);
    if let Some(f) = count_at(s, row as int, 2) {
        assert(r2 == Ok::<Seq<u64>, CensusError>(seq![f] + seq![]));
        assert(seq![f] + seq![] =~= seq![f]);
    }
    if let Some(m) = count_at(s, row as int, 1) {
        if let Some(f) = count_at(s, row as int, 2) {
            assert(r1 == Ok::<Seq<u64>, CensusError>(seq![m] + seq![f]));
            assert(seq![m] + seq![f] =~= seq![m, f]);
        }
    }
}

} // verus!
