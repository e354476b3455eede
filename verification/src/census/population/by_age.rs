//! The population by five-year age group.
use vstd::prelude::*;

use crate::census::population::Population;
use crate::census::sheet::{Sheet, SheetView};
use crate::census::{
    count_at, exact_label_at, exact_label_holds, lemma_read_counts_len, lemma_read_counts_values, read_counts,
    read_counts_spec, CensusError,
};

verus! {

/// The population in each five-year age group.
#[derive(Clone, Copy, Debug)]
pub struct PopulationByAge {
    pub range_0_to_4: Population,
    pub range_5_to_9: Population,
    pub range_10_to_14: Population,
    pub range_15_to_19: Population,
    pub range_20_to_24: Population,
    pub range_25_to_29: Population,
    pub range_30_to_34: Population,
    pub range_35_to_39: Population,
    pub range_40_to_44: Population,
    pub range_45_to_49: Population,
    pub range_50_to_54: Population,
    pub range_55_to_59: Population,
    pub range_60_to_64: Population,
    pub range_65_to_69: Population,
    pub range_70_to_74: Population,
    pub range_75_to_79: Population,
    pub range_80_to_84: Population,
    pub range_85_to_89: Population,
    pub range_90_to_94: Population,
    pub range_95_to_99: Population,
    pub range_100_plus: Population,
}

impl PopulationByAge {
    /// The sum of the male counts of all age groups.
    pub open spec fn male_total(self) -> int {
        self.range_0_to_4.male + self.range_5_to_9.male + self.range_10_to_14.male + self.range_15_to_19.male + self.range_20_to_24.male + self.range_25_to_29.male + self.range_30_to_34.male + self.range_35_to_39.male + self.range_40_to_44.male + self.range_45_to_49.male + self.range_50_to_54.male + self.range_55_to_59.male + self.range_60_to_64.male + self.range_65_to_69.male + self.range_70_to_74.male + self.range_75_to_79.male + self.range_80_to_84.male + self.range_85_to_89.male + self.range_90_to_94.male + self.range_95_to_99.male + self.range_100_plus.male
    }

    /// The sum of the female counts of all age groups.
    pub open spec fn female_total(self) -> int {
        self.range_0_to_4.female + self.range_5_to_9.female + self.range_10_to_14.female + self.range_15_to_19.female + self.range_20_to_24.female + self.range_25_to_29.female + self.range_30_to_34.female + self.range_35_to_39.female + self.range_40_to_44.female + self.range_45_to_49.female + self.range_50_to_54.female + self.range_55_to_59.female + self.range_60_to_64.female + self.range_65_to_69.female + self.range_70_to_74.female + self.range_75_to_79.female + self.range_80_to_84.female + self.range_85_to_89.female + self.range_90_to_94.female + self.range_95_to_99.female + self.range_100_plus.female
    }

    /// The population of all age groups together.
    pub fn sum_ages(&self) -> (sum: Population)
        requires
            self.male_total() <= u64::MAX,
            self.female_total() <= u64::MAX,
        ensures
            sum.male == self.male_total(),
            sum.female == self.female_total(),
    {
        self.range_0_to_4.add(self.range_5_to_9).add(self.range_10_to_14).add(self.range_15_to_19).add(self.range_20_to_24).add(self.range_25_to_29).add(self.range_30_to_34).add(self.range_35_to_39).add(self.range_40_to_44).add(self.range_45_to_49).add(self.range_50_to_54).add(self.range_55_to_59).add(self.range_60_to_64).add(self.range_65_to_69).add(self.range_70_to_74).add(self.range_75_to_79).add(self.range_80_to_84).add(self.range_85_to_89).add(self.range_90_to_94).add(self.range_95_to_99).add(self.range_100_plus)
    }
}

/// The cells the table is read from, in the order they are read: the male
/// and female totals, then the male and female count of each age group.
pub open spec fn by_age_cells() -> Seq<(u32, u32)> {
    Seq::new(
        44,
        |i: int|
            if i < 2 {
                (120u32, (i + 1) as u32)
            } else {
                ((99 + (i - 2) / 2) as u32, (1 + (i - 2) % 2) as u32)
            },
    )
}

/// The age groups read from the counts of `by_age_cells`.
pub open spec fn by_age_from(v: Seq<u64>) -> PopulationByAge {
    PopulationByAge {
        range_0_to_4: Population { male: v[2], female: v[3] },
        range_5_to_9: Population { male: v[4], female: v[5] },
        range_10_to_14: Population { male: v[6], female: v[7] },
        range_15_to_19: Population { male: v[8], female: v[9] },
        range_20_to_24: Population { male: v[10], female: v[11] },
        range_25_to_29: Population { male: v[12], female: v[13] },
        range_30_to_34: Population { male: v[14], female: v[15] },
        range_35_to_39: Population { male: v[16], female: v[17] },
        range_40_to_44: Population { male: v[18], female: v[19] },
        range_45_to_49: Population { male: v[20], female: v[21] },
        range_50_to_54: Population { male: v[22], female: v[23] },
        range_55_to_59: Population { male: v[24], female: v[25] },
        range_60_to_64: Population { male: v[26], female: v[27] },
        range_65_to_69: Population { male: v[28], female: v[29] },
        range_70_to_74: Population { male: v[30], female: v[31] },
        range_75_to_79: Population { male: v[32], female: v[33] },
        range_80_to_84: Population { male: v[34], female: v[35] },
        range_85_to_89: Population { male: v[36], female: v[37] },
        range_90_to_94: Population { male: v[38], female: v[39] },
        range_95_to_99: Population { male: v[40], female: v[41] },
        range_100_plus: Population { male: v[42], female: v[43] },
    }
}

/// The outcome of reading the table: the counts of each age group, checked
/// against the recorded totals, male first.
pub open spec fn population_by_age_spec(s: SheetView) -> Result<PopulationByAge, CensusError> {
    match read_counts_spec(s, by_age_cells()) {
        Err(e) => Err(e),
        Ok(v) => {
            let groups = by_age_from(v);
            if v[0] != groups.male_total() {
                Err(CensusError::MaleTotalMismatch { counted: groups.male_total() as u64, expected: v[0] })
            } else if v[1] != groups.female_total() {
                Err(CensusError::FemaleTotalMismatch { counted: groups.female_total() as u64, expected: v[1] })
            } else {
                Ok(groups)
            }
        },
    }
}

/// What `get_population_by_age` requires: the heading of the table, and sums
/// of the age groups that fit in `u64` where all counts are present.
pub open spec fn population_by_age_readable(s: SheetView) -> bool {
    &&& exact_label_at(s, 97, 0, "POPULATION BY AGE"@)
    &&& read_counts_spec(s, by_age_cells()) matches Ok(v) ==> {
        &&& by_age_from(v).male_total() <= u64::MAX
        &&& by_age_from(v).female_total() <= u64::MAX
    }
}

/// The sum of the counts in column `col` of the age rows, 99 to 119.
pub open spec fn age_column_sum(s: SheetView, col: int) -> int {
    count_at(s, 99, col).unwrap() + count_at(s, 100, col).unwrap() + count_at(s, 101, col).unwrap() + count_at(s, 102, col).unwrap() + count_at(s, 103, col).unwrap() + count_at(s, 104, col).unwrap() + count_at(s, 105, col).unwrap() + count_at(s, 106, col).unwrap() + count_at(s, 107, col).unwrap() + count_at(s, 108, col).unwrap() + count_at(s, 109, col).unwrap() + count_at(s, 110, col).unwrap() + count_at(s, 111, col).unwrap() + count_at(s, 112, col).unwrap() + count_at(s, 113, col).unwrap() + count_at(s, 114, col).unwrap() + count_at(s, 115, col).unwrap() + count_at(s, 116, col).unwrap() + count_at(s, 117, col).unwrap() + count_at(s, 118, col).unwrap() + count_at(s, 119, col).unwrap()
}

/// Whether every cell of the table, the counts of rows 99 to 119 and the
/// totals of row 120, male in column 1 and female in column 2, holds a count.
pub open spec fn age_cells_counted(s: SheetView) -> bool {
    forall|row: int, col: int| 99 <= row <= 120 && 1 <= col <= 2 ==> #[trigger] count_at(s, row, col) is Some
}

/// Each age group holds the counts of its own row, 0 to 4 on row 99 down to
/// 100 and over on row 119, male in column 1 and female in column 2; a table
/// that reads without error adds up, for males and for females, to the
/// totals that the sheet records on row 120. A table fails on a cell without
/// a count, or, all cells counted, on a male and then a female total that
/// differs from the sum of its column.
pub proof fn lemma_by_age_adds_up(s: SheetView)
    ensures
        population_by_age_spec(s) matches Ok(p) ==> {
            &&& count_at(s, 120, 1) == Some(p.male_total() as u64)
            &&& count_at(s, 120, 2) == Some(p.female_total() as u64)
            &&& p.male_total() <= u64::MAX
            &&& p.female_total() <= u64::MAX
            &&& p.male_total() == age_column_sum(s, 1)
            &&& p.female_total() == age_column_sum(s, 2)
            &&& count_at(s, 99, 1) == Some(p.range_0_to_4.male) && count_at(s, 99, 2) == Some(p.range_0_to_4.female)
            &&& count_at(s, 100, 1) == Some(p.range_5_to_9.male) && count_at(s, 100, 2) == Some(p.range_5_to_9.female)
            &&& count_at(s, 101, 1) == Some(p.range_10_to_14.male) && count_at(s, 101, 2) == Some(p.range_10_to_14.female)
            &&& count_at(s, 102, 1) == Some(p.range_15_to_19.male) && count_at(s, 102, 2) == Some(p.range_15_to_19.female)
            &&& count_at(s, 103, 1) == Some(p.range_20_to_24.male) && count_at(s, 103, 2) == Some(p.range_20_to_24.female)
            &&& count_at(s, 104, 1) == Some(p.range_25_to_29.male) && count_at(s, 104, 2) == Some(p.range_25_to_29.female)
            &&& count_at(s, 105, 1) == Some(p.range_30_to_34.male) && count_at(s, 105, 2) == Some(p.range_30_to_34.female)
            &&& count_at(s, 106, 1) == Some(p.range_35_to_39.male) && count_at(s, 106, 2) == Some(p.range_35_to_39.female)
            &&& count_at(s, 107, 1) == Some(p.range_40_to_44.male) && count_at(s, 107, 2) == Some(p.range_40_to_44.female)
            &&& count_at(s, 108, 1) == Some(p.range_45_to_49.male) && count_at(s, 108, 2) == Some(p.range_45_to_49.female)
            &&& count_at(s, 109, 1) == Some(p.range_50_to_54.male) && count_at(s, 109, 2) == Some(p.range_50_to_54.female)
            &&& count_at(s, 110, 1) == Some(p.range_55_to_59.male) && count_at(s, 110, 2) == Some(p.range_55_to_59.female)
            &&& count_at(s, 111, 1) == Some(p.range_60_to_64.male) && count_at(s, 111, 2) == Some(p.range_60_to_64.female)
            &&& count_at(s, 112, 1) == Some(p.range_65_to_69.male) && count_at(s, 112, 2) == Some(p.range_65_to_69.female)
            &&& count_at(s, 113, 1) == Some(p.range_70_to_74.male) && count_at(s, 113, 2) == Some(p.range_70_to_74.female)
            &&& count_at(s, 114, 1) == Some(p.range_75_to_79.male) && count_at(s, 114, 2) == Some(p.range_75_to_79.female)
            &&& count_at(s, 115, 1) == Some(p.range_80_to_84.male) && count_at(s, 115, 2) == Some(p.range_80_to_84.female)
            &&& count_at(s, 116, 1) == Some(p.range_85_to_89.male) && count_at(s, 116, 2) == Some(p.range_85_to_89.female)
            &&& count_at(s, 117, 1) == Some(p.range_90_to_94.male) && count_at(s, 117, 2) == Some(p.range_90_to_94.female)
            &&& count_at(s, 118, 1) == Some(p.range_95_to_99.male) && count_at(s, 118, 2) == Some(p.range_95_to_99.female)
            &&& count_at(s, 119, 1) == Some(p.range_100_plus.male) && count_at(s, 119, 2) == Some(p.range_100_plus.female)
        },
        population_by_age_spec(s) matches Err(e) ==> match e {
            CensusError::InvalidCount { row, col } => 99 <= row <= 120 && 1 <= col <= 2 && count_at(
                s,
                row as int,
                col as int,
            ) is None,
            CensusError::MaleTotalMismatch { counted, expected } => {
                &&& age_cells_counted(s)
                &&& count_at(s, 120, 1) == Some(expected)
                &&& expected != age_column_sum(s, 1)
                &&& counted == age_column_sum(s, 1) as u64
            },
            CensusError::FemaleTotalMismatch { counted, expected } => {
                &&& age_cells_counted(s)
                &&& count_at(s, 120, 1) == Some(age_column_sum(s, 1) as u64)
                &&& count_at(s, 120, 2) == Some(expected)
                &&& expected != age_column_sum(s, 2)
                &&& counted == age_column_sum(s, 2) as u64
            },
            _ => false,
        },
        age_cells_counted(s) ==> read_counts_spec(s, by_age_cells()) is Ok,
{
    lemma_read_counts_len(s, by_age_cells());
    lemma_read_counts_values(s, by_age_cells());
    if let Ok(v) = read_counts_spec(s, by_age_cells()) {
        assert(by_age_cells()[0] == (120u32, 1u32));
        assert(count_at(s, 120, 1) == Some(v[0]));
        assert(by_age_cells()[1] == (120u32, 2u32));
        assert(count_at(s, 120, 2) == Some(v[1]));
        assert(by_age_cells()[2] == (99u32, 1u32));
        assert(count_at(s, 99, 1) == Some(v[2]));
        assert(by_age_cells()[3] == (99u32, 2u32));
        assert(count_at(s, 99, 2) == Some(v[3]));
        assert(by_age_cells()[4] == (100u32, 1u32));
        assert(count_at(s, 100, 1) == Some(v[4]));
        assert(by_age_cells()[5] == (100u32, 2u32));
        assert(count_at(s, 100, 2) == Some(v[5]));
        assert(by_age_cells()[6] == (101u32, 1u32));
        assert(count_at(s, 101, 1) == Some(v[6]));
        assert(by_age_cells()[7] == (101u32, 2u32));
        assert(count_at(s, 101, 2) == Some(v[7]));
        assert(by_age_cells()[8] == (102u32, 1u32));
        assert(count_at(s, 102, 1) == Some(v[8]));
        assert(by_age_cells()[9] == (102u32, 2u32));
        assert(count_at(s, 102, 2) == Some(v[9]));
        assert(by_age_cells()[10] == (103u32, 1u32));
        assert(count_at(s, 103, 1) == Some(v[10]));
        assert(by_age_cells()[11] == (103u32, 2u32));
        assert(count_at(s, 103, 2) == Some(v[11]));
        assert(by_age_cells()[12] == (104u32, 1u32));
        assert(count_at(s, 104, 1) == Some(v[12]));
        assert(by_age_cells()[13] == (104u32, 2u32));
        assert(count_at(s, 104, 2) == Some(v[13]));
        assert(by_age_cells()[14] == (105u32, 1u32));
        assert(count_at(s, 105, 1) == Some(v[14]));
        assert(by_age_cells()[15] == (105u32, 2u32));
        assert(count_at(s, 105, 2) == Some(v[15]));
        assert(by_age_cells()[16] == (106u32, 1u32));
        assert(count_at(s, 106, 1) == Some(v[16]));
        assert(by_age_cells()[17] == (106u32, 2u32));
        assert(count_at(s, 106, 2) == Some(v[17]));
        assert(by_age_cells()[18] == (107u32, 1u32));
        assert(count_at(s, 107, 1) == Some(v[18]));
        assert(by_age_cells()[19] == (107u32, 2u32));
        assert(count_at(s, 107, 2) == Some(v[19]));
        assert(by_age_cells()[20] == (108u32, 1u32));
        assert(count_at(s, 108, 1) == Some(v[20]));
        assert(by_age_cells()[21] == (108u32, 2u32));
        assert(count_at(s, 108, 2) == Some(v[21]));
        assert(by_age_cells()[22] == (109u32, 1u32));
        assert(count_at(s, 109, 1) == Some(v[22]));
        assert(by_age_cells()[23] == (109u32, 2u32));
        assert(count_at(s, 109, 2) == Some(v[23]));
        assert(by_age_cells()[24] == (110u32, 1u32));
        assert(count_at(s, 110, 1) == Some(v[24]));
        assert(by_age_cells()[25] == (110u32, 2u32));
        assert(count_at(s, 110, 2) == Some(v[25]));
        assert(by_age_cells()[26] == (111u32, 1u32));
        assert(count_at(s, 111, 1) == Some(v[26]));
        assert(by_age_cells()[27] == (111u32, 2u32));
        assert(count_at(s, 111, 2) == Some(v[27]));
        assert(by_age_cells()[28] == (112u32, 1u32));
        assert(count_at(s, 112, 1) == Some(v[28]));
        assert(by_age_cells()[29] == (112u32, 2u32));
        assert(count_at(s, 112, 2) == Some(v[29]));
        assert(by_age_cells()[30] == (113u32, 1u32));
        assert(count_at(s, 113, 1) == Some(v[30]));
        assert(by_age_cells()[31] == (113u32, 2u32));
        assert(count_at(s, 113, 2) == Some(v[31]));
        assert(by_age_cells()[32] == (114u32, 1u32));
        assert(count_at(s, 114, 1) == Some(v[32]));
        assert(by_age_cells()[33] == (114u32, 2u32));
        assert(count_at(s, 114, 2) == Some(v[33]));
        assert(by_age_cells()[34] == (115u32, 1u32));
        assert(count_at(s, 115, 1) == Some(v[34]));
        assert(by_age_cells()[35] == (115u32, 2u32));
        assert(count_at(s, 115, 2) == Some(v[35]));
        assert(by_age_cells()[36] == (116u32, 1u32));
        assert(count_at(s, 116, 1) == Some(v[36]));
        assert(by_age_cells()[37] == (116u32, 2u32));
        assert(count_at(s, 116, 2) == Some(v[37]));
        assert(by_age_cells()[38] == (117u32, 1u32));
        assert(count_at(s, 117, 1) == Some(v[38]));
        assert(by_age_cells()[39] == (117u32, 2u32));
        assert(count_at(s, 117, 2) == Some(v[39]));
        assert(by_age_cells()[40] == (118u32, 1u32));
        assert(count_at(s, 118, 1) == Some(v[40]));
        assert(by_age_cells()[41] == (118u32, 2u32));
        assert(count_at(s, 118, 2) == Some(v[41]));
        assert(by_age_cells()[42] == (119u32, 1u32));
        assert(count_at(s, 119, 1) == Some(v[42]));
        assert(by_age_cells()[43] == (119u32, 2u32));
        assert(count_at(s, 119, 2) == Some(v[43]));
        assert forall|row: int, col: int| 99 <= row <= 120 && 1 <= col <= 2 implies #[trigger] count_at(s, row, col) is Some by {
            let i = if row == 120 { col - 1 } else { 2 + 2 * (row - 99) + (col - 1) };
            assert(by_age_cells()[i] == (row as u32, col as u32));
            assert(count_at(s, by_age_cells()[i].0 as int, by_age_cells()[i].1 as int) is Some);
        }
    }
    if age_cells_counted(s) {
        assert forall|i: int| 0 <= i < by_age_cells().len() implies #[trigger] count_at(
            s,
            by_age_cells()[i].0 as int,
            by_age_cells()[i].1 as int,
        ) is Some by {
            assert(count_at(s, by_age_cells()[i].0 as int, by_age_cells()[i].1 as int) is Some);
        }
    }
}

fn by_age_positions() -> (cells: Vec<(u32, u32)>)
    ensures
        cells@ == by_age_cells(),
{
    let mut cells: Vec<(u32, u32)> = vec![(120u32, 1u32), (120u32, 2u32)];
    let mut row: u32 = 99;
    while row < 120
        invariant
            99 <= row <= 120,
            cells@.len() == 2 * (row - 99) + 2,
            forall|i: int| 0 <= i < cells@.len() ==> #[trigger] cells@[i] == by_age_cells()[i],
        decreases 120 - row,
    {
        cells.push((row, 1u32));
        cells.push((row, 2u32));
        row = row + 1;
    }
    assert(cells@ =~= by_age_cells());
    cells
}

fn age_totals(v: &Vec<u64>) -> (totals: (u128, u128))
    requires
        v@.len() == 44,
    ensures
        totals.0 == by_age_from(v@).male_total(),
        totals.1 == by_age_from(v@).female_total(),
{
    let mut male: u128 = 0;
    let mut female: u128 = 0;
    let mut i: usize = 2;
    while i < 44
        invariant
            v@.len() == 44,
            2 <= i <= 44,
            i % 2 == 0,
            male == male_sum(v@, i as int),
            female == female_sum(v@, i as int),
            male <= (i as int) * 0x1_0000_0000_0000_0000,
            female <= (i as int) * 0x1_0000_0000_0000_0000,
        decreases 44 - i,
    {
        male = male + v[i] as u128;
        female = female + v[i + 1] as u128;
        i = i + 2;
    }
    assert(male_sum(v@, 44) == by_age_from(v@).male_total()) by {
        reveal_with_fuel(male_sum, 22);
    }
    assert(female_sum(v@, 44) == by_age_from(v@).female_total()) by {
        reveal_with_fuel(female_sum, 22);
    }
    (male, female)
}

/// The sum of the male counts among the first `end` counts, the totals left out.
spec fn male_sum(v: Seq<u64>, end: int) -> int
    decreases end,
{
    if end <= 2 {
        0
    } else {
        male_sum(v, end - 2) + v[end - 2]
    }
}

/// The sum of the female counts among the first `end` counts, the totals left out.
spec fn female_sum(v: Seq<u64>, end: int) -> int
    decreases end,
{
    if end <= 2 {
        0
    } else {
        female_sum(v, end - 2) + v[end - 1]
    }
}

/// Decides `population_by_age_readable`.
pub fn population_by_age_readable_check(sheet: &Sheet) -> (b: bool)
    ensures
        b == population_by_age_readable(sheet@),
{
    if !exact_label_holds(sheet, 97, 0, "POPULATION BY AGE") {
        return false;
    }
    match read_counts(sheet, &by_age_positions()) {
        Err(_) => true,
        Ok(v) => {
            let (male, female) = age_totals(&v);
            male <= u64::MAX as u128 && female <= u64::MAX as u128
        },
    }
}

/// Reads the population by age group and checks it against the recorded
/// male and female totals.
pub fn get_population_by_age(sheet: &Sheet) -> (res: Result<PopulationByAge, CensusError>)
    requires
        population_by_age_readable(sheet@),
    ensures
        res == population_by_age_spec(sheet@),
{
    proof {
        lemma_read_counts_len(sheet@, by_age_cells());
    }
    let v = read_counts(sheet, &by_age_positions())?;
    let total_male = v[0];
    let total_female = v[1];
    let pop_by_age = PopulationByAge {
        range_0_to_4: Population { male: v[2], female: v[3] },
        range_5_to_9: Population { male: v[4], female: v[5] },
        range_10_to_14: Population { male: v[6], female: v[7] },
        range_15_to_19: Population { male: v[8], female: v[9] },
        range_20_to_24: Population { male: v[10], female: v[11] },
        range_25_to_29: Population { male: v[12], female: v[13] },
        range_30_to_34: Population { male: v[14], female: v[15] },
        range_35_to_39: Population { male: v[16], female: v[17] },
        range_40_to_44: Population { male: v[18], female: v[19] },
        range_45_to_49: Population { male: v[20], female: v[21] },
        range_50_to_54: Population { male: v[22], female: v[23] },
        range_55_to_59: Population { male: v[24], female: v[25] },
        range_60_to_64: Population { male: v[26], female: v[27] },
        range_65_to_69: Population { male: v[28], female: v[29] },
        range_70_to_74: Population { male: v[30], female: v[31] },
        range_75_to_79: Population { male: v[32], female: v[33] },
        range_80_to_84: Population { male: v[34], female: v[35] },
        range_85_to_89: Population { male: v[36], female: v[37] },
        range_90_to_94: Population { male: v[38], female: v[39] },
        range_95_to_99: Population { male: v[40], female: v[41] },
        range_100_plus: Population { male: v[42], female: v[43] },
    };
    assert(pop_by_age == by_age_from(v@));
    let summed_pop = pop_by_age.sum_ages();
    if total_male != summed_pop.male {
        return Err(CensusError::MaleTotalMismatch { counted: summed_pop.male, expected: total_male });
    }
    if total_female != summed_pop.female {
        return Err(CensusError::FemaleTotalMismatch { counted: summed_pop.female, expected: total_female });
    }
    Ok(pop_by_age)
}

} // verus!
