use winnipeg_data::census::citizenship::{check_citizenship_readable, get_citizenship, Citizenship};
use winnipeg_data::census::education::{get_highest_cert_diploma_or_degree, get_post_secondary};
use winnipeg_data::census::immigration::{check_birthplace_readable, get_birthplace};
use winnipeg_data::census::labour::{check_employment_sector_readable, get_employment_sector};
use winnipeg_data::census::population::by_age::{
    get_population_by_age, population_by_age_readable_check,
};
use winnipeg_data::census::population::{
    get_population, get_row_int_population, population_labels_hold, Population,
};
use winnipeg_data::census::religion::{check_religion_readable, get_religion};
use winnipeg_data::census::sheet::{Cell, FloatCell, Sheet};
use winnipeg_data::census::{
    assert_get_counts, assert_test_ranges, get_int_rounding, label_holds, CensusError,
};

const WIDTH: usize = 3;

/// A sheet of `rows` rows and three columns starting at (0, 0), with the
/// given cells filled in.
fn sheet(rows: usize, filled: Vec<(usize, usize, Cell)>) -> Sheet {
    let mut cells: Vec<Cell> = (0..rows * WIDTH).map(|_| Cell::Other).collect();
    for (r, c, cell) in filled {
        cells[r * WIDTH + c] = cell;
    }
    Sheet::new(0, 0, WIDTH, cells).expect("whole rows")
}

fn text(s: &str) -> Cell {
    Cell::String(s.to_string())
}

fn float(rounded: i64, whole: bool) -> Cell {
    Cell::Float(FloatCell { rounded, sign_positive: rounded >= 0, whole, as_u64: rounded.max(0) as u64 })
}

#[test]
fn int_rounding_of_cells() {
    assert_eq!(get_int_rounding(Some(&Cell::Int(-4))), Some(-4));
    assert_eq!(get_int_rounding(Some(&float(7, false))), Some(7));
    assert_eq!(get_int_rounding(Some(&text("7"))), None);
    assert_eq!(get_int_rounding(Some(&Cell::Other)), None);
    assert_eq!(get_int_rounding(None), None);
}

#[test]
fn sheet_shape_and_lookup() {
    assert!(Sheet::new(0, 0, 2, vec![Cell::Other, Cell::Other, Cell::Other]).is_none());
    assert!(Sheet::new(0, 0, 0, vec![Cell::Other]).is_none());
    let s = Sheet::new(5, 2, 2, vec![Cell::Int(1), Cell::Int(2), Cell::Int(3), Cell::Int(4)]).unwrap();
    assert!(matches!(s.get_value(6, 3), Some(Cell::Int(4))));
    assert!(matches!(s.get_value(5, 2), Some(Cell::Int(1))));
    assert!(s.get_value(4, 2).is_none());
    assert!(s.get_value(7, 2).is_none());
    assert!(s.get_value(5, 4).is_none());
    assert!(s.get_value(5, 1).is_none());
}

#[test]
fn labels_are_trimmed() {
    let s = sheet(3, vec![(1, 0, text("  Walk \t")), (2, 0, text("\u{a0}Bicycle\u{3000}"))]);
    assert!(label_holds(&s, 1, 0, "Walk"));
    assert!(label_holds(&s, 2, 0, "Bicycle"));
    assert!(!label_holds(&s, 1, 0, "walk"));
    assert!(!label_holds(&s, 0, 0, ""));
    assert!(assert_test_ranges(&s, &vec![((1, 0), "Walk"), ((2, 0), "Bicycle")]));
    assert!(!assert_test_ranges(&s, &vec![((1, 0), "Walk"), ((2, 0), "Car")]));
}

#[test]
fn citizenship_counts() {
    let s = sheet(
        224,
        vec![
            (222, 0, text("Canadian citizens ")),
            (222, 1, Cell::Int(1200)),
            (223, 0, text("Not Canadian citizens")),
            (223, 1, float(85, false)),
        ],
    );
    assert!(check_citizenship_readable(&s));
    assert_eq!(get_citizenship(&s), Ok(Citizenship { citizen: 1200, non_citizen: 85 }));
}

#[test]
fn citizenship_first_missing_count_is_the_error() {
    let s = sheet(
        224,
        vec![(222, 0, text("Canadian citizens")), (222, 1, text("x")), (223, 0, text("wrong label"))],
    );
    // The second label is never reached: the first count is missing.
    assert!(check_citizenship_readable(&s));
    assert_eq!(get_citizenship(&s), Err(CensusError::InvalidCount { row: 222, col: 1 }));
    let bad = sheet(224, vec![(222, 0, text("Canadian citizens")), (222, 1, Cell::Int(3)), (223, 0, text("wrong label"))]);
    assert!(!check_citizenship_readable(&bad));
}

#[test]
fn negative_counts_wrap() {
    let s = sheet(2, vec![(1, 0, text("A")), (1, 1, Cell::Int(-1))]);
    assert_eq!(assert_get_counts(&s, &vec![(1, "A")]), Ok(vec![u64::MAX]));
}

#[test]
fn total_population() {
    let mut filled = vec![(52, 0, text("TOTAL POPULATION")), (60, 0, text("1991 CENSUS"))];
    for (i, row) in (54..=60).enumerate() {
        filled.push((row, 1, Cell::Int(1000 + i as i64)));
    }
    let s = sheet(61, filled);
    assert!(population_labels_hold(&s));
    let p = get_population(&s).unwrap();
    assert_eq!(p.census_2021, 1000);
    assert_eq!(p.census_1991, 1006);
    let cut = sheet(61, vec![(52, 0, text("TOTAL POPULATION")), (60, 0, text("1991 CENSUS")), (54, 1, Cell::Int(1))]);
    assert_eq!(get_population(&cut), Err(CensusError::InvalidCount { row: 55, col: 1 }));
}

#[test]
fn row_population() {
    let s = sheet(3, vec![(2, 1, Cell::Int(4)), (2, 2, Cell::Int(5))]);
    let p = get_row_int_population(&s, 2).unwrap();
    assert_eq!((p.male, p.female), (4, 5));
    assert_eq!(get_row_int_population(&s, 1).map(|p| p.male), Err(CensusError::InvalidCount { row: 1, col: 1 }));
}

fn by_age_sheet(male_total: i64, female_total: i64) -> Sheet {
    let mut filled = vec![(97, 0, text("POPULATION BY AGE")), (120, 1, Cell::Int(male_total)), (120, 2, Cell::Int(female_total))];
    for row in 99..120 {
        filled.push((row, 1, Cell::Int(10)));
        filled.push((row, 2, Cell::Int(row as i64 - 99)));
    }
    sheet(121, filled)
}

#[test]
fn population_by_age_sums_to_totals() {
    let s = by_age_sheet(210, 210);
    assert!(population_by_age_readable_check(&s));
    let p = get_population_by_age(&s).unwrap();
    assert_eq!(p.range_0_to_4.male, 10);
    assert_eq!(p.range_100_plus.female, 20);
    let sum = p.sum_ages();
    assert_eq!((sum.male, sum.female), (210, 210));
}

#[test]
fn population_by_age_mismatch() {
    let s = by_age_sheet(211, 210);
    assert_eq!(get_population_by_age(&s).map(|_| ()), Err(CensusError::MaleTotalMismatch { counted: 210, expected: 211 }));
    let s = by_age_sheet(210, 0);
    assert_eq!(get_population_by_age(&s).map(|_| ()), Err(CensusError::FemaleTotalMismatch { counted: 210, expected: 0 }));
}

#[test]
fn population_add() {
    let a = Population { male: 1, female: 2 };
    let b = Population { male: 30, female: 40 };
    let c = a.add(b);
    assert_eq!((c.male, c.female), (31, 42));
}

fn entries(mut v: Vec<(String, u64)>) -> Vec<(String, u64)> {
    v.sort();
    v
}

#[test]
fn religion_table() {
    let mut filled = vec![(326, 0, text(" RELIGION "))];
    for row in 328..=350 {
        filled.push((row, 0, text(&format!(" Faith {} ", row % 3))));
        filled.push((row, 1, Cell::Int(row as i64)));
    }
    filled.push((330, 1, float(7, true)));
    let s = sheet(351, filled);
    assert!(check_religion_readable(&s));
    let r = get_religion(&s).unwrap();
    let got = entries(r.0.into_entries());
    // Each label keeps the count of its last row.
    assert_eq!(
        got,
        vec![("Faith 0".to_string(), 348), ("Faith 1".to_string(), 349), ("Faith 2".to_string(), 350)]
    );
}

#[test]
fn religion_unexpected_row() {
    let mut filled = vec![(326, 0, text("RELIGION"))];
    for row in 328..=350 {
        filled.push((row, 0, text("Faith")));
        filled.push((row, 1, Cell::Int(1)));
    }
    filled.push((340, 1, text("many")));
    filled.push((345, 1, Cell::Int(0)));
    let s = sheet(351, filled);
    // The row with a zero count is never reached.
    assert!(check_religion_readable(&s));
    assert_eq!(get_religion(&s).map(|_| ()), Err(CensusError::UnexpectedCells { row: 340 }));
}

#[test]
fn religion_zero_count_stops() {
    let mut filled = vec![(326, 0, text("RELIGION"))];
    for row in 328..=350 {
        filled.push((row, 0, text("Faith")));
        filled.push((row, 1, Cell::Int(1)));
    }
    filled.push((345, 1, Cell::Int(0)));
    let s = sheet(351, filled);
    assert!(!check_religion_readable(&s));
}

#[test]
fn birthplace_with_other() {
    let mut filled = vec![(230, 0, text("IMMIGRATION")), (231, 0, text("Place of Birth"))];
    for row in 232..=261 {
        filled.push((row, 0, text(&format!("Country {}", row))));
        filled.push((row, 1, Cell::Int(1)));
    }
    filled.push((262, 1, Cell::Int(99)));
    let s = sheet(263, filled);
    assert!(check_birthplace_readable(&s));
    let b = get_birthplace(&s).unwrap();
    let got = b.0.into_entries();
    assert_eq!(got.len(), 31);
    assert!(got.contains(&("Other".to_string(), 99)));
    assert!(got.contains(&("Country 232".to_string(), 1)));
}

#[test]
fn post_secondary_table() {
    let mut filled = Vec::new();
    for row in 371..=382 {
        filled.push((row, 0, text(&format!(" Field {} ", row))));
        filled.push((row, 1, Cell::Int(2)));
        filled.push((row, 2, Cell::Int(3)));
    }
    let s = sheet(383, filled);
    let p = get_post_secondary(&s).unwrap();
    let got = p.0.into_entries();
    assert_eq!(got.len(), 12);
    assert_eq!(got[0].0, "Field 371");
    assert_eq!((got[0].1.male, got[0].1.female), (2, 3));
    let bad = sheet(383, vec![(371, 0, Cell::Int(1))]);
    assert_eq!(get_post_secondary(&bad).map(|_| ()), Err(CensusError::NotALabel { row: 371 }));
    let bad = sheet(383, vec![(371, 0, text("a")), (371, 1, Cell::Int(1))]);
    assert_eq!(get_post_secondary(&bad).map(|_| ()), Err(CensusError::InvalidCount { row: 371, col: 2 }));
}

#[test]
fn highest_certificate_errors() {
    let s = sheet(396, vec![(387, 0, text("None")), (387, 1, Cell::Int(5))]);
    assert_eq!(get_highest_cert_diploma_or_degree(&s).map(|_| ()), Err(CensusError::NotALabel { row: 388 }));
}

#[test]
fn employment_sector_table() {
    let mut filled = Vec::new();
    for row in 442..=461 {
        filled.push((row, 0, text(&format!("Sector {} ", row))));
        filled.push((row, 1, float(row as i64, false)));
    }
    let s = sheet(462, filled);
    assert!(check_employment_sector_readable(&s));
    let e = get_employment_sector(&s).unwrap();
    let got = e.0.into_entries();
    assert_eq!(got.len(), 20);
    assert!(got.contains(&("Sector 461".to_string(), 461)));
}
