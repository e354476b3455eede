use winnipeg_data::census::education::{check_education_readable, get_education};
use winnipeg_data::census::immigration::{
    check_immigration_period_readable, check_immigration_readable, get_immigration,
    get_immigration_period, ImmigrationPeriod,
};
use winnipeg_data::census::income::check_income_labels;
use winnipeg_data::census::indigenous::{
    check_indigenous_ancestry_readable, check_indigenous_identity_readable,
    check_indigenous_readable, get_indigenous, get_indigenous_ancestry, get_indigenous_identity,
    IndigenousAncestry, IndigenousIdentity,
};
use winnipeg_data::census::label_map::LabelMap;
use winnipeg_data::census::language::{
    check_languages_readable, check_official_language_readable,
    check_official_languages_readable, check_unofficial_languages_readable, get_languages,
    get_official_languages, get_unofficial_languages, OfficialLanguages,
};
use winnipeg_data::census::marital_status::{
    check_marital_status_readable, get_marital_status, MaritalStatus,
};
use winnipeg_data::census::rows::{rows_complete, rows_readable, scan_count_rows, CountRule};
use winnipeg_data::census::sheet::{Cell, FloatCell, Sheet};
use winnipeg_data::census::transportation::{check_transportation_readable, get_transportation};
use winnipeg_data::census::visible_minorities::{
    check_visible_minorities_readable, get_visible_minorities,
};
use winnipeg_data::census::{
    count_labels_hold, exact_label_holds, read_counts, row_labels_hold, CensusError,
};

const WIDTH: usize = 3;

fn sheet(rows: usize, filled: Vec<(usize, usize, Cell)>) -> Sheet {
    let mut cells: Vec<Cell> = (0..rows * WIDTH).map(|_| Cell::Other).collect();
    for (r, c, cell) in filled {
        cells[r * WIDTH + c] = cell;
    }
    Sheet::new(0, 0, WIDTH, cells).expect("whole rows")
}

fn text(s: &str) -> Cell {
    Cell::String(s.to_string())
}

fn float(value: i64, whole: bool) -> Cell {
    Cell::Float(FloatCell { rounded: value, sign_positive: value >= 0, whole, as_u64: value.max(0) as u64 })
}

/// Each labelled row with its label in the first column and `row * 10` in
/// the second.
fn labelled(rows: &[(usize, &str)]) -> Vec<(usize, usize, Cell)> {
    let mut filled = Vec::new();
    for &(row, label) in rows {
        filled.push((row, 0, text(label)));
        filled.push((row, 1, Cell::Int(row as i64 * 10)));
    }
    filled
}

const MARITAL: [(usize, &str); 6] = [
    (357, "Married (and not separated)"),
    (358, "Living common law"),
    (360, "Single (never legally married)"),
    (361, "Separated , but still legally married"),
    (362, "Divorced"),
    (363, "Widowed"),
];

#[test]
fn marital_status_reads_each_row() {
    let s = sheet(364, labelled(&MARITAL));
    assert!(check_marital_status_readable(&s));
    assert_eq!(
        get_marital_status(&s),
        Ok(MaritalStatus {
            married: 3570,
            common_law: 3580,
            single: 3600,
            separated: 3610,
            divorced: 3620,
            widowed: 3630
        })
    );
}

#[test]
fn marital_status_wrong_label_is_refused() {
    let mut filled = labelled(&MARITAL);
    filled.push((362, 0, text("Divorced or not")));
    let s = sheet(364, filled);
    assert!(!check_marital_status_readable(&s));
}

const MINORITIES: [(usize, &str); 12] = [
    (202, "Filipino"),
    (203, "South Asian"),
    (204, "Black"),
    (205, "Chinese"),
    (206, "Southeast Asian"),
    (207, "Latin American"),
    (208, "Arab"),
    (209, "Korean"),
    (210, "West Asian"),
    (211, "Japanese"),
    (212, "Multiple visible minorities"),
    (213, "Visible minority not included elsewhere"),
];

#[test]
fn visible_minorities_table() {
    let s = sheet(214, labelled(&MINORITIES));
    assert!(check_visible_minorities_readable(&s));
    let v = get_visible_minorities(&s).unwrap();
    assert_eq!(v.filipino, 2020);
    assert_eq!(v.chinese, 2050);
    assert_eq!(v.japanese, 2110);
    assert_eq!(v.other, 2130);
}

#[test]
fn visible_minorities_missing_count() {
    let mut filled = labelled(&MINORITIES);
    filled.push((206, 1, text("..")));
    let s = sheet(214, filled);
    assert!(check_visible_minorities_readable(&s));
    assert_eq!(get_visible_minorities(&s).map(|_| ()), Err(CensusError::InvalidCount { row: 206, col: 1 }));
}

const PERIODS: [(usize, &str); 6] = [
    (269, "Before 1980"),
    (270, "1980 to 1990"),
    (271, "1991 to 2000"),
    (272, "2001 to 2010"),
    (274, "2011 to 2015"),
    (275, "2016 to 2021"),
];

fn birthplace_rows() -> Vec<(usize, usize, Cell)> {
    let mut filled = vec![(230, 0, text("IMMIGRATION")), (231, 0, text("Place of Birth"))];
    for row in 232..=261 {
        filled.push((row, 0, text(&format!(" Place {} ", row))));
        filled.push((row, 1, Cell::Int(2)));
    }
    filled.push((262, 1, Cell::Int(7)));
    filled
}

#[test]
fn immigration_period_table() {
    let s = sheet(276, labelled(&PERIODS));
    assert!(check_immigration_period_readable(&s));
    assert_eq!(
        get_immigration_period(&s),
        Ok(ImmigrationPeriod {
            before_1980: 2690,
            from_1980_to_1990: 2700,
            from_1991_to_2000: 2710,
            from_2000_to_2010: 2720,
            from_2011_to_2015: 2740,
            from_2016_to_2021: 2750
        })
    );
}

#[test]
fn immigration_both_tables() {
    let mut filled = birthplace_rows();
    filled.extend(labelled(&PERIODS));
    let s = sheet(276, filled);
    assert!(check_immigration_readable(&s));
    let i = get_immigration(&s).unwrap();
    assert_eq!(i.period.from_2016_to_2021, 2750);
    let places = i.birthplace.0.into_entries();
    assert_eq!(places.len(), 31);
    // Place-of-birth labels are trimmed.
    assert!(places.contains(&("Place 232".to_string(), 2)));
    assert!(places.contains(&("Other".to_string(), 7)));
}

#[test]
fn immigration_birthplace_error_comes_first() {
    let mut filled = birthplace_rows();
    filled.push((262, 1, text("x")));
    let s = sheet(276, filled);
    // With the place-of-birth table failing, the period labels are not needed.
    assert!(check_immigration_readable(&s));
    assert_eq!(get_immigration(&s).map(|_| ()), Err(CensusError::InvalidCount { row: 262, col: 1 }));
}

const IDENTITY: [(usize, &str); 5] = [
    (178, "Métis single identity"),
    (179, "First Nations (North American Indian) single identity"),
    (180, "Inuk (Inuit) single identity"),
    (181, "Multiple Indigenous identities"),
    (182, "Aboriginal identities not included elsewhere"),
];

const ANCESTRY: [(usize, &str); 3] = [
    (190, "First Nations (North American Indian) Indigenous ancestry"),
    (191, "Métis ancestry"),
    (192, "Inuit ancestry"),
];

#[test]
fn indigenous_tables() {
    let mut filled = labelled(&IDENTITY);
    filled.extend(labelled(&ANCESTRY));
    let s = sheet(193, filled);
    assert!(check_indigenous_identity_readable(&s));
    assert!(check_indigenous_ancestry_readable(&s));
    assert!(check_indigenous_readable(&s));
    assert_eq!(
        get_indigenous_identity(&s),
        Ok(IndigenousIdentity { metis: 1780, first_nations: 1790, inuk: 1800, multiple: 1810, other: 1820 })
    );
    assert_eq!(
        get_indigenous_ancestry(&s),
        Ok(IndigenousAncestry { first_nations: 1900, metis: 1910, inuit: 1920 })
    );
    let both = get_indigenous(&s).unwrap();
    assert_eq!(both.identity.metis, 1780);
    assert_eq!(both.ancestry.inuit, 1920);
}

#[test]
fn indigenous_identity_labels_are_all_checked() {
    // A wrong label after a missing count still makes the table unreadable.
    let mut filled = labelled(&IDENTITY);
    filled.push((178, 1, Cell::Other));
    filled.push((182, 0, text("Other identities")));
    let s = sheet(193, filled);
    assert!(!check_indigenous_identity_readable(&s));
    assert!(!check_indigenous_readable(&s));
}

const OFFICIAL: [(usize, &str); 4] = [
    (128, "English only"),
    (129, "English and French"),
    (130, "Neither English nor French"),
    (131, "French only"),
];

fn language_rows() -> Vec<(usize, usize, Cell)> {
    let mut filled = labelled(&OFFICIAL);
    filled.push((126, 0, text("LANGUAGES")));
    filled.push((135, 0, text("Knowledge of Non-official Languages Spoken (Top 30)")));
    for row in 136..=165 {
        filled.push((row, 0, text(&format!(" Language {}", row))));
        filled.push((row, 1, Cell::Int(3)));
    }
    filled.push((140, 1, float(12, true)));
    filled.push((166, 1, float(4, false)));
    filled
}

#[test]
fn official_languages_table() {
    let s = sheet(167, language_rows());
    assert!(check_official_language_readable(&s));
    assert!(check_official_languages_readable(&s));
    assert_eq!(
        get_official_languages(&s),
        Ok(OfficialLanguages {
            english_only: 1280,
            english_and_french: 1290,
            neither_english_or_french: 1300,
            french_only: 1310
        })
    );
}

#[test]
fn languages_heading_is_exact() {
    let mut filled = language_rows();
    filled.push((126, 0, text(" LANGUAGES")));
    let s = sheet(167, filled);
    assert!(check_official_language_readable(&s));
    assert!(!check_official_languages_readable(&s));
    assert!(!check_languages_readable(&s));
}

#[test]
fn unofficial_languages_keep_untrimmed_labels() {
    let s = sheet(167, language_rows());
    assert!(check_unofficial_languages_readable(&s));
    let u = get_unofficial_languages(&s).unwrap();
    let entries = u.0.into_entries();
    assert_eq!(entries.len(), 31);
    assert!(entries.contains(&(" Language 136".to_string(), 3)));
    assert!(entries.contains(&(" Language 140".to_string(), 12)));
    assert!(entries.contains(&("Other".to_string(), 4)));
}

#[test]
fn unofficial_languages_stop_on_zero() {
    let mut filled = language_rows();
    filled.push((150, 1, Cell::Int(0)));
    let s = sheet(167, filled);
    assert!(!check_unofficial_languages_readable(&s));
    assert!(!check_languages_readable(&s));
}

#[test]
fn languages_both_tables() {
    let s = sheet(167, language_rows());
    assert!(check_languages_readable(&s));
    let l = get_languages(&s).unwrap();
    assert_eq!(l.official.french_only, 1310);
    assert_eq!(l.unofficial.0.len(), 31);
}

const COMMUTE: [(usize, &str); 6] = [
    (476, "Car, truck or van - as a driver"),
    (477, "Public transit"),
    (478, "Car, truck or van - as a passenger"),
    (479, "Walk"),
    (480, "Bicycle"),
    (481, "Other method"),
];

#[test]
fn transportation_table() {
    let mut filled = Vec::new();
    for &(row, label) in COMMUTE.iter() {
        filled.push((row, 0, text(label)));
        filled.push((row, 1, Cell::Int(row as i64)));
        filled.push((row, 2, float(row as i64 + 1, false)));
    }
    let s = sheet(482, filled);
    assert!(check_transportation_readable(&s));
    let t = get_transportation(&s).unwrap();
    assert_eq!((t.personal_vehicle_driver.male, t.personal_vehicle_driver.female), (476, 477));
    assert_eq!((t.walk.male, t.walk.female), (479, 480));
    assert_eq!((t.other.male, t.other.female), (481, 482));
}

#[test]
fn transportation_needs_both_counts() {
    let mut filled = Vec::new();
    for &(row, label) in COMMUTE.iter() {
        filled.push((row, 0, text(label)));
        filled.push((row, 1, Cell::Int(1)));
        filled.push((row, 2, Cell::Int(1)));
    }
    filled.push((480, 2, text("-")));
    let s = sheet(482, filled);
    assert!(!check_transportation_readable(&s));
}

#[test]
fn income_headings() {
    let mut filled = vec![(486, 0, text("INCOME "))];
    for (row, label) in [
        (488, "Market income (%)"),
        (489, "Employment income (%)"),
        (490, "Government transfers (%)"),
        (491, "Employment insurance benefits (%)"),
        (492, "COVID-19 - Government income support and benefits (%)"),
        (493, "COVID-19 - Emergency and recovery benefits (%)"),
    ] {
        filled.push((row, 0, text(label)));
    }
    let s = sheet(494, filled);
    assert!(check_income_labels(&s));
    let mut filled = vec![(486, 0, text("INCOME"))];
    filled.push((488, 0, text("Market income")));
    let s = sheet(494, filled);
    assert!(!check_income_labels(&s));
}

#[test]
fn education_both_tables() {
    let mut filled = vec![(369, 0, text("EDUCATION"))];
    for row in 371..=382 {
        filled.push((row, 0, text(&format!("Field {}", row))));
        filled.push((row, 1, Cell::Int(1)));
        filled.push((row, 2, Cell::Int(2)));
    }
    for row in 387..=395 {
        filled.push((row, 0, text(&format!(" Level {} ", row))));
        filled.push((row, 1, float(row as i64, false)));
    }
    let s = sheet(396, filled);
    assert!(check_education_readable(&s));
    let (fields, highest) = get_education(&s).unwrap();
    assert_eq!(fields.0.len(), 12);
    let levels = highest.0.into_entries();
    assert_eq!(levels.len(), 9);
    assert!(levels.contains(&("Level 395".to_string(), 395)));
}

#[test]
fn education_heading_required() {
    let s = sheet(396, vec![(369, 0, text("SCHOOLING"))]);
    assert!(!check_education_readable(&s));
}

#[test]
fn read_counts_in_order() {
    let s = sheet(4, vec![(1, 1, Cell::Int(5)), (2, 2, float(9, true)), (3, 0, text("n"))]);
    assert_eq!(read_counts(&s, &vec![(2, 2), (1, 1)]), Ok(vec![9, 5]));
    assert_eq!(read_counts(&s, &vec![(1, 1), (3, 0), (9, 9)]), Err(CensusError::InvalidCount { row: 3, col: 0 }));
    assert_eq!(read_counts(&s, &vec![]), Ok(vec![]));
}

#[test]
fn exact_and_trimmed_labels() {
    let s = sheet(2, vec![(1, 0, text(" A "))]);
    assert!(!exact_label_holds(&s, 1, 0, "A"));
    assert!(exact_label_holds(&s, 1, 0, " A "));
    assert!(row_labels_hold(&s, &vec![(1, "A")]));
    assert!(!row_labels_hold(&s, &vec![(1, "A"), (0, "B")]));
}

#[test]
fn count_labels_stop_at_missing_count() {
    let s = sheet(3, vec![(1, 0, text("A")), (2, 0, text("B")), (2, 1, Cell::Int(1))]);
    // Row 1 has no count, so the label of row 2 is never looked at.
    assert!(count_labels_hold(&s, &vec![(1, "A"), (2, "C")]));
    let s = sheet(3, vec![(1, 0, text("A")), (1, 1, Cell::Int(1)), (2, 0, text("B"))]);
    assert!(!count_labels_hold(&s, &vec![(1, "A"), (2, "C")]));
}

#[test]
fn typed_rows_fail_halt_and_complete() {
    let s = sheet(
        4,
        vec![
            (1, 0, text("a")),
            (1, 1, Cell::Int(2)),
            (2, 0, text("b")),
            (2, 1, float(3, false)),
            (3, 0, text("c")),
            (3, 1, Cell::Int(-1)),
        ],
    );
    let typed = CountRule::Typed { positive_ints: true };
    // A number with a fraction stops the reading.
    assert!(!rows_readable(&s, 1, 3, typed, true));
    assert!(rows_readable(&s, 1, 1, typed, true));
    assert!(rows_complete(&s, 1, 1, typed, true));
    let m = scan_count_rows(&s, 1, 1, typed, true).unwrap();
    assert_eq!(m.into_entries(), vec![("a".to_string(), 2)]);
    // Rounded reading takes every number.
    assert!(rows_complete(&s, 1, 3, CountRule::Rounded, true));
    let m = scan_count_rows(&s, 1, 3, CountRule::Rounded, true).unwrap();
    let mut got = m.into_entries();
    got.sort();
    assert_eq!(got, vec![("a".to_string(), 2), ("b".to_string(), 3), ("c".to_string(), u64::MAX)]);
    // A row with no label fails.
    let e = sheet(2, vec![(1, 1, Cell::Int(2))]);
    assert!(rows_readable(&e, 1, 1, typed, false));
    assert!(!rows_complete(&e, 1, 1, typed, false));
    assert_eq!(scan_count_rows(&e, 1, 1, typed, false).map(|_| ()), Err(CensusError::UnexpectedCells { row: 1 }));
}

#[test]
fn label_map_replaces_values() {
    let mut m: LabelMap<u64> = LabelMap::new();
    assert_eq!(m.len(), 0);
    m.insert("a".to_string(), 1);
    m.insert("b".to_string(), 2);
    m.insert("a".to_string(), 3);
    assert_eq!(m.len(), 2);
    let mut e = m.into_entries();
    e.sort();
    assert_eq!(e, vec![("a".to_string(), 3), ("b".to_string(), 2)]);
}
