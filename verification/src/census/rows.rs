//! Tables of labelled rows, read into maps from label to count.
use vstd::prelude::*;

use crate::census::label_map::LabelMap;
use crate::census::sheet::{Cell, Sheet, SheetView};
use crate::census::{count_at, get_int_rounding, CensusError};
use crate::text::{trim, trimmed};

verus! {

/// How each row of a labelled table is read.
#[derive(Clone, Copy, Debug, PartialEq, Eq)]
pub enum CountRule {
    /// A label in the first cell and a count, rounded, in the second; a row
    /// without a label or without a count is an error.
    Rounded,
    /// A label and an integer, or a label and a number; any other row is an
    /// error. A number must be whole and not negative, and where
    /// `positive_ints` holds an integer must be positive, or the reading stops.
    Typed { positive_ints: bool },
}

/// What reading one row gives.
pub enum RowOutcome {
    /// A label and its count.
    Entry(Seq<char>, u64),
    /// The row makes the table unreadable.
    Fail(CensusError),
    /// The row breaks an expectation that stops the reading altogether.
    Halt,
}

/// The key a label gives: trimmed where `trim_keys` holds.
pub open spec fn key_of(label: Seq<char>, trim_keys: bool) -> Seq<char> {
    if trim_keys {
        trimmed(label)
    } else {
        label
    }
}

/// What reading `row` by `rule` gives.
pub open spec fn count_row(s: SheetView, row: int, rule: CountRule, trim_keys: bool) -> RowOutcome {
    match rule {
        CountRule::Rounded => match s.cell(row, 0) {
            Some(Cell::String(t)) => match count_at(s, row, 1) {
                Some(v) => RowOutcome::Entry(key_of(t@, trim_keys), v),
                None => RowOutcome::Fail(CensusError::InvalidCount { row: row as u32, col: 1 }),
            },
            _ => RowOutcome::Fail(CensusError::NotALabel { row: row as u32 }),
        },
        CountRule::Typed { positive_ints } => match (s.cell(row, 0), s.cell(row, 1)) {
            (Some(Cell::String(t)), Some(Cell::Int(c))) => if positive_ints && c <= 0 {
                RowOutcome::Halt
            } else {
                RowOutcome::Entry(key_of(t@, trim_keys), c as u64)
            },
            (Some(Cell::String(t)), Some(Cell::Float(f))) => if f.sign_positive && f.whole {
                RowOutcome::Entry(key_of(t@, trim_keys), f.as_u64)
            } else {
                RowOutcome::Halt
            },
            _ => RowOutcome::Fail(CensusError::UnexpectedCells { row: row as u32 }),
        },
    }
}

/// What reading the rows `row` to `last` in order gives.
pub enum ScanOutcome {
    /// Every row gave an entry; these, in order.
    Done(Seq<(Seq<char>, u64)>),
    /// The error of the first row that failed.
    Failed(CensusError),
    /// A row stopped the reading before any row failed.
    Halted,
}

/// Reads the rows `row` to `last`, in order, by `rule`.
pub open spec fn scan_rows(s: SheetView, row: int, last: int, rule: CountRule, trim_keys: bool) -> ScanOutcome
    decreases last - row + 1,
{
    if row > last {
        ScanOutcome::Done(seq![])
    } else {
        match count_row(s, row, rule, trim_keys) {
            RowOutcome::Entry(k, v) => match scan_rows(s, row + 1, last, rule, trim_keys) {
                ScanOutcome::Done(rest) => ScanOutcome::Done(seq![(k, v)] + rest),
                other => other,
            },
            RowOutcome::Fail(e) => ScanOutcome::Failed(e),
            RowOutcome::Halt => ScanOutcome::Halted,
        }
    }
}

/// Reading by `CountRule::Rounded` never stops: every row gives an entry or
/// an error.
pub proof fn lemma_rounded_never_halts(s: SheetView, row: int, last: int, trim_keys: bool)
    ensures
        !(scan_rows(s, row, last, CountRule::Rounded, trim_keys) is Halted),
    decreases last - row + 1,
{
    if row <= last {
        lemma_rounded_never_halts(s, row + 1, last, trim_keys);
    }
}

/// The map that inserting `entries` in order gives, later entries replacing
/// earlier ones with the same label.
pub open spec fn pairs_map<V>(entries: Seq<(Seq<char>, V)>) -> Map<Seq<char>, V>
    decreases entries.len(),
{
    if entries.len() == 0 {
        Map::empty()
    } else {
        pairs_map(entries.drop_last()).insert(entries.last().0, entries.last().1)
    }
}

/// The key of row `r`: the text of its first cell, trimmed where
/// `trim_keys` holds; `None` where that cell holds no text.
pub open spec fn row_key(s: SheetView, r: int, trim_keys: bool) -> Option<Seq<char>> {
    match s.cell(r, 0) {
        Some(Cell::String(t)) => Some(if trim_keys { trimmed(t@) } else { t@ }),
        _ => None,
    }
}

/// The count of row `r` read by `rule`: the rounded number of its second
/// cell; or, typed, the integer taken as `u64` or the number converted to
/// `u64`.
pub open spec fn row_count(s: SheetView, r: int, rule: CountRule) -> Option<u64> {
    match rule {
        CountRule::Rounded => count_at(s, r, 1),
        CountRule::Typed { .. } => match s.cell(r, 1) {
            Some(Cell::Int(c)) => Some(c as u64),
            Some(Cell::Float(f)) => Some(f.as_u64),
            _ => None,
        },
    }
}

/// Whether `m` is the table of the rows `first` to `last`: every row has a
/// key and a value, its key is in `m`, every key of `m` is the key of some
/// row, and a row whose key no later row repeats has its value under it.
pub open spec fn table_of_rows<V>(
    m: Map<Seq<char>, V>,
    first: int,
    last: int,
    key: spec_fn(int) -> Option<Seq<char>>,
    val: spec_fn(int) -> Option<V>,
) -> bool {
    &&& forall|r: int| first <= r <= last ==> #[trigger] key(r) is Some && val(r) is Some && m.contains_key(key(r)->0)
    &&& forall|k: Seq<char>| #[trigger] m.contains_key(k) ==> exists|r: int| first <= r <= last && #[trigger] key(r) == Some(k)
    &&& forall|r: int|
        first <= r <= last && #[trigger] key_not_repeated(key, r, last) ==> val(r) == Some(m[key(r)->0])
}

/// Whether no row after `r`, up to `last`, has the key of row `r`.
pub open spec fn key_not_repeated(key: spec_fn(int) -> Option<Seq<char>>, r: int, last: int) -> bool {
    forall|r2: int| r < r2 <= last ==> #[trigger] key(r2) != key(r)
}

/// Whether some entry has the key `k`.
pub open spec fn has_key<V>(entries: Seq<(Seq<char>, V)>, k: Seq<char>) -> bool {
    exists|i: int| 0 <= i < entries.len() && (#[trigger] entries[i]).0 == k
}

/// The map of entries holds exactly their keys, and under a key the value of
/// its last entry.
pub proof fn lemma_pairs_map_entries<V>(entries: Seq<(Seq<char>, V)>)
    ensures
        forall|k: Seq<char>| #[trigger] pairs_map(entries).contains_key(k) <==> has_key(entries, k),
        forall|i: int|
            0 <= i < entries.len() && (forall|j: int| i < j < entries.len() ==> (#[trigger] entries[j]).0 != entries[i].0)
                ==> pairs_map(entries)[(#[trigger] entries[i]).0] == entries[i].1,
    decreases entries.len(),
{
    if entries.len() > 0 {
        let init = entries.drop_last();
        lemma_pairs_map_entries(init);
        let n = entries.len() - 1;
        assert(entries[n] == entries.last());
        let m0 = pairs_map(init);
        assert(init.len() == n);
        assert(pairs_map(entries) == m0.insert(entries.last().0, entries.last().1));
        assert forall|k: Seq<char>| #[trigger] pairs_map(entries).contains_key(k) implies has_key(entries, k) by {
            if k == entries.last().0 {
                assert(entries[n].0 == k);
            } else {
                assert(m0.contains_key(k));
                assert(has_key(init, k));
                let i = choose|i: int| 0 <= i < init.len() && (#[trigger] init[i]).0 == k;
                assert(entries[i] == init[i]);
            }
        }
        assert forall|k: Seq<char>| has_key(entries, k) implies #[trigger] pairs_map(entries).contains_key(k) by {
            let i = choose|i: int| 0 <= i < entries.len() && (#[trigger] entries[i]).0 == k;
            if i < n {
                assert(entries[i] == init[i]);
                assert(has_key(init, k));
                assert(m0.contains_key(k));
            }
        }
        assert forall|i: int|
            0 <= i < entries.len() && (forall|j: int| i < j < entries.len() ==> (#[trigger] entries[j]).0 != entries[i].0)
                implies pairs_map(entries)[(#[trigger] entries[i]).0] == entries[i].1 by {
            if i < n {
                assert(entries[i] == init[i]);
                assert(entries[n].0 != entries[i].0);
                assert forall|j: int| i < j < init.len() implies (#[trigger] init[j]).0 != init[i].0 by {
                    assert(init[j] == entries[j]);
                }
            }
        }
    }
}

/// Entries made one per row, in row order, give the table of those rows.
#[verifier::spinoff_prover]
#[verifier::rlimit(50)]
pub proof fn lemma_table_of_entries<V>(
    entries: Seq<(Seq<char>, V)>,
    first: int,
    last: int,
    key: spec_fn(int) -> Option<Seq<char>>,
    val: spec_fn(int) -> Option<V>,
)
    requires
        entries.len() == last - first + 1,
        forall|i: int| 0 <= i < entries.len() ==> key(first + i) == Some(#[trigger] entries[i].0) && val(first + i) == Some(entries[i].1),
    ensures
        table_of_rows(pairs_map(entries), first, last, key, val),
{
    let m = pairs_map(entries);
    assert forall|r: int| first <= r <= last implies #[trigger] key(r) is Some && val(r) is Some && m.contains_key(key(r)->0) by {
        let i = r - first;
        assert(key(first + i) == Some(entries[i].0) && val(first + i) == Some(entries[i].1));
        lemma_pairs_map_entries(entries);
        assert(has_key(entries, entries[i].0));
    }
    assert forall|k: Seq<char>| #[trigger] m.contains_key(k) implies exists|r: int| first <= r <= last && #[trigger] key(r) == Some(k) by {
        lemma_pairs_map_entries(entries);
        assert(has_key(entries, k));
        let i = choose|i: int| 0 <= i < entries.len() && (#[trigger] entries[i]).0 == k;
        assert(key(first + i) == Some(entries[i].0));
    }
    assert forall|r: int|
        first <= r <= last && #[trigger] key_not_repeated(key, r, last) implies val(r) == Some(m[key(r)->0]) by {
        let i = r - first;
        assert(key(first + i) == Some(entries[i].0) && val(first + i) == Some(entries[i].1));
        assert forall|j: int| i < j < entries.len() implies (#[trigger] entries[j]).0 != entries[i].0 by {
            assert(key(first + j) == Some(entries[j].0));
            assert(key(first + j) != key(r));
        }
        lemma_pairs_map_entries(entries);
        assert(m[entries[i].0] == entries[i].1);
    }
}

/// A reading that does not fail or stop gives one entry per row, in row
/// order: each row's key and its count.
pub proof fn lemma_scan_entries(s: SheetView, row: int, last: int, rule: CountRule, trim_keys: bool)
    requires
        row <= last + 1,
    ensures
        scan_rows(s, row, last, rule, trim_keys) matches ScanOutcome::Done(entries) ==> {
            &&& entries.len() == last - row + 1
            &&& forall|i: int|
                0 <= i < entries.len() ==> row_key(s, row + i, trim_keys) == Some(#[trigger] entries[i].0) && row_count(
                    s,
                    row + i,
                    rule,
                ) == Some(entries[i].1)
        },
    decreases last - row + 1,
{
    if row <= last {
        lemma_scan_entries(s, row + 1, last, rule, trim_keys);
        if let ScanOutcome::Done(entries) = scan_rows(s, row, last, rule, trim_keys) {
            let rest = scan_rows(s, row + 1, last, rule, trim_keys)->Done_0;
            assert forall|i: int| 0 <= i < entries.len() implies row_key(s, row + i, trim_keys) == Some(
                #[trigger] entries[i].0,
            ) && row_count(s, row + i, rule) == Some(entries[i].1) by {
                if i > 0 {
                    assert(entries[i] == rest[i - 1]);
                    assert(row + 1 + (i - 1) == row + i);
                }
            }
        }
    }
}

/// A reading of the rows `first` to `last` that neither fails nor stops
/// gives the table of those rows, keyed by `row_key` and valued by
/// `row_count`.
pub proof fn lemma_scan_table(s: SheetView, first: int, last: int, rule: CountRule, trim_keys: bool)
    requires
        first <= last + 1,
    ensures
        scan_rows(s, first, last, rule, trim_keys) is Done ==> (scan_result(scan_rows(s, first, last, rule, trim_keys)) matches Ok(m)
            && table_of_rows(m, first, last, |r: int| row_key(s, r, trim_keys), |r: int| row_count(s, r, rule))),
{
    lemma_scan_entries(s, first, last, rule, trim_keys);
    if let ScanOutcome::Done(entries) = scan_rows(s, first, last, rule, trim_keys) {
        lemma_table_of_entries(entries, first, last, |r: int| row_key(s, r, trim_keys), |r: int| row_count(s, r, rule));
    }
}

/// Whether row `r` read by `rule` fails with `e`: by `Rounded`, a first cell
/// without text, or a text without a count beside it; typed, a row without
/// both a text and a number.
pub open spec fn row_fails(s: SheetView, r: int, rule: CountRule, e: CensusError) -> bool {
    match rule {
        CountRule::Rounded => {
            ||| !(s.cell(r, 0) matches Some(Cell::String(_))) && e == (CensusError::NotALabel { row: r as u32 })
            ||| (s.cell(r, 0) matches Some(Cell::String(_))) && count_at(s, r, 1) is None && e == (CensusError::InvalidCount {
                row: r as u32,
                col: 1,
            })
        },
        CountRule::Typed { .. } => {
            &&& !(row_key(s, r, false) is Some && row_count(s, r, rule) is Some)
            &&& e == (CensusError::UnexpectedCells { row: r as u32 })
        },
    }
}

/// A reading that fails does so on a row of the table that fails, every
/// row before it having a key and a count.
pub proof fn lemma_scan_failed(s: SheetView, row: int, last: int, rule: CountRule, trim_keys: bool)
    ensures
        scan_rows(s, row, last, rule, trim_keys) matches ScanOutcome::Failed(e) ==> exists|r: int|
            row <= r <= last && #[trigger] row_fails(s, r, rule, e) && forall|r2: int|
                row <= r2 < r ==> #[trigger] row_key(s, r2, trim_keys) is Some && row_count(s, r2, rule) is Some,
    decreases last - row + 1,
{
    if row <= last {
        lemma_scan_failed(s, row + 1, last, rule, trim_keys);
        if let ScanOutcome::Failed(e) = scan_rows(s, row, last, rule, trim_keys) {
            match count_row(s, row, rule, trim_keys) {
                RowOutcome::Fail(f) => {
                    assert(row_fails(s, row, rule, e));
                },
                RowOutcome::Entry(k, v) => {
                    let r = choose|r: int|
                        row + 1 <= r <= last && #[trigger] row_fails(s, r, rule, e) && forall|r2: int|
                            row + 1 <= r2 < r ==> #[trigger] row_key(s, r2, trim_keys) is Some && row_count(s, r2, rule) is Some;
                    assert(row_key(s, row, trim_keys) is Some && row_count(s, row, rule) is Some);
                    assert forall|r2: int| row <= r2 < r implies #[trigger] row_key(s, r2, trim_keys) is Some && row_count(
                        s,
                        r2,
                        rule,
                    ) is Some by {}
                    assert(row_fails(s, r, rule, e));
                },
                RowOutcome::Halt => {},
            }
        }
    }
}

/// `entries` put before the entries of a later reading, or that reading's
/// failure.
pub open spec fn prepend_entries(entries: Seq<(Seq<char>, u64)>, later: ScanOutcome) -> ScanOutcome {
    match later {
        ScanOutcome::Done(rest) => ScanOutcome::Done(entries + rest),
        other => other,
    }
}

/// The map a reading gives, or its error.
pub open spec fn scan_result(scan: ScanOutcome) -> Result<Map<Seq<char>, u64>, CensusError> {
    match scan {
        ScanOutcome::Done(entries) => Ok(pairs_map(entries)),
        ScanOutcome::Failed(e) => Err(e),
        ScanOutcome::Halted => Ok(Map::empty()),
    }
}

/// The map a reading gives with `extra` inserted under `key` afterwards, or
/// the first error.
pub open spec fn with_extra(
    read: Result<Map<Seq<char>, u64>, CensusError>,
    key: Seq<char>,
    extra: Result<u64, CensusError>,
) -> Result<Map<Seq<char>, u64>, CensusError> {
    match read {
        Ok(m) => match extra {
            Ok(v) => Ok(m.insert(key, v)),
            Err(e) => Err(e),
        },
        Err(e) => Err(e),
    }
}

/// The view of an executable map result.
pub open spec fn map_view(res: Result<LabelMap<u64>, CensusError>) -> Result<Map<Seq<char>, u64>, CensusError> {
    match res {
        Ok(m) => Ok(m@),
        Err(e) => Err(e),
    }
}

/// Whether an executable result is the map, or the error, of a reading.
pub open spec fn scan_matches(res: Result<LabelMap<u64>, CensusError>, scan: ScanOutcome) -> bool {
    match scan {
        ScanOutcome::Done(entries) => res matches Ok(m) && m@ == pairs_map(entries),
        ScanOutcome::Failed(e) => res == Err::<LabelMap<u64>, CensusError>(e),
        ScanOutcome::Halted => false,
    }
}

fn make_key(label: &String, trim_keys: bool) -> (key: String)
    ensures
        key@ == key_of(label@, trim_keys),
{
    if trim_keys {
        trim(label.as_str()).to_owned()
    } else {
        label.clone()
    }
}

/// Reads the rows `first` to `last` of a labelled table into a map from
/// label to count; the first row that fails gives the error.
pub fn scan_count_rows(sheet: &Sheet, first: u32, last: u32, rule: CountRule, trim_keys: bool) -> (res: Result<
    LabelMap<u64>,
    CensusError,
>)
    requires
        first <= last < u32::MAX,
        !(scan_rows(sheet@, first as int, last as int, rule, trim_keys) is Halted),
    ensures
        scan_matches(res, scan_rows(sheet@, first as int, last as int, rule, trim_keys)),
{
    let ghost whole = scan_rows(sheet@, first as int, last as int, rule, trim_keys);
    let ghost mut entries: Seq<(Seq<char>, u64)> = seq![];
    let mut map: LabelMap<u64> = LabelMap::new();
    let mut row = first;
    proof {
        if let ScanOutcome::Done(rest) = whole {
            assert(entries + rest =~= rest);
        }
    }
    while row <= last
        invariant
            first <= row <= last + 1,
            last < u32::MAX,
            whole == scan_rows(sheet@, first as int, last as int, rule, trim_keys),
            !(whole is Halted),
            whole == prepend_entries(entries, scan_rows(sheet@, row as int, last as int, rule, trim_keys)),
            map@ == pairs_map(entries),
        decreases last - row + 1,
    {
        let ghost later = scan_rows(sheet@, row as int + 1, last as int, rule, trim_keys);
        let label = sheet.get_value(row, 0);
        let value = sheet.get_value(row, 1);
        let (key, count): (String, u64) = match rule {
            CountRule::Rounded => match label {
                Some(Cell::String(t)) => match get_int_rounding(value) {
                    Some(v) => (make_key(t, trim_keys), v as u64),
                    None => {
                        return Err(CensusError::InvalidCount { row, col: 1 });
                    },
                },
                _ => {
                    return Err(CensusError::NotALabel { row });
                },
            },
            CountRule::Typed { .. } => match (label, value) {
                (Some(Cell::String(t)), Some(Cell::Int(c))) => (make_key(t, trim_keys), *c as u64),
                (Some(Cell::String(t)), Some(Cell::Float(f))) => (make_key(t, trim_keys), f.as_u64),
                _ => {
                    return Err(CensusError::UnexpectedCells { row });
                },
            },
        };
        proof {
            let e = (key@, count);
            if let ScanOutcome::Done(rest) = later {
                assert(entries + (seq![e] + rest) =~= entries.push(e) + rest);
            }
            assert(entries.push(e).drop_last() =~= entries);
            entries = entries.push(e);
        }
        map.insert(key, count);
        row = row + 1;
    }
    assert(entries + seq![] =~= entries);
    Ok(map)
}

/// Whether reading the rows `first` to `last` by `rule` does not stop:
/// what `scan_count_rows` requires.
pub fn rows_readable(sheet: &Sheet, first: u32, last: u32, rule: CountRule, trim_keys: bool) -> (b: bool)
    requires
        first <= last < u32::MAX,
    ensures
        b == !(scan_rows(sheet@, first as int, last as int, rule, trim_keys) is Halted),
{
    let mut row = first;
    while row <= last
        invariant
            first <= row <= last + 1,
            last < u32::MAX,
            (scan_rows(sheet@, first as int, last as int, rule, trim_keys) is Halted) == (scan_rows(
                sheet@,
                row as int,
                last as int,
                rule,
                trim_keys,
            ) is Halted),
        decreases last - row + 1,
    {
        let label = sheet.get_value(row, 0);
        let value = sheet.get_value(row, 1);
        match rule {
            CountRule::Rounded => {
                match label {
                    Some(Cell::String(_)) => {
                        if get_int_rounding(value).is_none() {
                            return true;
                        }
                    },
                    _ => {
                        return true;
                    },
                }
            },
            CountRule::Typed { positive_ints } => match (label, value) {
                (Some(Cell::String(_)), Some(Cell::Int(c))) => {
                    if positive_ints && *c <= 0 {
                        return false;
                    }
                },
                (Some(Cell::String(_)), Some(Cell::Float(f))) => {
                    if !(f.sign_positive && f.whole) {
                        return false;
                    }
                },
                _ => {
                    return true;
                },
            },
        }
        row = row + 1;
    }
    true
}

/// Whether reading the rows `first` to `last` by `rule` gives every row's
/// entry, with no row failing or stopping the reading.
pub fn rows_complete(sheet: &Sheet, first: u32, last: u32, rule: CountRule, trim_keys: bool) -> (b: bool)
    requires
        first <= last < u32::MAX,
    ensures
        b == (scan_rows(sheet@, first as int, last as int, rule, trim_keys) is Done),
{
    let mut row = first;
    while row <= last
        invariant
            first <= row <= last + 1,
            last < u32::MAX,
            (scan_rows(sheet@, first as int, last as int, rule, trim_keys) is Done) == (scan_rows(
                sheet@,
                row as int,
                last as int,
                rule,
                trim_keys,
            ) is Done),
        decreases last - row + 1,
    {
        let label = sheet.get_value(row, 0);
        let value = sheet.get_value(row, 1);
        match rule {
            CountRule::Rounded => {
                match label {
                    Some(Cell::String(_)) => {
                        if get_int_rounding(value).is_none() {
                            return false;
                        }
                    },
                    _ => {
                        return false;
                    },
                }
            },
            CountRule::Typed { positive_ints } => match (label, value) {
                (Some(Cell::String(_)), Some(Cell::Int(c))) => {
                    if positive_ints && *c <= 0 {
                        return false;
                    }
                },
                (Some(Cell::String(_)), Some(Cell::Float(f))) => {
                    if !(f.sign_positive && f.whole) {
                        return false;
                    }
                },
                _ => {
                    return false;
                },
            },
        }
        row = row + 1;
    }
    true
}

} // verus!
