//! The headings of the income tables.
use vstd::prelude::*;

use crate::census::sheet::{Sheet, SheetView};
use crate::census::{assert_test_ranges, label_at, label_holds, labels_ok};

verus! {

/// Income of individuals (the sheet records no such table yet).
#[derive(Clone, Copy, Debug)]
pub struct IndividualIncome {}

/// The labels of the rows of the income composition table.
pub open spec fn percent_composition_tests() -> Seq<((u32, u32), &'static str)> {
    seq![((488u32, 0u32), "Market income (%)"), ((489u32, 0u32), "Employment income (%)"), ((490u32, 0u32), "Government transfers (%)"), ((491u32, 0u32), "Employment insurance benefits (%)"), ((492u32, 0u32), "COVID-19 - Government income support and benefits (%)"), ((493u32, 0u32), "COVID-19 - Emergency and recovery benefits (%)")]
}

/// Whether the sheet holds the heading and row labels of the income tables.
pub open spec fn income_labels_ok(s: SheetView) -> bool {
    &&& label_at(s, 486, 0, "INCOME"@)
    &&& labels_ok(s, percent_composition_tests())
}

/// Decides `income_labels_ok`; the income figures themselves are read only
/// where it holds.
pub fn check_income_labels(sheet: &Sheet) -> (b: bool)
    ensures
        b == income_labels_ok(sheet@),
{
    let tests = vec![((488u32, 0u32), "Market income (%)"), ((489u32, 0u32), "Employment income (%)"), ((490u32, 0u32), "Government transfers (%)"), ((491u32, 0u32), "Employment insurance benefits (%)"), ((492u32, 0u32), "COVID-19 - Government income support and benefits (%)"), ((493u32, 0u32), "COVID-19 - Emergency and recovery benefits (%)")];
    assert(tests@ =~= percent_composition_tests());
    label_holds(sheet, 486, 0, "INCOME") && assert_test_ranges(sheet, &tests)
}

} // verus!
