//! Residents by main mode of commuting.
use vstd::prelude::*;

use crate::census::population::{get_row_int_population, row_population_spec, Population};
use crate::census::sheet::{Sheet, SheetView};
use crate::census::{assert_test_ranges, labels_ok, CensusError};

verus! {

/// Residents by main mode of commuting.
#[derive(Clone, Copy, Debug)]
pub struct MainTransportation {
    pub personal_vehicle_driver: Population,
    pub public_transit: Population,
    pub personal_vehicle_passenger: Population,
    pub walk: Population,
    pub bicycle: Population,
    pub other: Population,
}

/// The labels of the table, with their positions.
pub open spec fn transportation_tests() -> Seq<((u32, u32), &'static str)> {
    seq![((476u32, 0u32), "Car, truck or van - as a driver"), ((477u32, 0u32), "Public transit"), ((478u32, 0u32), "Car, truck or van - as a passenger"), ((479u32, 0u32), "Walk"), ((480u32, 0u32), "Bicycle"), ((481u32, 0u32), "Other method")]
}

fn transportation_labels() -> (tests: Vec<((u32, u32), &'static str)>)
    ensures
        tests@ == transportation_tests(),
{
    let tests = vec![((476u32, 0u32), "Car, truck or van - as a driver"), ((477u32, 0u32), "Public transit"), ((478u32, 0u32), "Car, truck or van - as a passenger"), ((479u32, 0u32), "Walk"), ((480u32, 0u32), "Bicycle"), ((481u32, 0u32), "Other method")];
    assert(tests@ =~= transportation_tests());
    tests
}

/// What `get_transportation` requires: the labels of the table, and male and
/// female counts in each of its rows.
pub open spec fn transportation_readable(s: SheetView) -> bool {
    &&& labels_ok(s, transportation_tests())
    &&& forall|row: u32| 476 <= row <= 481 ==> #[trigger] row_population_spec(s, row) is Ok
}

/// Decides `transportation_readable`.
pub fn check_transportation_readable(sheet: &Sheet) -> (b: bool)
    ensures
        b == transportation_readable(sheet@),
{
    if !assert_test_ranges(sheet, &transportation_labels()) {
        return false;
    }
    let mut row: u32 = 476;
    while row <= 481
        invariant
            476 <= row <= 482,
            forall|r: u32| 476 <= r < row ==> #[trigger] row_population_spec(sheet@, r) is Ok,
        decreases 482 - row,
    {
        if get_row_int_population(sheet, row).is_err() {
            return false;
        }
        row = row + 1;
    }
    true
}

/// Reads the commuting table; each field is the population of its row.
pub fn get_transportation(sheet: &Sheet) -> (res: Result<MainTransportation, CensusError>)
    requires
        transportation_readable(sheet@),
    ensures
        res matches Ok(t) && {
            &&& row_population_spec(sheet@, 476) == Ok::<Population, CensusError>(t.personal_vehicle_driver)
            &&& row_population_spec(sheet@, 477) == Ok::<Population, CensusError>(t.public_transit)
            &&& row_population_spec(sheet@, 478) == Ok::<Population, CensusError>(t.personal_vehicle_passenger)
            &&& row_population_spec(sheet@, 479) == Ok::<Population, CensusError>(t.walk)
            &&& row_population_spec(sheet@, 480) == Ok::<Population, CensusError>(t.bicycle)
            &&& row_population_spec(sheet@, 481) == Ok::<Population, CensusError>(t.other)
        },
{
    assert(row_population_spec(sheet@, 476) is Ok);
    assert(row_population_spec(sheet@, 477) is Ok);
    assert(row_population_spec(sheet@, 478) is Ok);
    assert(row_population_spec(sheet@, 479) is Ok);
    assert(row_population_spec(sheet@, 480) is Ok);
    assert(row_population_spec(sheet@, 481) is Ok);
    let personal_vehicle_driver = get_row_int_population(sheet, 476)?;
    let public_transit = get_row_int_population(sheet, 477)?;
    let personal_vehicle_passenger = get_row_int_population(sheet, 478)?;
    let walk = get_row_int_population(sheet, 479)?;
    let bicycle = get_row_int_population(sheet, 480)?;
    let other = get_row_int_population(sheet, 481)?;
    Ok(
        MainTransportation {
            personal_vehicle_driver,
            public_transit,
            personal_vehicle_passenger,
            walk,
            bicycle,
            other,
        },
    )
}

} // verus!
