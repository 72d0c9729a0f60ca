//! Cost estimation for a shipment.

use vstd::prelude::*;
use crate::types::{Address, PackageDetails};

verus! {

/// Price of carrying a package, in hundredths of the currency unit:
/// a base charge of 10.00, plus 2.00 per weight unit, plus 1% of the
/// declared value (rounded down to a hundredth), plus 5.00 if the
/// package is fragile.
pub open spec fn spec_shipping_cost(weight_centi: u32, value_centi: u32, fragile: bool) -> int {
    1000 + 2 * weight_centi + value_centi / 100 + if fragile {
        500 as int
    } else {
        0 as int
    }
}

/// Estimates the cost of a shipment from its package attributes alone.
/// The addresses are taken but not read: distance is not a cost factor
/// in this version, a deliberate limitation.
pub fn calculate_shipping_cost(
    _pickup: &Address,
    _delivery: &Address,
    package: &PackageDetails,
) -> (cost: u64)
    ensures
        cost == spec_shipping_cost(package.weight_centi, package.value_centi, package.fragile),
{
    let base_cost: u64 = 1000;
    let weight_cost: u64 = 2 * (package.weight_centi as u64);
    let value_cost: u64 = (package.value_centi as u64) / 100;
    let fragile_cost: u64 = if package.fragile {
        500
    } else {
        0
    };
    base_cost + weight_cost + value_cost + fragile_cost
}

} // verus!
