//! The routes of the carriers resource.

use crate::routes::{all_formats, Endpoint, RouteTable, Route};
use vstd::prelude::*;

verus! {

/// The list of carriers, then a single carrier, each in every format.
pub open spec fn carrier_routes() -> Seq<Route> {
    all_formats(Endpoint::Carriers) + all_formats(Endpoint::Carrier)
}

/// Mounts the carriers routes on `table`.
pub fn mount(table: RouteTable) -> (r: RouteTable)
    ensures
        r@ == table@ + carrier_routes(),
{
    let mut table = table;
    let ghost start = table@;
    table.add_all_formats(Endpoint::Carriers);
    table.add_all_formats(Endpoint::Carrier);
    assert(table@ =~= start + carrier_routes());
    table
}

} // verus!
