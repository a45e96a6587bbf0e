//! The routes of the airports resource.

use crate::routes::{all_formats, Endpoint, RouteTable, Route};
use vstd::prelude::*;

verus! {

/// The list of airports, then a single airport, each in every format.
pub open spec fn airport_routes() -> Seq<Route> {
    all_formats(Endpoint::Airports) + all_formats(Endpoint::Airport)
}

/// Mounts the airports routes on `table`.
pub fn mount(table: RouteTable) -> (r: RouteTable)
    ensures
        r@ == table@ + airport_routes(),
{
    let mut table = table;
    let ghost start = table@;
    table.add_all_formats(Endpoint::Airports);
    table.add_all_formats(Endpoint::Airport);
    assert(table@ =~= start + airport_routes());
    table
}

} // verus!
