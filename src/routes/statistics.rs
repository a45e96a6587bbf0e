//! The routes of the statistics resource.

use crate::routes::{all_formats, Endpoint, Format, RouteTable, Route};
use vstd::prelude::*;

verus! {

/// Adding a record has no CSV form.
pub open spec fn post_routes() -> Seq<Route> {
    seq![
        Route { endpoint: Endpoint::PostStatistic, format: Format::Json },
        Route { endpoint: Endpoint::PostStatistic, format: Format::Hal },
        Route { endpoint: Endpoint::PostStatistic, format: Format::Default },
    ]
}

/// The filtered records, adding a record, a single record, removing a
/// record, and the two projections, in that order.
pub open spec fn statistics_routes() -> Seq<Route> {
    all_formats(Endpoint::Statistics) + post_routes() + all_formats(Endpoint::Statistic)
        + all_formats(Endpoint::DeleteStatistic) + all_formats(Endpoint::StatisticsFlights)
        + all_formats(Endpoint::StatisticsMinutesDelayed)
}

/// Mounts the statistics routes on `table`.
pub fn mount(table: RouteTable) -> (r: RouteTable)
    ensures
        r@ == table@ + statistics_routes(),
{
    let mut table = table;
    let ghost start = table@;
    table.add_all_formats(Endpoint::Statistics);
    let post = [Format::Json, Format::Hal, Format::Default];
    table.add(Endpoint::PostStatistic, &post);
    assert(post@.map_values(|f: Format| Route { endpoint: Endpoint::PostStatistic, format: f })
        =~= post_routes());
    table.add_all_formats(Endpoint::Statistic);
    table.add_all_formats(Endpoint::DeleteStatistic);
    table.add_all_formats(Endpoint::StatisticsFlights);
    table.add_all_formats(Endpoint::StatisticsMinutesDelayed);
    assert(table@ =~= start + statistics_routes());
    table
}

} // verus!
