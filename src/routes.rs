//! The table of routes that the web service answers, grouped by resource.

pub mod airports;
pub mod carriers;
pub mod statistics;

use vstd::prelude::*;

verus! {

/// The HTTP method of a route.
#[derive(Clone, Copy, Debug, PartialEq, Eq, Hash)]
pub enum Method {
    Get,
    Post,
    Delete,
}

/// The representation a route answers with. Routes of one endpoint are
/// tried in the order JSON, CSV, HAL, then the default.
#[derive(Clone, Copy, Debug, PartialEq, Eq, Hash)]
pub enum Format {
    Json,
    Csv,
    Hal,
    Default,
}

/// An operation of the service.
#[derive(Clone, Copy, Debug, PartialEq, Eq, Hash)]
pub enum Endpoint {
    /// The airports, optionally those served by one carrier.
    Airports,
    /// One airport.
    Airport,
    /// The carriers, optionally those operating at one airport.
    Carriers,
    /// One carrier.
    Carrier,
    /// The statistics records, filtered.
    Statistics,
    /// Adds a statistics record.
    PostStatistic,
    /// One statistics record.
    Statistic,
    /// Removes a statistics record.
    DeleteStatistic,
    /// The flights projection of the records, filtered.
    StatisticsFlights,
    /// The minutes-delayed projection of the records, filtered.
    StatisticsMinutesDelayed,
}

/// One route: an endpoint answered in one format.
#[derive(Clone, Copy, Debug, PartialEq, Eq, Hash)]
pub struct Route {
    pub endpoint: Endpoint,
    pub format: Format,
}

/// The method of an endpoint.
pub open spec fn method_of(e: Endpoint) -> Method {
    match e {
        Endpoint::PostStatistic => Method::Post,
        Endpoint::DeleteStatistic => Method::Delete,
        _ => Method::Get,
    }
}

/// The priority of a format among routes of one endpoint, 1 first.
pub open spec fn rank_of(f: Format) -> u8 {
    match f {
        Format::Json => 1,
        Format::Csv => 2,
        Format::Hal => 3,
        Format::Default => 4,
    }
}

/// The four routes of an endpoint, one per format, in order of rank.
pub open spec fn all_formats(e: Endpoint) -> Seq<Route> {
    seq![
        Route { endpoint: e, format: Format::Json },
        Route { endpoint: e, format: Format::Csv },
        Route { endpoint: e, format: Format::Hal },
        Route { endpoint: e, format: Format::Default },
    ]
}

impl Route {
    /// The HTTP method of the route.
    pub fn method(&self) -> (r: Method)
        ensures
            r == method_of(self.endpoint),
    {
        match self.endpoint {
            Endpoint::PostStatistic => Method::Post,
            Endpoint::DeleteStatistic => Method::Delete,
            _ => Method::Get,
        }
    }

    /// The priority of the route among the routes of its endpoint.
    pub fn rank(&self) -> (r: u8)
        ensures
            r == rank_of(self.format),
    {
        match self.format {
            Format::Json => 1,
            Format::Csv => 2,
            Format::Hal => 3,
            Format::Default => 4,
        }
    }
}

/// Routes in the order they were mounted.
pub struct RouteTable {
    routes: Vec<Route>,
}

impl View for RouteTable {
    type V = Seq<Route>;

    closed spec fn view(&self) -> Seq<Route> {
        self.routes@
    }
}

impl RouteTable {
    /// A table without routes.
    pub fn new() -> (r: RouteTable)
        ensures
            r@ == Seq::<Route>::empty(),
    {
        RouteTable { routes: Vec::new() }
    }

    /// The routes, in the order they were mounted.
    pub fn routes(&self) -> (r: &[Route])
        ensures
            r@ == self@,
    {
        self.routes.as_slice()
    }

    /// Appends the routes of `endpoint` in the formats `formats`, in that order.
    pub fn add(&mut self, endpoint: Endpoint, formats: &[Format])
        ensures
            final(self)@ == old(self)@ + formats@.map_values(
                |f: Format| Route { endpoint: endpoint, format: f },
            ),
    {
        let mut i: usize = 0;
        while i < formats.len()
            invariant
                i <= formats@.len(),
                self@ == old(self)@ + formats@.take(i as int).map_values(
                    |f: Format| Route { endpoint: endpoint, format: f },
                ),
            decreases formats.len() - i,
        {
            self.routes.push(Route { endpoint, format: formats[i] });
            assert(formats@.take(i + 1) == formats@.take(i as int).push(formats@[i as int]));
            i = i + 1;
            assert(self@ =~= old(self)@ + formats@.take(i as int).map_values(
                |f: Format| Route { endpoint: endpoint, format: f },
            ));
        }
        assert(formats@.take(i as int) == formats@);
    }

    /// Appends the four routes of `endpoint`, one per format, in order of rank.
    pub fn add_all_formats(&mut self, endpoint: Endpoint)
        ensures
            final(self)@ == old(self)@ + all_formats(endpoint),
    {
        let formats = [Format::Json, Format::Csv, Format::Hal, Format::Default];
        self.add(endpoint, &formats);
        assert(formats@.map_values(|f: Format| Route { endpoint: endpoint, format: f })
            =~= all_formats(endpoint));
    }
}

/// The routes of every resource: airports, then carriers, then statistics.
pub open spec fn service_routes() -> Seq<Route> {
    airports::airport_routes() + carriers::carrier_routes() + statistics::statistics_routes()
}

/// Mounts the routes of every resource on `table`.
pub fn mount(table: RouteTable) -> (r: RouteTable)
    ensures
        r@ == table@ + service_routes(),
{
    let ghost start = table@;
    let table = airports::mount(table);
    let table = carriers::mount(table);
    let table = statistics::mount(table);
    assert(table@ =~= start + service_routes());
    table
}

} // verus!
