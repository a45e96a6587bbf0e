use corgis::airlines::{Airport, Carrier};
use corgis::csv::Csv;
use corgis::database::{NewAirport, NewCarrier};
use corgis::routes::{mount, Endpoint, Format, Method, Route, RouteTable};

#[test]
fn mount_lists_every_route_in_order() {
    let table = mount(RouteTable::new());
    let routes = table.routes();
    assert_eq!(routes.len(), 39);
    assert_eq!(routes[0], Route { endpoint: Endpoint::Airports, format: Format::Json });
    assert_eq!(routes[7], Route { endpoint: Endpoint::Airport, format: Format::Default });
    assert_eq!(routes[8], Route { endpoint: Endpoint::Carriers, format: Format::Json });
    assert_eq!(routes[16], Route { endpoint: Endpoint::Statistics, format: Format::Json });
    assert_eq!(routes[20], Route { endpoint: Endpoint::PostStatistic, format: Format::Json });
    assert_eq!(routes[21], Route { endpoint: Endpoint::PostStatistic, format: Format::Hal });
    assert_eq!(routes[38], Route { endpoint: Endpoint::StatisticsMinutesDelayed, format: Format::Default });
}

#[test]
fn mount_keeps_existing_routes_first() {
    let mut table = RouteTable::new();
    table.add(Endpoint::Carrier, &[Format::Csv]);
    let table = corgis::routes::airports::mount(table);
    assert_eq!(table.routes().len(), 9);
    assert_eq!(table.routes()[0], Route { endpoint: Endpoint::Carrier, format: Format::Csv });
    assert_eq!(table.routes()[1], Route { endpoint: Endpoint::Airports, format: Format::Json });
}

#[test]
fn route_methods_and_ranks() {
    let post = Route { endpoint: Endpoint::PostStatistic, format: Format::Hal };
    assert_eq!(post.method(), Method::Post);
    assert_eq!(post.rank(), 3);
    let delete = Route { endpoint: Endpoint::DeleteStatistic, format: Format::Csv };
    assert_eq!(delete.method(), Method::Delete);
    assert_eq!(delete.rank(), 2);
    let get = Route { endpoint: Endpoint::StatisticsFlights, format: Format::Default };
    assert_eq!(get.method(), Method::Get);
    assert_eq!(get.rank(), 4);
}

fn render(values: &Vec<i32>) -> String {
    values.iter().map(|v| v.to_string()).collect::<Vec<_>>().join(",")
}

#[test]
fn csv_converts_and_gives_back() {
    let csv = Csv(vec![1, 2, 3], render);
    assert_eq!(csv.convert(), "1,2,3");
    assert_eq!(csv.into_inner(), vec![1, 2, 3]);
}

#[test]
fn insert_rows_borrow_code_and_name() {
    let airport = Airport::new("ATL".to_string(), "Atlanta".to_string());
    let row = NewAirport::new(&airport);
    assert_eq!((row.code, row.name), ("ATL", "Atlanta"));
    let carrier = Carrier::new("AA".to_string(), "American Airlines Inc.".to_string());
    let row = NewCarrier::new(&carrier);
    assert_eq!((row.code, row.name), ("AA", "American Airlines Inc."));
}
