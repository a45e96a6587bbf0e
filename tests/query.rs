use corgis::airlines::{
    Airport, Carrier, DataSet, Flights, MinutesDelayed, NumberOfDelays, Record, Statistics, Time,
};
use corgis::query::{
    query, query_flights, query_minutes_delayed, DelayReasons, Filter, MinutesDelayedReasons,
};

fn record(airport: &str, carrier: &str, month: u32, minutes: i32) -> Record {
    Record {
        airport: Airport::new(airport.to_string(), format!("{} airport", airport)),
        carrier: Carrier::new(carrier.to_string(), format!("{} carrier", carrier)),
        statistics: Statistics {
            flights: Flights {
                cancelled: minutes,
                delayed: 2,
                diverted: 3,
                on_time: 4,
                total: minutes + 9,
            },
            minutes_delayed: MinutesDelayed {
                carrier: minutes,
                late_aircraft: minutes + 1,
                national_aviation_system: minutes + 2,
                security: minutes + 3,
                total: minutes + 4,
                weather: minutes + 5,
            },
            number_of_delays: NumberOfDelays {
                carrier: 1,
                late_aircraft: 1,
                national_aviation_system: 1,
                security: 1,
                weather: 1,
            },
        },
        time: Time { label: format!("2003/{}", month), month, year: 2003 },
    }
}

fn sample() -> DataSet {
    DataSet::from_records(vec![
        record("ATL", "AA", 6, 10),
        record("BOS", "AA", 6, 20),
        record("ATL", "DL", 7, 30),
        record("ATL", "AA", 7, 40),
        record("BOS", "DL", 6, 50),
    ])
}

fn minutes(rs: &[Record]) -> Vec<i32> {
    rs.iter().map(|r| r.statistics.minutes_delayed.carrier).collect()
}

#[test]
fn no_filter_returns_every_record_in_order() {
    let data_set = sample();
    let result = query(&data_set, &Filter::none());
    assert_eq!(result.as_slice(), data_set.records());
}

#[test]
fn airport_filter_keeps_order() {
    let filter = Filter { carrier: None, airport: Some("ATL".to_string()), month: None };
    assert_eq!(minutes(&query(&sample(), &filter)), vec![10, 30, 40]);
}

#[test]
fn filters_are_combined() {
    let filter =
        Filter { carrier: Some("AA".to_string()), airport: Some("ATL".to_string()), month: Some(7) };
    assert_eq!(minutes(&query(&sample(), &filter)), vec![40]);
    let by_month = Filter { carrier: None, airport: None, month: Some(6) };
    assert_eq!(minutes(&query(&sample(), &by_month)), vec![10, 20, 50]);
    let by_carrier = Filter { carrier: Some("DL".to_string()), airport: None, month: None };
    assert_eq!(minutes(&query(&sample(), &by_carrier)), vec![30, 50]);
}

#[test]
fn no_match_is_empty() {
    let filter = Filter { carrier: Some("ZZ".to_string()), airport: None, month: None };
    assert!(query(&sample(), &filter).is_empty());
    assert!(query(&DataSet::empty(), &Filter::none()).is_empty());
}

#[test]
fn filter_accepts_matches_fields() {
    let r = record("ATL", "AA", 6, 10);
    assert!(Filter::none().accepts(&r));
    assert!(!Filter { carrier: None, airport: Some("atl".to_string()), month: None }.accepts(&r));
    assert!(!Filter { carrier: None, airport: None, month: Some(7) }.accepts(&r));
}

#[test]
fn flights_projection() {
    let filter = Filter { carrier: None, airport: Some("BOS".to_string()), month: None };
    let result = query_flights(&sample(), &filter);
    assert_eq!(result.len(), 2);
    assert_eq!(result[0].airport.code, "BOS");
    assert_eq!(result[0].carrier.code, "AA");
    assert_eq!(result[0].flights, Flights { cancelled: 20, delayed: 2, diverted: 3, on_time: 4, total: 29 });
    assert_eq!(result[1].time.label, "2003/6");
    assert_eq!(result[1].flights.total, 59);
}

#[test]
fn reason_names() {
    assert_eq!(DelayReasons::from_name(&Some("carrier_specific".to_string())), DelayReasons::CarrierSpecific);
    assert_eq!(DelayReasons::from_name(&Some("weather".to_string())), DelayReasons::All);
    assert_eq!(DelayReasons::from_name(&Some("Carrier_specific".to_string())), DelayReasons::All);
    assert_eq!(DelayReasons::from_name(&None), DelayReasons::All);
}

#[test]
fn minutes_delayed_projection_reports_each_cause() {
    let filter = Filter { carrier: None, airport: None, month: Some(7) };
    let result = query_minutes_delayed(&sample(), &filter, DelayReasons::All);
    assert_eq!(result.len(), 2);
    // Every field carries the minutes of its own cause, not the carrier's.
    assert_eq!(result[0].airport.code, "ATL");
    assert_eq!(result[0].carrier.code, "DL");
    assert_eq!(
        result[0].minutes_delayed,
        MinutesDelayedReasons {
            carrier: Some(30),
            late_aircraft: Some(31),
            national_aviation_system: Some(32),
            security: Some(33),
            total: Some(34),
            weather: Some(35),
        }
    );
}

#[test]
fn carrier_specific_projection_omits_other_causes() {
    let filter = Filter { carrier: Some("AA".to_string()), airport: None, month: None };
    let result = query_minutes_delayed(&sample(), &filter, DelayReasons::CarrierSpecific);
    assert_eq!(result.len(), 3);
    assert_eq!(
        result[2].minutes_delayed,
        MinutesDelayedReasons {
            carrier: Some(40),
            late_aircraft: Some(41),
            national_aviation_system: None,
            security: None,
            total: None,
            weather: None,
        }
    );
    assert_eq!(result[2].time.month, 7);
}
