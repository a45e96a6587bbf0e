//! Row shapes for a relational copy of the data set: airports and carriers
//! to insert, and a partial update of a statistics row.

use crate::airlines::{Airport, Carrier};
use vstd::prelude::*;

verus! {

/// An airport row to insert; the store assigns its id.
pub struct NewAirport<'a> {
    pub code: &'a str,
    pub name: &'a str,
}

/// A carrier row to insert; the store assigns its id.
pub struct NewCarrier<'a> {
    pub code: &'a str,
    pub name: &'a str,
}

/// A partial update of a statistics row: each `Some` field replaces the
/// stored value, each `None` field keeps it.
pub struct UpdateStatistics<'a> {
    pub flights_cancelled: Option<&'a i64>,
    pub flights_delayed: Option<&'a i64>,
    pub flights_diverted: Option<&'a i64>,
    pub flights_on_time: Option<&'a i64>,
    pub minutes_delayed_carrier: Option<&'a i64>,
    pub minutes_delayed_late_aircraft: Option<&'a i64>,
    pub minutes_delayed_national_aviation_system: Option<&'a i64>,
    pub minutes_delayed_security: Option<&'a i64>,
    pub minutes_delayed_weather: Option<&'a i64>,
    pub number_of_delays_carrier: Option<&'a i64>,
    pub number_of_delays_late_aircraft: Option<&'a i64>,
    pub number_of_delays_national_aviation_system: Option<&'a i64>,
    pub number_of_delays_security: Option<&'a i64>,
    pub number_of_delays_weather: Option<&'a i64>,
}

impl<'a> NewAirport<'a> {
    /// The row for `airport`.
    pub fn new(airport: &'a Airport) -> (r: NewAirport<'a>)
        ensures
            r.code@ == airport.code@,
            r.name@ == airport.name@,
    {
        NewAirport { code: airport.code.as_str(), name: airport.name.as_str() }
    }
}

impl<'a> NewCarrier<'a> {
    /// The row for `carrier`.
    pub fn new(carrier: &'a Carrier) -> (r: NewCarrier<'a>)
        ensures
            r.code@ == carrier.code@,
            r.name@ == carrier.name@,
    {
        NewCarrier { code: carrier.code.as_str(), name: carrier.name.as_str() }
    }
}

} // verus!
