//! Record queries: a conjunction of optional equality filters, and the
//! projections served from the matching records.

use crate::airlines::{Airport, Carrier, DataSet, Flights, MinutesDelayed, Record, Time};
use vstd::prelude::*;

verus! {

/// Optional equality filters on a record's carrier code, airport code and
/// month. A filter that is `None` lets every record through.
#[derive(Clone, Debug, PartialEq, Eq, Hash)]
pub struct Filter {
    pub carrier: Option<String>,
    pub airport: Option<String>,
    pub month: Option<u32>,
}

/// Whether a record passes every filter that is present.
pub open spec fn matches(f: Filter, r: Record) -> bool {
    &&& (f.carrier is Some ==> r.carrier.code@ == f.carrier->0@)
    &&& (f.airport is Some ==> r.airport.code@ == f.airport->0@)
    &&& (f.month is Some ==> r.time.month == f.month->0)
}

/// The records of `rs` that pass `f`, in their order in `rs`.
pub open spec fn selected(rs: Seq<Record>, f: Filter) -> Seq<Record>
    decreases rs.len(),
{
    if rs.len() == 0 {
        Seq::empty()
    } else if matches(f, rs.last()) {
        selected(rs.drop_last(), f).push(rs.last())
    } else {
        selected(rs.drop_last(), f)
    }
}

/// Whether `a` is `b` with some elements left out, the rest kept in order.
pub open spec fn is_subsequence<A>(a: Seq<A>, b: Seq<A>) -> bool {
    exists|idx: Seq<int>| picks(a, b, idx)
}

/// Whether the strictly increasing positions `idx` pick out `a` from `b`.
pub open spec fn picks<A>(a: Seq<A>, b: Seq<A>, idx: Seq<int>) -> bool {
    &&& idx.len() == a.len()
    &&& forall|k: int| 0 <= k < idx.len() ==> 0 <= #[trigger] idx[k] < b.len()
    &&& forall|k: int| 0 <= k < idx.len() ==> b[#[trigger] idx[k]] == a[k]
    &&& forall|k: int, l: int| 0 <= k < l < idx.len() ==> #[trigger] idx[k] < #[trigger] idx[l]
}

/// Whether a filter has no condition present.
pub open spec fn is_unfiltered(f: Filter) -> bool {
    f.carrier is None && f.airport is None && f.month is None
}

/// A query's result is a subsequence of the records: every record it holds
/// is a record of the data set, and records keep their relative order.
pub proof fn lemma_query_subsequence(rs: Seq<Record>, f: Filter)
    ensures
        is_subsequence(selected(rs, f), rs),
    decreases rs.len(),
{
    if rs.len() == 0 {
        assert(picks(selected(rs, f), rs, Seq::<int>::empty()));
    } else {
        let t = rs.drop_last();
        lemma_query_subsequence(t, f);
        let st = selected(t, f);
        let idx = choose|idx: Seq<int>| picks(st, t, idx);
        if matches(f, rs.last()) {
            let idx2 = idx.push(rs.len() - 1);
            let s = selected(rs, f);
            assert(s == st.push(rs.last()));
            assert forall|k: int| 0 <= k < idx2.len() implies rs[#[trigger] idx2[k]] == s[k] by {
                if k < idx.len() {
                    assert(idx2[k] == idx[k]);
                    assert(t[idx[k]] == rs[idx[k]]);
                }
            }
            assert forall|k: int, l: int| 0 <= k < l < idx2.len() implies #[trigger] idx2[k]
                < #[trigger] idx2[l] by {
                if l < idx.len() {
                    assert(idx2[k] == idx[k] && idx2[l] == idx[l]);
                } else {
                    assert(idx2[k] == idx[k]);
                }
            }
            assert forall|k: int| 0 <= k < idx2.len() implies 0 <= #[trigger] idx2[k] < rs.len() by {
                if k < idx.len() {
                    assert(idx2[k] == idx[k]);
                }
            }
            assert(picks(s, rs, idx2));
        } else {
            assert forall|k: int| 0 <= k < idx.len() implies rs[#[trigger] idx[k]]
                == selected(rs, f)[k] by {
                assert(t[idx[k]] == rs[idx[k]]);
            }
            assert(picks(selected(rs, f), rs, idx));
        }
    }
}

/// A query without filters returns every record, in load order.
pub proof fn lemma_query_unfiltered(rs: Seq<Record>, f: Filter)
    requires
        is_unfiltered(f),
    ensures
        selected(rs, f) == rs,
    decreases rs.len(),
{
    if rs.len() > 0 {
        lemma_query_unfiltered(rs.drop_last(), f);
        assert(rs.drop_last().push(rs.last()) == rs);
    }
}

impl Filter {
    /// The filter that lets every record through.
    pub fn none() -> (r: Filter)
        ensures
            r.carrier is None,
            r.airport is None,
            r.month is None,
    {
        Filter { carrier: None, airport: None, month: None }
    }

    /// Whether `record` passes every filter that is present.
    pub fn accepts(&self, record: &Record) -> (r: bool)
        ensures
            r == matches(*self, *record),
    {
        let carrier_ok = match &self.carrier {
            Some(c) => record.carrier.code == *c,
            None => true,
        };
        let airport_ok = match &self.airport {
            Some(a) => record.airport.code == *a,
            None => true,
        };
        let month_ok = match self.month {
            Some(m) => record.time.month == m,
            None => true,
        };
        carrier_ok && airport_ok && month_ok
    }
}

/// The records of the data set that pass `filter`, in load order.
pub fn query(data_set: &DataSet, filter: &Filter) -> (r: Vec<Record>)
    ensures
        r@ == selected(data_set@, *filter),
{
    let records = data_set.records();
    let mut result: Vec<Record> = Vec::new();
    let mut i: usize = 0;
    while i < records.len()
        invariant
            i <= records@.len(),
            records@ == data_set@,
            result@ == selected(records@.take(i as int), *filter),
        decreases records.len() - i,
    {
        assert(records@.take(i + 1).drop_last() == records@.take(i as int));
        if filter.accepts(&records[i]) {
            result.push(records[i].duplicate());
        }
        i = i + 1;
    }
    assert(records@.take(i as int) == records@);
    result
}

/// The flight counts of one record, with the record's airport, carrier and time.
#[derive(Clone, Debug, PartialEq, Eq, Hash)]
pub struct FlightsStatistics {
    pub airport: Airport,
    pub carrier: Carrier,
    pub flights: Flights,
    pub time: Time,
}

/// The flights projection of a record.
pub open spec fn flights_of(r: Record) -> FlightsStatistics {
    FlightsStatistics {
        airport: r.airport,
        carrier: r.carrier,
        flights: r.statistics.flights,
        time: r.time,
    }
}

/// The flights projections of the records that pass `filter`, in load order.
pub fn query_flights(data_set: &DataSet, filter: &Filter) -> (r: Vec<FlightsStatistics>)
    ensures
        r@ == selected(data_set@, *filter).map_values(|x: Record| flights_of(x)),
{
    let records = query(data_set, filter);
    let mut result: Vec<FlightsStatistics> = Vec::new();
    let mut i: usize = 0;
    while i < records.len()
        invariant
            i <= records@.len(),
            records@ == selected(data_set@, *filter),
            result@ == records@.take(i as int).map_values(|x: Record| flights_of(x)),
        decreases records.len() - i,
    {
        let r = &records[i];
        result.push(
            FlightsStatistics {
                airport: r.airport.duplicate(),
                carrier: r.carrier.duplicate(),
                flights: r.statistics.flights,
                time: r.time.duplicate(),
            },
        );
        assert(records@.take(i + 1) == records@.take(i as int).push(records@[i as int]));
        i = i + 1;
        assert(result@ =~= records@.take(i as int).map_values(|x: Record| flights_of(x)));
    }
    assert(records@.take(i as int) == records@);
    result
}

/// Which causes of delay the minutes-delayed projection reports.
#[derive(Clone, Copy, Debug, PartialEq, Eq, Hash)]
pub enum DelayReasons {
    /// Every cause, and the total.
    All,
    /// Only the causes that lie with the carrier: `carrier` and `late_aircraft`.
    CarrierSpecific,
}

impl DelayReasons {
    /// Reads a reason name: `"carrier_specific"` selects the carrier-specific
    /// causes; no name, or any other name, selects every cause.
    pub fn from_name(reason: &Option<String>) -> (r: DelayReasons)
        ensures
            r == (if reason is Some && reason->0@ == "carrier_specific"@ {
                DelayReasons::CarrierSpecific
            } else {
                DelayReasons::All
            }),
    {
        match reason {
            Some(name) => {
                let carrier_specific = "carrier_specific".to_string();
                proof {
                    reveal_strlit("carrier_specific");
                }
                if *name == carrier_specific {
                    DelayReasons::CarrierSpecific
                } else {
                    DelayReasons::All
                }
            },
            None => DelayReasons::All,
        }
    }
}

/// Minutes of delay by cause, where a cause that is not reported is `None`.
#[derive(Clone, Copy, Debug, PartialEq, Eq, Hash)]
pub struct MinutesDelayedReasons {
    pub carrier: Option<i32>,
    pub late_aircraft: Option<i32>,
    pub national_aviation_system: Option<i32>,
    pub security: Option<i32>,
    pub total: Option<i32>,
    pub weather: Option<i32>,
}

/// The reported causes of `m` under `reasons`. Each reported field carries
/// the minutes of its own cause.
pub open spec fn reasons_of(m: MinutesDelayed, reasons: DelayReasons) -> MinutesDelayedReasons {
    match reasons {
        DelayReasons::All => MinutesDelayedReasons {
            carrier: Some(m.carrier),
            late_aircraft: Some(m.late_aircraft),
            national_aviation_system: Some(m.national_aviation_system),
            security: Some(m.security),
            total: Some(m.total),
            weather: Some(m.weather),
        },
        DelayReasons::CarrierSpecific => MinutesDelayedReasons {
            carrier: Some(m.carrier),
            late_aircraft: Some(m.late_aircraft),
            national_aviation_system: None,
            security: None,
            total: None,
            weather: None,
        },
    }
}

impl MinutesDelayedReasons {
    /// The causes of `m` that `reasons` selects.
    pub fn from(m: MinutesDelayed, reasons: DelayReasons) -> (r: MinutesDelayedReasons)
        ensures
            r == reasons_of(m, reasons),
    {
        match reasons {
            DelayReasons::All => MinutesDelayedReasons {
                carrier: Some(m.carrier),
                late_aircraft: Some(m.late_aircraft),
                national_aviation_system: Some(m.national_aviation_system),
                security: Some(m.security),
                total: Some(m.total),
                weather: Some(m.weather),
            },
            DelayReasons::CarrierSpecific => MinutesDelayedReasons {
                carrier: Some(m.carrier),
                late_aircraft: Some(m.late_aircraft),
                national_aviation_system: None,
                security: None,
                total: None,
                weather: None,
            },
        }
    }
}

/// The reported minutes of delay of one record, with the record's airport,
/// carrier and time.
#[derive(Clone, Debug, PartialEq, Eq, Hash)]
pub struct MinutesDelayedStatistics {
    pub airport: Airport,
    pub carrier: Carrier,
    pub minutes_delayed: MinutesDelayedReasons,
    pub time: Time,
}

/// The minutes-delayed projection of a record.
pub open spec fn minutes_delayed_of(r: Record, reasons: DelayReasons) -> MinutesDelayedStatistics {
    MinutesDelayedStatistics {
        airport: r.airport,
        carrier: r.carrier,
        minutes_delayed: reasons_of(r.statistics.minutes_delayed, reasons),
        time: r.time,
    }
}

/// The minutes-delayed projections of the records that pass `filter`, in
/// load order, reporting the causes that `reasons` selects.
pub fn query_minutes_delayed(data_set: &DataSet, filter: &Filter, reasons: DelayReasons) -> (r: Vec<
    MinutesDelayedStatistics,
>)
    ensures
        r@ == selected(data_set@, *filter).map_values(
            |x: Record| minutes_delayed_of(x, reasons),
        ),
{
    let records = query(data_set, filter);
    let mut result: Vec<MinutesDelayedStatistics> = Vec::new();
    let mut i: usize = 0;
    while i < records.len()
        invariant
            i <= records@.len(),
            records@ == selected(data_set@, *filter),
            result@ == records@.take(i as int).map_values(
                |x: Record| minutes_delayed_of(x, reasons),
            ),
        decreases records.len() - i,
    {
        let r = &records[i];
        result.push(
            MinutesDelayedStatistics {
                airport: r.airport.duplicate(),
                carrier: r.carrier.duplicate(),
                minutes_delayed: MinutesDelayedReasons::from(r.statistics.minutes_delayed, reasons),
                time: r.time.duplicate(),
            },
        );
        assert(records@.take(i + 1) == records@.take(i as int).push(records@[i as int]));
        i = i + 1;
        assert(result@ =~= records@.take(i as int).map_values(
            |x: Record| minutes_delayed_of(x, reasons),
        ));
    }
    assert(records@.take(i as int) == records@);
    result
}

} // verus!
