//! Per-carrier delay statistics between two airports.

use crate::airlines::{
    carrier_keys, first_airport, has_airport, lemma_first_airport, Airport, Carrier, DataSet,
    MinutesDelayed, Record,
};
use crate::dedup::{first_seen, lemma_first_seen};
use vstd::prelude::*;

verus! {

/// How the delays of a carrier at the two airports are combined. Every
/// division truncates toward zero.
#[derive(Clone, Copy, Debug, PartialEq, Eq, Hash)]
pub enum Aggregation {
    /// `mean` is the sum of the two airports' means. `mode` is the named
    /// cause of the largest delay record of either airport, records being
    /// ordered lexicographically by their fields (`carrier`, `late_aircraft`,
    /// `national_aviation_system`, `security`, `total`, `weather`), so the
    /// two causes may come from different records.
    AirportMeans,
    /// `mean` is the mean over the records of both airports together. `mode`
    /// is the largest value of the named cause over those records.
    Pooled,
}

/// The mean and the largest value of a delay cause, combined as an
/// `Aggregation` says.
#[derive(Clone, Copy, Debug, PartialEq, Eq, Hash)]
pub struct DescriptiveStatistics {
    pub mean: i64,
    pub mode: i32,
}

/// The delay statistics of one carrier that serves both airports.
#[derive(Clone, Debug, PartialEq, Eq, Hash)]
pub struct ConnectionStatistics {
    pub airport1: Airport,
    pub airport2: Airport,
    pub carrier_delays: DescriptiveStatistics,
    pub late_aircraft_delays: DescriptiveStatistics,
    pub carrier: Carrier,
}

/// Why connection statistics could not be computed.
#[derive(Clone, Debug, PartialEq, Eq, Hash)]
pub enum ConnectionError {
    /// No record has an airport with this code.
    NotFound(String),
}

/// The minutes delayed of the records at airport `code` with carrier `c`, in order.
pub open spec fn delays_at(rs: Seq<Record>, code: Seq<char>, c: (Seq<char>, Seq<char>)) -> Seq<
    MinutesDelayed,
>
    decreases rs.len(),
{
    if rs.len() == 0 {
        Seq::empty()
    } else if rs.last().airport.code@ == code && rs.last().carrier.key() == c {
        delays_at(rs.drop_last(), code, c).push(rs.last().statistics.minutes_delayed)
    } else {
        delays_at(rs.drop_last(), code, c)
    }
}

/// The total `carrier` minutes of a sequence.
pub open spec fn sum_carrier(ds: Seq<MinutesDelayed>) -> int
    decreases ds.len(),
{
    if ds.len() == 0 {
        0
    } else {
        sum_carrier(ds.drop_last()) + ds.last().carrier
    }
}

/// The total `late_aircraft` minutes of a sequence.
pub open spec fn sum_late_aircraft(ds: Seq<MinutesDelayed>) -> int
    decreases ds.len(),
{
    if ds.len() == 0 {
        0
    } else {
        sum_late_aircraft(ds.drop_last()) + ds.last().late_aircraft
    }
}

/// Integer division rounding toward zero, as Rust's `/` does.
pub open spec fn trunc_div(a: int, n: int) -> int {
    if a >= 0 {
        a / n
    } else {
        -((-a) / n)
    }
}

/// The lexicographic order on the fields of `MinutesDelayed`, in declaration order.
pub open spec fn delay_le(a: MinutesDelayed, b: MinutesDelayed) -> bool {
    if a.carrier != b.carrier {
        a.carrier < b.carrier
    } else if a.late_aircraft != b.late_aircraft {
        a.late_aircraft < b.late_aircraft
    } else if a.national_aviation_system != b.national_aviation_system {
        a.national_aviation_system < b.national_aviation_system
    } else if a.security != b.security {
        a.security < b.security
    } else if a.total != b.total {
        a.total < b.total
    } else {
        a.weather <= b.weather
    }
}

/// The larger of two delay records.
pub open spec fn larger(a: MinutesDelayed, b: MinutesDelayed) -> MinutesDelayed {
    if delay_le(a, b) {
        b
    } else {
        a
    }
}

/// The largest delay record of a non-empty sequence.
pub open spec fn max_delay(ds: Seq<MinutesDelayed>) -> MinutesDelayed
    decreases ds.len(),
{
    if ds.len() <= 1 {
        ds[0]
    } else {
        larger(max_delay(ds.drop_last()), ds.last())
    }
}

/// The largest `carrier` minutes of a non-empty sequence.
pub open spec fn max_carrier(ds: Seq<MinutesDelayed>) -> int
    decreases ds.len(),
{
    if ds.len() <= 1 {
        ds[0].carrier as int
    } else {
        let m = max_carrier(ds.drop_last());
        if m < ds.last().carrier {
            ds.last().carrier as int
        } else {
            m
        }
    }
}

/// The largest `late_aircraft` minutes of a non-empty sequence.
pub open spec fn max_late_aircraft(ds: Seq<MinutesDelayed>) -> int
    decreases ds.len(),
{
    if ds.len() <= 1 {
        ds[0].late_aircraft as int
    } else {
        let m = max_late_aircraft(ds.drop_last());
        if m < ds.last().late_aircraft {
            ds.last().late_aircraft as int
        } else {
            m
        }
    }
}

/// The larger of two integers.
pub open spec fn int_max(a: int, b: int) -> int {
    if a < b {
        b
    } else {
        a
    }
}

/// Whether a carrier passes the optional carrier-code filter.
pub open spec fn carrier_allowed(filter: Option<String>, c: (Seq<char>, Seq<char>)) -> bool {
    filter is Some ==> c.0 == filter->0@
}

/// The carriers of `cs` that pass the filter and have records at both airports.
pub open spec fn shared_carriers(
    rs: Seq<Record>,
    a1: Seq<char>,
    a2: Seq<char>,
    filter: Option<String>,
    cs: Seq<(Seq<char>, Seq<char>)>,
) -> Seq<(Seq<char>, Seq<char>)>
    decreases cs.len(),
{
    if cs.len() == 0 {
        Seq::empty()
    } else {
        let c = cs.last();
        let rest = shared_carriers(rs, a1, a2, filter, cs.drop_last());
        if carrier_allowed(filter, c) && delays_at(rs, a1, c).len() > 0 && delays_at(rs, a2, c).len()
            > 0 {
            rest.push(c)
        } else {
            rest
        }
    }
}

/// The carriers kept by `shared_carriers` come from `cs`, and each carrier
/// appears at most once when it does in `cs`.
proof fn lemma_shared_carriers(
    rs: Seq<Record>,
    a1: Seq<char>,
    a2: Seq<char>,
    filter: Option<String>,
    cs: Seq<(Seq<char>, Seq<char>)>,
)
    requires
        cs.no_duplicates(),
    ensures
        shared_carriers(rs, a1, a2, filter, cs).no_duplicates(),
        forall|x: (Seq<char>, Seq<char>)|
            #[trigger] shared_carriers(rs, a1, a2, filter, cs).contains(x) ==> cs.contains(x),
    decreases cs.len(),
{
    if cs.len() > 0 {
        let t = cs.drop_last();
        assert forall|i: int, j: int| 0 <= i < j < t.len() implies t[i] != t[j] by {
            assert(t[i] == cs[i] && t[j] == cs[j]);
        }
        lemma_shared_carriers(rs, a1, a2, filter, t);
        let rest = shared_carriers(rs, a1, a2, filter, t);
        assert forall|x: (Seq<char>, Seq<char>)| t.contains(x) implies cs.contains(x) by {
            let i = choose|i: int| 0 <= i < t.len() && t[i] == x;
            assert(cs[i] == x);
        }
        assert(cs.contains(cs.last())) by {
            assert(cs[cs.len() - 1] == cs.last());
        }
        if t.contains(cs.last()) {
            // impossible: `cs` would hold its last element twice
            let i = choose|i: int| 0 <= i < t.len() && t[i] == cs.last();
            assert(cs[i] == cs[cs.len() - 1]);
        }
        let all = shared_carriers(rs, a1, a2, filter, cs);
        if all != rest {
            assert(all == rest.push(cs.last()));
            assert(!rest.contains(cs.last()));
            assert forall|x: (Seq<char>, Seq<char>)| #[trigger] all.contains(x) implies cs.contains(x) by {
                let i = choose|i: int| 0 <= i < all.len() && all[i] == x;
                if i < rest.len() {
                    assert(rest[i] == x);
                    assert(rest.contains(x));
                    assert(t.contains(x));
                }
            }
            assert forall|i: int, j: int| 0 <= i < j < all.len() implies all[i] != all[j] by {
                if j < rest.len() {
                    assert(all[i] == rest[i] && all[j] == rest[j]);
                } else {
                    assert(all[i] == rest[i]);
                    assert(rest.contains(rest[i]));
                }
            }
        }
    }
}

/// Connection statistics name each carrier at most once, and every carrier
/// they name is a carrier of the data set.
pub proof fn lemma_connection_carriers_distinct(
    rs: Seq<Record>,
    a1: Seq<char>,
    a2: Seq<char>,
    filter: Option<String>,
)
    ensures
        shared_carriers(rs, a1, a2, filter, first_seen(carrier_keys(rs))).no_duplicates(),
        forall|x: (Seq<char>, Seq<char>)|
            #[trigger] shared_carriers(rs, a1, a2, filter, first_seen(carrier_keys(rs))).contains(x)
                ==> carrier_keys(rs).contains(x),
{
    lemma_first_seen(carrier_keys(rs));
    lemma_shared_carriers(rs, a1, a2, filter, first_seen(carrier_keys(rs)));
}

/// Whether `e` holds the statistics of carrier `c` between airports `a1`
/// and `a2`, combined as `agg` says.
pub open spec fn describes(
    e: ConnectionStatistics,
    rs: Seq<Record>,
    a1: Seq<char>,
    a2: Seq<char>,
    c: (Seq<char>, Seq<char>),
    agg: Aggregation,
) -> bool {
    let d1 = delays_at(rs, a1, c);
    let d2 = delays_at(rs, a2, c);
    let n = (d1.len() + d2.len()) as int;
    let m = larger(max_delay(d1), max_delay(d2));
    &&& e.carrier.key() == c
    &&& first_airport(rs, a1) == Some(e.airport1)
    &&& first_airport(rs, a2) == Some(e.airport2)
    &&& match agg {
        Aggregation::AirportMeans => {
            &&& e.carrier_delays.mean == trunc_div(sum_carrier(d1), d1.len() as int) + trunc_div(
                sum_carrier(d2),
                d2.len() as int,
            )
            &&& e.carrier_delays.mode == m.carrier
            &&& e.late_aircraft_delays.mean == trunc_div(sum_late_aircraft(d1), d1.len() as int)
                + trunc_div(sum_late_aircraft(d2), d2.len() as int)
            &&& e.late_aircraft_delays.mode == m.late_aircraft
        },
        Aggregation::Pooled => {
            &&& e.carrier_delays.mean == trunc_div(sum_carrier(d1) + sum_carrier(d2), n)
            &&& e.carrier_delays.mode == int_max(max_carrier(d1), max_carrier(d2))
            &&& e.late_aircraft_delays.mean == trunc_div(
                sum_late_aircraft(d1) + sum_late_aircraft(d2),
                n,
            )
            &&& e.late_aircraft_delays.mode == int_max(
                max_late_aircraft(d1),
                max_late_aircraft(d2),
            )
        },
    }
}

/// Whether `a` comes before or equals `b` in the lexicographic order.
fn delay_at_most(a: &MinutesDelayed, b: &MinutesDelayed) -> (r: bool)
    ensures
        r == delay_le(*a, *b),
{
    if a.carrier != b.carrier {
        a.carrier < b.carrier
    } else if a.late_aircraft != b.late_aircraft {
        a.late_aircraft < b.late_aircraft
    } else if a.national_aviation_system != b.national_aviation_system {
        a.national_aviation_system < b.national_aviation_system
    } else if a.security != b.security {
        a.security < b.security
    } else if a.total != b.total {
        a.total < b.total
    } else {
        a.weather <= b.weather
    }
}

/// The count, sums and largest record of the delays of one carrier at one airport.
struct DelaySummary {
    count: usize,
    sum_carrier: i128,
    sum_late_aircraft: i128,
    max: MinutesDelayed,
    max_carrier: i32,
    max_late_aircraft: i32,
}

impl DelaySummary {
    /// Each sum lies within what `count` values of `i32` can add up to.
    spec fn bounded(&self) -> bool {
        &&& -(self.count as int) * 0x8000_0000 <= self.sum_carrier <= (self.count as int) * 0x7fff_ffff
        &&& -(self.count as int) * 0x8000_0000 <= self.sum_late_aircraft <= (self.count as int) * 0x7fff_ffff
    }
}

/// Summarizes the delays of `carrier` at the airport with code `code`.
fn summarize(records: &[Record], code: &String, carrier: &Carrier) -> (r: DelaySummary)
    ensures
        r.count == delays_at(records@, code@, carrier.key()).len(),
        r.sum_carrier == sum_carrier(delays_at(records@, code@, carrier.key())),
        r.sum_late_aircraft == sum_late_aircraft(delays_at(records@, code@, carrier.key())),
        r.count > 0 ==> r.max == max_delay(delays_at(records@, code@, carrier.key())),
        r.count > 0 ==> r.max_carrier == max_carrier(delays_at(records@, code@, carrier.key())),
        r.count > 0 ==> r.max_late_aircraft == max_late_aircraft(
            delays_at(records@, code@, carrier.key()),
        ),
        r.bounded(),
{
    let ghost c = carrier.key();
    let mut s = DelaySummary {
        count: 0,
        sum_carrier: 0,
        sum_late_aircraft: 0,
        max: MinutesDelayed {
            carrier: 0,
            late_aircraft: 0,
            national_aviation_system: 0,
            security: 0,
            total: 0,
            weather: 0,
        },
        max_carrier: 0,
        max_late_aircraft: 0,
    };
    let mut i: usize = 0;
    while i < records.len()
        invariant
            i <= records@.len(),
            s.count <= i,
            s.count == delays_at(records@.take(i as int), code@, c).len(),
            s.sum_carrier == sum_carrier(delays_at(records@.take(i as int), code@, c)),
            s.sum_late_aircraft == sum_late_aircraft(delays_at(records@.take(i as int), code@, c)),
            s.count > 0 ==> s.max == max_delay(delays_at(records@.take(i as int), code@, c)),
            s.count > 0 ==> s.max_carrier == max_carrier(
                delays_at(records@.take(i as int), code@, c),
            ),
            s.count > 0 ==> s.max_late_aircraft == max_late_aircraft(
                delays_at(records@.take(i as int), code@, c),
            ),
            s.bounded(),
            c == carrier.key(),
        decreases records.len() - i,
    {
        let ghost before = delays_at(records@.take(i as int), code@, c);
        assert(records@.take(i + 1).drop_last() == records@.take(i as int));
        let r = &records[i];
        if r.airport.code == *code && r.carrier.code == carrier.code && r.carrier.name
            == carrier.name {
            let m = r.statistics.minutes_delayed;
            let ghost after = before.push(m);
            assert(after.drop_last() == before);
            if s.count == 0 || delay_at_most(&s.max, &m) {
                s.max = m;
            }
            if s.count == 0 || s.max_carrier < m.carrier {
                s.max_carrier = m.carrier;
            }
            if s.count == 0 || s.max_late_aircraft < m.late_aircraft {
                s.max_late_aircraft = m.late_aircraft;
            }
            s.count = s.count + 1;
            s.sum_carrier = s.sum_carrier + m.carrier as i128;
            s.sum_late_aircraft = s.sum_late_aircraft + m.late_aircraft as i128;
        }
        i = i + 1;
    }
    assert(records@.take(i as int) == records@);
    s
}

/// `trunc_div(sum, count)`, for a sum of `count` values of `i32`.
fn mean_part(sum: i128, count: i128) -> (r: i64)
    requires
        0 < count <= 2 * usize::MAX,
        -(count as int) * 0x8000_0000 <= sum <= (count as int) * 0x7fff_ffff,
    ensures
        r == trunc_div(sum as int, count as int),
        -0x8000_0000 <= r < 0x8000_0000,
{
    let n = count;
    if sum >= 0 {
        proof {
            lemma_quotient_bound(sum as int, count as int, 0x7fff_ffff);
        }
        (sum / n) as i64
    } else {
        proof {
            lemma_quotient_bound(-sum, count as int, 0x8000_0000);
        }
        let q = (-sum) / n;
        -(q as i64)
    }
}

/// A quotient of a value bounded by `n * k` is bounded by `k`.
proof fn lemma_quotient_bound(a: int, n: int, k: int)
    requires
        0 <= a <= n * k,
        n > 0,
        k >= 0,
    ensures
        0 <= a / n <= k,
{
    assert(0 <= a / n <= k) by (nonlinear_arith)
        requires
            0 <= a <= n * k,
            n > 0,
            k >= 0,
    ;
}

/// The carrier and late-aircraft statistics of two non-empty summaries.
fn combine(s1: &DelaySummary, s2: &DelaySummary, aggregation: Aggregation) -> (r: (
    DescriptiveStatistics,
    DescriptiveStatistics,
))
    requires
        s1.count > 0,
        s2.count > 0,
        s1.bounded(),
        s2.bounded(),
    ensures
        aggregation == Aggregation::AirportMeans ==> {
            let m = larger(s1.max, s2.max);
            &&& r.0.mean == trunc_div(s1.sum_carrier as int, s1.count as int) + trunc_div(
                s2.sum_carrier as int,
                s2.count as int,
            )
            &&& r.0.mode == m.carrier
            &&& r.1.mean == trunc_div(s1.sum_late_aircraft as int, s1.count as int) + trunc_div(
                s2.sum_late_aircraft as int,
                s2.count as int,
            )
            &&& r.1.mode == m.late_aircraft
        },
        aggregation == Aggregation::Pooled ==> {
            let n = s1.count + s2.count;
            &&& r.0.mean == trunc_div(s1.sum_carrier + s2.sum_carrier, n)
            &&& r.0.mode == int_max(s1.max_carrier as int, s2.max_carrier as int)
            &&& r.1.mean == trunc_div(s1.sum_late_aircraft + s2.sum_late_aircraft, n)
            &&& r.1.mode == int_max(s1.max_late_aircraft as int, s2.max_late_aircraft as int)
        },
{
    let n1 = s1.count as i128;
    let n2 = s2.count as i128;
    match aggregation {
        Aggregation::AirportMeans => {
            let m = if delay_at_most(&s1.max, &s2.max) {
                s2.max
            } else {
                s1.max
            };
            (
                DescriptiveStatistics {
                    mean: mean_part(s1.sum_carrier, n1) + mean_part(s2.sum_carrier, n2),
                    mode: m.carrier,
                },
                DescriptiveStatistics {
                    mean: mean_part(s1.sum_late_aircraft, n1) + mean_part(s2.sum_late_aircraft, n2),
                    mode: m.late_aircraft,
                },
            )
        },
        Aggregation::Pooled => {
            let n = n1 + n2;
            (
                DescriptiveStatistics {
                    mean: mean_part(s1.sum_carrier + s2.sum_carrier, n),
                    mode: if s1.max_carrier < s2.max_carrier {
                        s2.max_carrier
                    } else {
                        s1.max_carrier
                    },
                },
                DescriptiveStatistics {
                    mean: mean_part(s1.sum_late_aircraft + s2.sum_late_aircraft, n),
                    mode: if s1.max_late_aircraft < s2.max_late_aircraft {
                        s2.max_late_aircraft
                    } else {
                        s1.max_late_aircraft
                    },
                },
            )
        },
    }
}

/// Per-carrier delay statistics between the airports with codes `airport1`
/// and `airport2`, one entry for each carrier, in order of first appearance,
/// that has records at both airports and passes the optional carrier-code
/// filter `carrier`. The two airports' delays are combined as `aggregation`
/// says.
///
/// Fails with `NotFound` naming `airport1` when no record has that airport,
/// else with `NotFound` naming `airport2` when no record has that one.
pub fn connection_statistics(
    data_set: &DataSet,
    airport1: &String,
    airport2: &String,
    carrier: &Option<String>,
    aggregation: Aggregation,
) -> (r: Result<Vec<ConnectionStatistics>, ConnectionError>)
    ensures
        !has_airport(data_set@, airport1@) ==> (r matches Err(ConnectionError::NotFound(code))
            && code@ == airport1@),
        has_airport(data_set@, airport1@) && !has_airport(data_set@, airport2@) ==> (r matches Err(
            ConnectionError::NotFound(code),
        ) && code@ == airport2@),
        has_airport(data_set@, airport1@) && has_airport(data_set@, airport2@) ==> (r matches Ok(v)
            && v@.len() == shared_carriers(
            data_set@,
            airport1@,
            airport2@,
            *carrier,
            first_seen(carrier_keys(data_set@)),
        ).len() && forall|k: int|
            0 <= k < v@.len() ==> describes(
                #[trigger] v@[k],
                data_set@,
                airport1@,
                airport2@,
                shared_carriers(
                    data_set@,
                    airport1@,
                    airport2@,
                    *carrier,
                    first_seen(carrier_keys(data_set@)),
                )[k],
                aggregation,
            )),
{
    let records = data_set.records();
    proof {
        lemma_first_airport(data_set@, airport1@);
        lemma_first_airport(data_set@, airport2@);
    }
    let first = match data_set.airport(airport1) {
        Some(a) => a,
        None => {
            return Err(ConnectionError::NotFound(airport1.clone()));
        },
    };
    let second = match data_set.airport(airport2) {
        Some(a) => a,
        None => {
            return Err(ConnectionError::NotFound(airport2.clone()));
        },
    };
    let ghost rs = data_set@;
    let ghost all = first_seen(carrier_keys(rs));
    let mut carriers = data_set.carriers();
    let mut result: Vec<ConnectionStatistics> = Vec::new();
    let ghost mut j: int = 0;
    while carriers.len() > 0
        invariant
            carriers.wf(),
            0 <= j <= all.len(),
            carriers@ == all.skip(j),
            rs == records@,
            first_airport(rs, airport1@) == Some(first),
            first_airport(rs, airport2@) == Some(second),
            result@.len() == shared_carriers(rs, airport1@, airport2@, *carrier, all.take(j)).len(),
            forall|k: int|
                0 <= k < result@.len() ==> describes(
                    #[trigger] result@[k],
                    rs,
                    airport1@,
                    airport2@,
                    shared_carriers(rs, airport1@, airport2@, *carrier, all.take(j))[k],
                    aggregation,
                ),
        decreases carriers@.len(),
    {
        let c = carriers.next().unwrap();
        assert(all.take(j + 1).drop_last() == all.take(j));
        assert(all.take(j + 1).last() == all[j]);
        assert(all[j] == c.key());
        proof {
            j = j + 1;
        }
        let allowed = match carrier {
            Some(code) => c.code == *code,
            None => true,
        };
        if allowed {
            let s1 = summarize(records, airport1, &c);
            let s2 = summarize(records, airport2, &c);
            if s1.count > 0 && s2.count > 0 {
                let stats = combine(&s1, &s2, aggregation);
                result.push(
                    ConnectionStatistics {
                        airport1: first.duplicate(),
                        airport2: second.duplicate(),
                        carrier_delays: stats.0,
                        late_aircraft_delays: stats.1,
                        carrier: c,
                    },
                );
            }
        }
    }
    proof {
        assert(all.skip(j).len() == 0);
        assert(all.take(j) == all);
    }
    Ok(result)
}

} // verus!
