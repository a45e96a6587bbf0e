//! The records of the airline data set and the store that holds them.

use crate::dedup::{first_index, first_seen, lemma_first_seen, lemma_first_seen_len};
use crate::pair_set::{
    pair_set_get, pair_set_insert, pair_set_items, pair_set_len, pair_set_new, pair_view,
};
use indexmap::IndexSet;
use vstd::prelude::*;

verus! {

/// An airport: a three-letter code and a descriptive name.
#[derive(Clone, Debug, PartialEq, Eq, Hash)]
pub struct Airport {
    pub code: String,
    pub name: String,
}

/// An airline carrier. Codes are not unique: two carriers may share one.
#[derive(Clone, Debug, PartialEq, Eq, Hash)]
pub struct Carrier {
    pub code: String,
    pub name: String,
}

/// The month of a record: a label such as `2003/6`, the month and the year.
#[derive(Clone, Debug, PartialEq, Eq, Hash)]
pub struct Time {
    pub label: String,
    pub month: u32,
    pub year: u32,
}

/// Counts of flights that were cancelled, delayed, diverted or on time.
#[derive(Clone, Copy, Debug, PartialEq, Eq, Hash)]
pub struct Flights {
    pub cancelled: i32,
    pub delayed: i32,
    pub diverted: i32,
    pub on_time: i32,
    pub total: i32,
}

/// Minutes of delay, by cause.
///
/// The derived order is lexicographic over the fields in declaration order.
#[derive(Clone, Copy, Debug, PartialEq, Eq, Hash, PartialOrd, Ord)]
pub struct MinutesDelayed {
    pub carrier: i32,
    pub late_aircraft: i32,
    pub national_aviation_system: i32,
    pub security: i32,
    pub total: i32,
    pub weather: i32,
}

/// Numbers of delays, by cause.
#[derive(Clone, Copy, Debug, PartialEq, Eq, Hash)]
pub struct NumberOfDelays {
    pub carrier: i32,
    pub late_aircraft: i32,
    pub national_aviation_system: i32,
    pub security: i32,
    pub weather: i32,
}

/// The statistics of one carrier at one airport in one month.
#[derive(Clone, Copy, Debug, PartialEq, Eq, Hash)]
pub struct Statistics {
    pub flights: Flights,
    pub minutes_delayed: MinutesDelayed,
    pub number_of_delays: NumberOfDelays,
}

/// One entry of the data set.
#[derive(Clone, Debug, PartialEq, Eq, Hash)]
pub struct Record {
    pub airport: Airport,
    pub carrier: Carrier,
    pub statistics: Statistics,
    pub time: Time,
}

impl Airport {
    /// The identity of an airport: its code and name together.
    pub open spec fn key(&self) -> (Seq<char>, Seq<char>) {
        (self.code@, self.name@)
    }

    /// An airport with the given code and name.
    pub fn new(code: String, name: String) -> (r: Airport)
        ensures
            r.code == code,
            r.name == name,
    {
        Airport { code, name }
    }

    /// A field-by-field copy.
    pub fn duplicate(&self) -> (r: Airport)
        ensures
            r == *self,
    {
        Airport { code: self.code.clone(), name: self.name.clone() }
    }
}

impl Flights {
    /// Whether the cancelled, delayed, diverted and on-time counts add up to
    /// the total. The data set leads one to expect this but does not promise it.
    pub fn totals_agree(&self) -> (r: bool)
        ensures
            r == (self.cancelled + self.delayed + self.diverted + self.on_time == self.total),
    {
        self.cancelled as i64 + self.delayed as i64 + self.diverted as i64 + self.on_time as i64
            == self.total as i64
    }
}

impl MinutesDelayed {
    /// Whether the minutes of the five causes add up to the total. The data
    /// set leads one to expect this but does not promise it.
    pub fn totals_agree(&self) -> (r: bool)
        ensures
            r == (self.carrier + self.late_aircraft + self.national_aviation_system + self.security
                + self.weather == self.total),
    {
        self.carrier as i64 + self.late_aircraft as i64 + self.national_aviation_system as i64
            + self.security as i64 + self.weather as i64 == self.total as i64
    }
}

impl Carrier {
    /// The identity of a carrier: its code and name together.
    pub open spec fn key(&self) -> (Seq<char>, Seq<char>) {
        (self.code@, self.name@)
    }

    /// A carrier with the given code and name.
    pub fn new(code: String, name: String) -> (r: Carrier)
        ensures
            r.code == code,
            r.name == name,
    {
        Carrier { code, name }
    }

    /// A field-by-field copy.
    pub fn duplicate(&self) -> (r: Carrier)
        ensures
            r == *self,
    {
        Carrier { code: self.code.clone(), name: self.name.clone() }
    }
}

impl Time {
    /// A field-by-field copy.
    pub fn duplicate(&self) -> (r: Time)
        ensures
            r == *self,
    {
        Time { label: self.label.clone(), month: self.month, year: self.year }
    }
}

impl Record {
    /// A field-by-field copy.
    pub fn duplicate(&self) -> (r: Record)
        ensures
            r == *self,
    {
        Record {
            airport: self.airport.duplicate(),
            carrier: self.carrier.duplicate(),
            statistics: self.statistics,
            time: self.time.duplicate(),
        }
    }
}

/// The airport keys of a sequence of records, in order.
pub open spec fn airport_keys(rs: Seq<Record>) -> Seq<(Seq<char>, Seq<char>)> {
    rs.map_values(|r: Record| r.airport.key())
}

/// The carrier keys of a sequence of records, in order.
pub open spec fn carrier_keys(rs: Seq<Record>) -> Seq<(Seq<char>, Seq<char>)> {
    rs.map_values(|r: Record| r.carrier.key())
}

/// The airports of a data set hold each distinct (code, name) pair of its
/// records exactly once, as many entries as there are distinct pairs, ordered
/// by the position of the first record that has each pair.
pub proof fn lemma_airports_distinct(rs: Seq<Record>)
    ensures
        first_seen(airport_keys(rs)).no_duplicates(),
        first_seen(airport_keys(rs)).len() == airport_keys(rs).to_set().len(),
        forall|i: int|
            0 <= i < rs.len() ==> first_seen(airport_keys(rs)).contains(#[trigger] rs[i].airport.key()),
        forall|k: int|
            0 <= k < first_seen(airport_keys(rs)).len() ==> airport_keys(rs).contains(
                #[trigger] first_seen(airport_keys(rs))[k],
            ),
        forall|k: int, l: int|
            0 <= k < l < first_seen(airport_keys(rs)).len() ==> first_index(
                airport_keys(rs),
                #[trigger] first_seen(airport_keys(rs))[k],
            ) < first_index(airport_keys(rs), #[trigger] first_seen(airport_keys(rs))[l]),
{
    let keys = airport_keys(rs);
    lemma_first_seen(keys);
    lemma_first_seen_len(keys);
    assert forall|i: int| 0 <= i < rs.len() implies first_seen(keys).contains(
        #[trigger] rs[i].airport.key(),
    ) by {
        assert(keys[i] == rs[i].airport.key());
        assert(keys.contains(keys[i]));
    }
    assert forall|k: int| 0 <= k < first_seen(keys).len() implies keys.contains(
        #[trigger] first_seen(keys)[k],
    ) by {
        assert(first_seen(keys).contains(first_seen(keys)[k]));
    }
}

/// The carriers of a data set hold each distinct (code, name) pair of its
/// records exactly once, as many entries as there are distinct pairs, ordered
/// by the position of the first record that has each pair. Carriers that
/// share a code but not a name are kept apart.
pub proof fn lemma_carriers_distinct(rs: Seq<Record>)
    ensures
        first_seen(carrier_keys(rs)).no_duplicates(),
        first_seen(carrier_keys(rs)).len() == carrier_keys(rs).to_set().len(),
        forall|i: int|
            0 <= i < rs.len() ==> first_seen(carrier_keys(rs)).contains(#[trigger] rs[i].carrier.key()),
        forall|k: int|
            0 <= k < first_seen(carrier_keys(rs)).len() ==> carrier_keys(rs).contains(
                #[trigger] first_seen(carrier_keys(rs))[k],
            ),
        forall|k: int, l: int|
            0 <= k < l < first_seen(carrier_keys(rs)).len() ==> first_index(
                carrier_keys(rs),
                #[trigger] first_seen(carrier_keys(rs))[k],
            ) < first_index(carrier_keys(rs), #[trigger] first_seen(carrier_keys(rs))[l]),
        forall|i: int, j: int|
            0 <= i < rs.len() && 0 <= j < rs.len() && #[trigger] rs[i].carrier.code@
                == #[trigger] rs[j].carrier.code@ && rs[i].carrier.name@ != rs[j].carrier.name@
                ==> exists|k: int, l: int|
                0 <= k < first_seen(carrier_keys(rs)).len() && 0 <= l < first_seen(
                    carrier_keys(rs),
                ).len() && k != l && #[trigger] first_seen(carrier_keys(rs))[k]
                    == rs[i].carrier.key() && #[trigger] first_seen(carrier_keys(rs))[l]
                    == rs[j].carrier.key(),
{
    let keys = carrier_keys(rs);
    lemma_first_seen(keys);
    lemma_first_seen_len(keys);
    assert forall|i: int| 0 <= i < rs.len() implies first_seen(keys).contains(
        #[trigger] rs[i].carrier.key(),
    ) by {
        assert(keys[i] == rs[i].carrier.key());
        assert(keys.contains(keys[i]));
    }
    assert forall|k: int| 0 <= k < first_seen(keys).len() implies keys.contains(
        #[trigger] first_seen(keys)[k],
    ) by {
        assert(first_seen(keys).contains(first_seen(keys)[k]));
    }
    assert forall|i: int, j: int|
        0 <= i < rs.len() && 0 <= j < rs.len() && #[trigger] rs[i].carrier.code@
            == #[trigger] rs[j].carrier.code@ && rs[i].carrier.name@ != rs[j].carrier.name@
            implies exists|k: int, l: int|
        0 <= k < first_seen(keys).len() && 0 <= l < first_seen(keys).len() && k != l
            && #[trigger] first_seen(keys)[k] == rs[i].carrier.key() && #[trigger] first_seen(
            keys,
        )[l] == rs[j].carrier.key() by {
        assert(keys[i] == rs[i].carrier.key());
        assert(keys[j] == rs[j].carrier.key());
        let k = choose|k: int| 0 <= k < first_seen(keys).len() && first_seen(keys)[k] == keys[i];
        let l = choose|l: int| 0 <= l < first_seen(keys).len() && first_seen(keys)[l] == keys[j];
        assert(k != l);
    }
}

/// Whether some record has an airport with code `code`.
pub open spec fn has_airport(rs: Seq<Record>, code: Seq<char>) -> bool {
    exists|i: int| 0 <= i < rs.len() && (#[trigger] rs[i]).airport.code@ == code
}

/// The airport of the first record whose airport has code `code`.
pub open spec fn first_airport(rs: Seq<Record>, code: Seq<char>) -> Option<Airport>
    decreases rs.len(),
{
    if rs.len() == 0 {
        None
    } else {
        match first_airport(rs.drop_last(), code) {
            Some(a) => Some(a),
            None => if rs.last().airport.code@ == code {
                Some(rs.last().airport)
            } else {
                None
            },
        }
    }
}

/// The carrier of the first record whose carrier has code `code`.
pub open spec fn first_carrier(rs: Seq<Record>, code: Seq<char>) -> Option<Carrier>
    decreases rs.len(),
{
    if rs.len() == 0 {
        None
    } else {
        match first_carrier(rs.drop_last(), code) {
            Some(c) => Some(c),
            None => if rs.last().carrier.code@ == code {
                Some(rs.last().carrier)
            } else {
                None
            },
        }
    }
}

/// The records whose airport has code `code`, in order.
pub open spec fn at_airport(rs: Seq<Record>, code: Seq<char>) -> Seq<Record>
    decreases rs.len(),
{
    if rs.len() == 0 {
        Seq::empty()
    } else if rs.last().airport.code@ == code {
        at_airport(rs.drop_last(), code).push(rs.last())
    } else {
        at_airport(rs.drop_last(), code)
    }
}

/// `first_airport` finds an airport exactly when some record has the code.
pub proof fn lemma_first_airport(rs: Seq<Record>, code: Seq<char>)
    ensures
        first_airport(rs, code) is Some <==> has_airport(rs, code),
        first_airport(rs, code) is Some ==> first_airport(rs, code)->0.code@ == code,
    decreases rs.len(),
{
    if rs.len() > 0 {
        let t = rs.drop_last();
        lemma_first_airport(t, code);
        if has_airport(t, code) {
            let i = choose|i: int| 0 <= i < t.len() && (#[trigger] t[i]).airport.code@ == code;
            assert(rs[i] == t[i]);
        }
        if has_airport(rs, code) && !has_airport(t, code) {
            let i = choose|i: int| 0 <= i < rs.len() && (#[trigger] rs[i]).airport.code@ == code;
            if i < t.len() {
                assert(t[i] == rs[i]);
            }
        }
        if rs.last().airport.code@ == code {
            assert(rs[rs.len() - 1].airport.code@ == code);
        }
    }
}

/// An ordered collection of records.
#[derive(Clone, Debug, PartialEq, Eq, Hash)]
pub struct DataSet {
    records: Vec<Record>,
}

impl View for DataSet {
    type V = Seq<Record>;

    closed spec fn view(&self) -> Seq<Record> {
        self.records@
    }
}

impl DataSet {
    /// A data set without records. Loading the bundled reference data is the
    /// caller's part: parse it, then hand the records to `from_records`.
    pub fn empty() -> (r: DataSet)
        ensures
            r@ == Seq::<Record>::empty(),
    {
        DataSet { records: Vec::new() }
    }

    /// A data set holding the given records, in the given order.
    pub fn from_records(records: Vec<Record>) -> (r: DataSet)
        ensures
            r@ == records@,
    {
        DataSet { records }
    }

    /// Appends a record.
    pub fn add_record(&mut self, record: Record)
        ensures
            final(self)@ == old(self)@.push(record),
    {
        self.records.push(record);
    }

    /// The records, in load order.
    pub fn records(&self) -> (r: &[Record])
        ensures
            r@ == self@,
    {
        self.records.as_slice()
    }

    /// The distinct airports of the data set, in order of first appearance.
    pub fn airports(&self) -> (r: AirportIter)
        ensures
            r.wf(),
            r@ == first_seen(airport_keys(self@)),
    {
        AirportIter::new(self)
    }

    /// The airport of the first record whose airport has code `code`.
    pub fn airport(&self, code: &String) -> (r: Option<Airport>)
        ensures
            r == first_airport(self@, code@),
    {
        let mut found: Option<Airport> = None;
        let mut i: usize = 0;
        while i < self.records.len()
            invariant
                i <= self.records@.len(),
                found == first_airport(self.records@.take(i as int), code@),
            decreases self.records.len() - i,
        {
            assert(self.records@.take(i + 1).drop_last() == self.records@.take(i as int));
            if found.is_none() && self.records[i].airport.code == *code {
                found = Some(self.records[i].airport.duplicate());
            }
            i = i + 1;
        }
        assert(self.records@.take(i as int) == self.records@);
        found
    }

    /// The carrier of the first record whose carrier has code `code`.
    pub fn carrier(&self, code: &String) -> (r: Option<Carrier>)
        ensures
            r == first_carrier(self@, code@),
    {
        let mut found: Option<Carrier> = None;
        let mut i: usize = 0;
        while i < self.records.len()
            invariant
                i <= self.records@.len(),
                found == first_carrier(self.records@.take(i as int), code@),
            decreases self.records.len() - i,
        {
            assert(self.records@.take(i + 1).drop_last() == self.records@.take(i as int));
            if found.is_none() && self.records[i].carrier.code == *code {
                found = Some(self.records[i].carrier.duplicate());
            }
            i = i + 1;
        }
        assert(self.records@.take(i as int) == self.records@);
        found
    }

    /// The distinct carriers of the records at the airport with code `code`,
    /// in order of first appearance.
    pub fn carriers_at_airport(&self, code: &String) -> (r: Vec<Carrier>)
        ensures
            r@.map_values(|c: Carrier| c.key()) == first_seen(carrier_keys(at_airport(self@, code@))),
    {
        let mut set = pair_set_new();
        let mut i: usize = 0;
        while i < self.records.len()
            invariant
                i <= self.records@.len(),
                pair_set_items(set) == first_seen(
                    carrier_keys(at_airport(self.records@.take(i as int), code@)),
                ),
            decreases self.records.len() - i,
        {
            let ghost before = at_airport(self.records@.take(i as int), code@);
            assert(self.records@.take(i + 1).drop_last() == self.records@.take(i as int));
            let record = &self.records[i];
            if record.airport.code == *code {
                assert(carrier_keys(before.push(*record)).drop_last() =~= carrier_keys(before));
                pair_set_insert(&mut set, record.carrier.code.clone(), record.carrier.name.clone());
            }
            i = i + 1;
        }
        assert(self.records@.take(i as int) == self.records@);
        let n = pair_set_len(&set);
        let mut result: Vec<Carrier> = Vec::new();
        let mut k: usize = 0;
        while k < n
            invariant
                k <= n,
                n == pair_set_items(set).len(),
                result@.len() == k,
                result@.map_values(|c: Carrier| c.key()) == pair_set_items(set).take(k as int),
            decreases n - k,
        {
            let ghost before = result@;
            let pair = pair_set_get(&set, k).unwrap();
            let carrier = Carrier { code: pair.0, name: pair.1 };
            assert(carrier.key() == pair_set_items(set)[k as int]);
            result.push(carrier);
            assert(result@ == before.push(carrier));
            assert forall|j: int| 0 <= j < k implies #[trigger] before[j].key() == pair_set_items(
                set,
            )[j] by {
                assert(before.map_values(|c: Carrier| c.key())[j] == pair_set_items(set).take(
                    k as int,
                )[j]);
            }
            k = k + 1;
            assert(result@.map_values(|c: Carrier| c.key()) =~= pair_set_items(set).take(k as int));
        }
        assert(pair_set_items(set).take(k as int) == pair_set_items(set));
        result
    }

    /// The distinct carriers of the data set, in order of first appearance.
    pub fn carriers(&self) -> (r: CarrierIter)
        ensures
            r.wf(),
            r@ == first_seen(carrier_keys(self@)),
    {
        CarrierIter::new(self)
    }
}

/// The distinct airports of a data set, handed out one by one.
pub struct AirportIter {
    airports: IndexSet<(String, String)>,
    idx: usize,
}

impl View for AirportIter {
    /// The (code, name) pairs not yet handed out.
    type V = Seq<(Seq<char>, Seq<char>)>;

    closed spec fn view(&self) -> Seq<(Seq<char>, Seq<char>)> {
        pair_set_items(self.airports).skip(self.idx as int)
    }
}

impl AirportIter {
    /// The position of the next airport lies within the set.
    pub closed spec fn wf(&self) -> bool {
        self.idx <= pair_set_items(self.airports).len() <= usize::MAX
    }

    /// Collects the airports of `data_set`, each (code, name) pair once.
    fn new(data_set: &DataSet) -> (r: AirportIter)
        ensures
            r.wf(),
            r@ == first_seen(airport_keys(data_set@)),
    {
        let mut airports = pair_set_new();
        let ghost keys = airport_keys(data_set@);
        let mut i: usize = 0;
        while i < data_set.records.len()
            invariant
                i <= data_set.records.len(),
                keys == airport_keys(data_set@),
                data_set@ == data_set.records@,
                pair_set_items(airports) == first_seen(keys.take(i as int)),
            decreases data_set.records.len() - i,
        {
            let airport = &data_set.records[i].airport;
            assert(keys.take(i + 1).drop_last() == keys.take(i as int));
            pair_set_insert(&mut airports, airport.code.clone(), airport.name.clone());
            i = i + 1;
        }
        assert(keys.take(i as int) == keys);
        // Asking for the length shows that it fits in a usize, as `wf` states.
        let _ = pair_set_len(&airports);
        AirportIter { airports, idx: 0 }
    }

    /// The next airport, if any is left.
    pub fn next(&mut self) -> (r: Option<Airport>)
        requires
            old(self).wf(),
        ensures
            final(self).wf(),
            old(self)@.len() == 0 ==> r is None && final(self)@ == old(self)@,
            old(self)@.len() > 0 ==> r is Some && r->0.key() == old(self)@[0]
                && final(self)@ == old(self)@.drop_first(),
    {
        match pair_set_get(&self.airports, self.idx) {
            Some(pair) => {
                self.idx = self.idx + 1;
                assert(self@ =~= old(self)@.drop_first());
                Some(Airport { code: pair.0, name: pair.1 })
            },
            None => None,
        }
    }

    /// The number of airports left.
    pub fn len(&self) -> (r: usize)
        requires
            self.wf(),
        ensures
            r == self@.len(),
    {
        pair_set_len(&self.airports) - self.idx
    }
}

/// The distinct carriers of a data set, handed out one by one.
pub struct CarrierIter {
    carriers: IndexSet<(String, String)>,
    idx: usize,
}

impl View for CarrierIter {
    /// The (code, name) pairs not yet handed out.
    type V = Seq<(Seq<char>, Seq<char>)>;

    closed spec fn view(&self) -> Seq<(Seq<char>, Seq<char>)> {
        pair_set_items(self.carriers).skip(self.idx as int)
    }
}

impl CarrierIter {
    /// The position of the next carrier lies within the set.
    pub closed spec fn wf(&self) -> bool {
        self.idx <= pair_set_items(self.carriers).len() <= usize::MAX
    }

    /// Collects the carriers of `data_set`, each (code, name) pair once.
    fn new(data_set: &DataSet) -> (r: CarrierIter)
        ensures
            r.wf(),
            r@ == first_seen(carrier_keys(data_set@)),
    {
        let mut carriers = pair_set_new();
        let ghost keys = carrier_keys(data_set@);
        let mut i: usize = 0;
        while i < data_set.records.len()
            invariant
                i <= data_set.records.len(),
                keys == carrier_keys(data_set@),
                data_set@ == data_set.records@,
                pair_set_items(carriers) == first_seen(keys.take(i as int)),
            decreases data_set.records.len() - i,
        {
            let carrier = &data_set.records[i].carrier;
            assert(keys.take(i + 1).drop_last() == keys.take(i as int));
            pair_set_insert(&mut carriers, carrier.code.clone(), carrier.name.clone());
            i = i + 1;
        }
        assert(keys.take(i as int) == keys);
        // Asking for the length shows that it fits in a usize, as `wf` states.
        let _ = pair_set_len(&carriers);
        CarrierIter { carriers, idx: 0 }
    }

    /// The next carrier, if any is left.
    pub fn next(&mut self) -> (r: Option<Carrier>)
        requires
            old(self).wf(),
        ensures
            final(self).wf(),
            old(self)@.len() == 0 ==> r is None && final(self)@ == old(self)@,
            old(self)@.len() > 0 ==> r is Some && r->0.key() == old(self)@[0]
                && final(self)@ == old(self)@.drop_first(),
    {
        match pair_set_get(&self.carriers, self.idx) {
            Some(pair) => {
                self.idx = self.idx + 1;
                assert(self@ =~= old(self)@.drop_first());
                Some(Carrier { code: pair.0, name: pair.1 })
            },
            None => None,
        }
    }

    /// The number of carriers left.
    pub fn len(&self) -> (r: usize)
        requires
            self.wf(),
        ensures
            r == self@.len(),
    {
        pair_set_len(&self.carriers) - self.idx
    }
}

} // verus!
