//! Per-route request counters, cleared periodically.

use std::collections::HashMap;
use vstd::prelude::*;
use vstd::std_specs::hash::spec_keys_iter;
use vstd::std_specs::iter::IteratorSpec;

verus! {

broadcast use vstd::std_specs::hash::group_hash_axioms;

/// The counter of one route: how many requests it served since the last
/// clearing, and when (UNIX seconds) it was last cleared or first seen.
#[derive(Debug, Clone, Copy)]
pub struct TelemetryData {
    pub count: i64,
    pub last_clean: u64,
}

/// `count + 1`, saturating at `i64::MAX` (as `i64::saturating_add(count, 1)`).
pub open spec fn saturating_succ(count: i64) -> i64 {
    if count < i64::MAX {
        (count + 1) as i64
    } else {
        count
    }
}

/// The counters after one request on `route_id` at time `now`: an existing
/// counter goes up by one and keeps its timestamp; a new one starts at one,
/// stamped `now`.
pub open spec fn counted(m: Map<i64, TelemetryData>, route_id: i64, now: u64) -> Map<i64, TelemetryData> {
    if m.contains_key(route_id) {
        m.insert(
            route_id,
            TelemetryData { count: saturating_succ(m[route_id].count), last_clean: m[route_id].last_clean },
        )
    } else {
        m.insert(route_id, TelemetryData { count: 1, last_clean: now })
    }
}

/// The counters after a clearing at time `now`: every route keeps its entry,
/// with count zero and timestamp `now`.
pub open spec fn cleared(m: Map<i64, TelemetryData>, now: u64) -> Map<i64, TelemetryData> {
    Map::new(|k: i64| m.contains_key(k), |k: i64| TelemetryData { count: 0, last_clean: now })
}

#[verifier::external_type_specification]
#[verifier::external_body]
pub struct ExSystemTime(std::time::SystemTime);

#[verifier::external_type_specification]
#[verifier::external_body]
pub struct ExSystemTimeError(std::time::SystemTimeError);

/// The clock's current reading, `std::time::SystemTime::now()`. Nothing is
/// claimed of it.
#[verifier::external_body]
fn clock_now() -> std::time::SystemTime {
    std::time::SystemTime::now()
}

/// The time from the UNIX epoch to `t`, `SystemTime::duration_since(UNIX_EPOCH)`,
/// which fails when `t` lies before the epoch. Nothing is claimed of the
/// result.
#[verifier::external_body]
fn since_unix_epoch(t: &std::time::SystemTime) -> Result<std::time::Duration, std::time::SystemTimeError> {
    t.duration_since(std::time::UNIX_EPOCH)
}

/// The whole seconds of `d`, `Duration::as_secs`. Nothing is claimed of the
/// result.
#[verifier::external_body]
fn whole_seconds(d: &std::time::Duration) -> u64 {
    d.as_secs()
}

/// The current UNIX time in seconds, as the clock reads it; a clock set
/// before the epoch reads 0.
pub fn unix_now() -> u64 {
    let t = clock_now();
    match since_unix_epoch(&t) {
        Ok(d) => whole_seconds(&d),
        Err(_) => 0,
    }
}

/// Request counters by route id.
#[derive(Debug)]
pub struct Telemetry {
    data: HashMap<i64, TelemetryData>,
}

impl View for Telemetry {
    type V = Map<i64, TelemetryData>;

    closed spec fn view(&self) -> Map<i64, TelemetryData> {
        self.data@
    }
}

impl Telemetry {
    /// No counters.
    pub fn new() -> (t: Self)
        ensures
            t@ == Map::<i64, TelemetryData>::empty(),
    {
        Telemetry { data: HashMap::new() }
    }

    /// Counts one request on `route_id`, at time `now` (UNIX seconds).
    pub fn increment_at(&mut self, route_id: i64, now: u64)
        ensures
            final(self)@ == counted(old(self)@, route_id, now),
    {
        let next = match self.data.get(&route_id) {
            Some(entry) => {
                let count = if entry.count < i64::MAX {
                    entry.count + 1
                } else {
                    entry.count
                };
                TelemetryData { count, last_clean: entry.last_clean }
            },
            None => TelemetryData { count: 1, last_clean: now },
        };
        self.data.insert(route_id, next);
    }

    /// Counts one request on `route_id`, stamping a new counter with the
    /// current time.
    pub fn increment(&mut self, route_id: i64)
        ensures
            exists|now: u64| final(self)@ == counted(old(self)@, route_id, now),
    {
        let now = unix_now();
        self.increment_at(route_id, now);
    }

    /// Resets every counter to zero and stamps it with `now`.
    pub fn clear_at(&mut self, now: u64)
        ensures
            final(self)@ == cleared(old(self)@, now),
    {
        let mut keys: Vec<i64> = Vec::new();
        for k in it: self.data.keys()
            invariant
                keys@.len() == it.index(),
                forall|i: int| 0 <= i < it.index() ==> keys@[i] == *it.seq()[i],
        {
            keys.push(*k);
        }
        proof {
            assert(keys@ =~= spec_keys_iter(&self.data).remaining().unref());
        }
        let ghost before = self.data@;
        let n = keys.len();
        let mut i: usize = 0;
        while i < n
            invariant
                n == keys@.len(),
                i <= n,
                keys@.to_set() == before.dom(),
                self.data@.dom() == before.dom(),
                forall|j: int| 0 <= j < i ==> self.data@[#[trigger] keys@[j]] == (TelemetryData { count: 0, last_clean: now }),
            decreases n - i,
        {
            let k = keys[i];
            proof {
                assert(keys@.to_set().contains(keys@[i as int]));
            }
            self.data.insert(k, TelemetryData { count: 0, last_clean: now });
            i = i + 1;
        }
        proof {
            assert forall|k: i64| before.contains_key(k) implies self.data@[k] == (TelemetryData { count: 0, last_clean: now }) by {
                assert(keys@.to_set().contains(k));
                let j = choose|j: int| 0 <= j < keys@.len() && keys@[j] == k;
                assert(self.data@[keys@[j]] == (TelemetryData { count: 0, last_clean: now }));
            }
            assert(self.data@ =~= cleared(before, now));
        }
    }

    /// Resets every counter to zero and stamps it with the current time.
    pub fn clear(&mut self)
        ensures
            exists|now: u64| final(self)@ == cleared(old(self)@, now),
    {
        let now = unix_now();
        self.clear_at(now);
    }

    /// A copy of the current counters.
    pub fn snapshot(&self) -> (m: HashMap<i64, TelemetryData>)
        ensures
            m@ == self@,
    {
        self.data.clone()
    }
}


/// Counting a request on one route leaves every other route's counter as it
/// was.
pub proof fn lemma_count_isolated(m: Map<i64, TelemetryData>, route_id: i64, now: u64, other: i64)
    requires
        other != route_id,
    ensures
        counted(m, route_id, now).contains_key(other) == m.contains_key(other),
        m.contains_key(other) ==> counted(m, route_id, now)[other] == m[other],
        counted(m, route_id, now).contains_key(route_id),
{
}

/// Clearing keeps every route and zeroes its count; the first request after
/// a clearing counts one and keeps the clearing's timestamp.
pub proof fn lemma_count_after_clear(m: Map<i64, TelemetryData>, cleared_at: u64, route_id: i64, now: u64)
    ensures
        cleared(m, cleared_at).dom() == m.dom(),
        m.contains_key(route_id) ==> counted(cleared(m, cleared_at), route_id, now)[route_id] == (TelemetryData {
            count: 1,
            last_clean: cleared_at,
        }),
{
    assert(cleared(m, cleared_at).dom() =~= m.dom());
}

/// Below the saturation point, each request adds exactly one to its route's
/// count.
pub proof fn lemma_count_grows_by_one(m: Map<i64, TelemetryData>, route_id: i64, now: u64)
    requires
        m.contains_key(route_id),
        m[route_id].count < i64::MAX,
    ensures
        counted(m, route_id, now)[route_id].count == m[route_id].count + 1,
{
}


/// One operation on the counters: a request counted on a route at a time,
/// or a clearing at a time.
pub enum TelemetryOp {
    Count(i64, u64),
    Clear(u64),
}

/// The counters after one operation.
pub open spec fn applied(m: Map<i64, TelemetryData>, op: TelemetryOp) -> Map<i64, TelemetryData> {
    match op {
        TelemetryOp::Count(route_id, now) => counted(m, route_id, now),
        TelemetryOp::Clear(now) => cleared(m, now),
    }
}

/// The counters after the operations `ops`, in order.
pub open spec fn after_ops(m: Map<i64, TelemetryData>, ops: Seq<TelemetryOp>) -> Map<i64, TelemetryData>
    decreases ops.len(),
{
    if ops.len() == 0 {
        m
    } else {
        applied(after_ops(m, ops.drop_last()), ops.last())
    }
}

/// No counter is negative.
pub open spec fn counts_non_negative(m: Map<i64, TelemetryData>) -> bool {
    forall|k: i64| m.contains_key(k) ==> #[trigger] m[k].count >= 0
}

/// One operation keeps every route and keeps counts non-negative.
pub proof fn lemma_op_keeps_routes_and_counts(m: Map<i64, TelemetryData>, op: TelemetryOp)
    requires
        counts_non_negative(m),
    ensures
        counts_non_negative(applied(m, op)),
        m.dom().subset_of(applied(m, op).dom()),
{
}

/// Over any sequence of countings and clearings, starting from counters
/// with no negative count (such as the empty counters of a new
/// `Telemetry`), no count becomes negative and no route that had a counter
/// at some point loses it later.
pub proof fn lemma_ops_keep_routes_and_counts(m: Map<i64, TelemetryData>, ops: Seq<TelemetryOp>, k: int)
    requires
        counts_non_negative(m),
        0 <= k <= ops.len(),
    ensures
        counts_non_negative(after_ops(m, ops)),
        after_ops(m, ops.take(k)).dom().subset_of(after_ops(m, ops).dom()),
    decreases ops.len(),
{
    if ops.len() == 0 {
        assert(ops.take(k) =~= ops);
    } else {
        let prefix = ops.drop_last();
        if k == ops.len() {
            assert(ops.take(k) =~= ops);
            lemma_ops_keep_routes_and_counts(m, prefix, 0);
            lemma_op_keeps_routes_and_counts(after_ops(m, prefix), ops.last());
        } else {
            assert(ops.take(k) =~= prefix.take(k));
            lemma_ops_keep_routes_and_counts(m, prefix, k);
            lemma_op_keeps_routes_and_counts(after_ops(m, prefix), ops.last());
        }
    }
}

} // verus!
