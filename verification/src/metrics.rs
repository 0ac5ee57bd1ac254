//! Metrics store: per-adapter counters, created lazily on the first
//! attempt recorded for an adapter and never deleted.
//!
//! Each adapter holds a monotonic request counter, a monotonic error
//! counter (never above the request counter) and a running-average
//! latency, recomputed on each sample as
//! `newAvg = (oldAvg * (total - 1) + latency) / total` in integer
//! arithmetic.

use vstd::prelude::*;
use crate::kv::KvStore;

verus! {

/// Counters kept for one adapter.
#[derive(Clone, Copy, Debug)]
pub struct RouteMetrics {
    pub total_requests: u64,
    pub errors: u64,
    pub avg_latency_us: u64,
}

/// The entry an adapter starts from when its first attempt is recorded.
pub open spec fn zero_metrics() -> RouteMetrics {
    RouteMetrics { total_requests: 0, errors: 0, avg_latency_us: 0 }
}

/// One recorded attempt folded into an adapter's counters: the request
/// counter grows by one, the error counter grows on failure, and the
/// average is the integer running mean over all samples so far.
pub open spec fn spec_bump(m: RouteMetrics, succeeded: bool, latency_us: u64) -> RouteMetrics {
    let total = m.total_requests + 1;
    RouteMetrics {
        total_requests: total as u64,
        errors: (if succeeded {
            m.errors as int
        } else {
            m.errors + 1
        }) as u64,
        avg_latency_us: ((m.avg_latency_us * (total - 1) + latency_us) / total) as u64,
    }
}

/// What recording an attempt does to the whole store: the chosen
/// adapter's entry (zeroed if absent) is bumped; no other entry moves.
pub open spec fn spec_record(
    m: Map<Seq<char>, RouteMetrics>,
    adapter_id: Seq<char>,
    succeeded: bool,
    latency_us: u64,
) -> Map<Seq<char>, RouteMetrics> {
    let cur = if m.contains_key(adapter_id) {
        m[adapter_id]
    } else {
        zero_metrics()
    };
    m.insert(adapter_id, spec_bump(cur, succeeded, latency_us))
}

/// Every entry's error counter stays at or below its request counter.
pub open spec fn metrics_ok(m: Map<Seq<char>, RouteMetrics>) -> bool {
    forall|k: Seq<char>| #[trigger]
        m.contains_key(k) ==> m[k].errors <= m[k].total_requests
}

/// The request counter of `adapter_id` has room for one more attempt.
pub open spec fn can_record(m: Map<Seq<char>, RouteMetrics>, adapter_id: Seq<char>) -> bool {
    m.contains_key(adapter_id) ==> m[adapter_id].total_requests < u64::MAX
}

pub struct MetricsStore {
    store: KvStore<RouteMetrics>,
}

impl MetricsStore {
    /// The per-adapter counters, as a map keyed by adapter id.
    pub closed spec fn map_of(self) -> Map<Seq<char>, RouteMetrics> {
        self.store.map_of()
    }

    pub closed spec fn wf(self) -> bool {
        self.store.wf() && metrics_ok(self.store.map_of())
    }

    /// A well-formed store keeps each error counter at or below the
    /// request counter of its entry.
    pub proof fn lemma_wf_counters(self)
        requires
            self.wf(),
        ensures
            metrics_ok(self.map_of()),
    {
    }

    pub fn new() -> (r: Self)
        ensures
            r.wf(),
            r.map_of() == Map::<Seq<char>, RouteMetrics>::empty(),
    {
        MetricsStore { store: KvStore::empty() }
    }

    /// Folds one attempt into the chosen adapter's counters, creating a
    /// zeroed entry first when the adapter has none.
    pub fn record_attempt(&mut self, adapter_id: &String, succeeded: bool, latency_us: u64)
        requires
            old(self).wf(),
            can_record(old(self).map_of(), adapter_id@),
        ensures
            final(self).wf(),
            final(self).map_of() == spec_record(
                old(self).map_of(),
                adapter_id@,
                succeeded,
                latency_us,
            ),
    {
        let idx = self.store.find(adapter_id);
        let cur: RouteMetrics = match idx {
            Some(i) => *self.store.value_at(i),
            None => RouteMetrics { total_requests: 0, errors: 0, avg_latency_us: 0 },
        };
        let new_total: u64 = cur.total_requests + 1;
        let new_errors: u64 = if succeeded {
            cur.errors
        } else {
            cur.errors + 1
        };
        proof {
            assert((cur.avg_latency_us as int) * ((new_total - 1) as int) + (latency_us as int)
                <= (u64::MAX as int) * (new_total as int)) by (nonlinear_arith)
                requires
                    cur.avg_latency_us <= u64::MAX,
                    latency_us <= u64::MAX,
                    1 <= new_total,
            ;
            assert((u64::MAX as int) * (new_total as int) <= (u64::MAX as int) * (u64::MAX as int))
                by (nonlinear_arith)
                requires
                    1 <= new_total <= u64::MAX,
            ;
        }
        let num: u128 = (cur.avg_latency_us as u128) * ((new_total - 1) as u128) + (
        latency_us as u128);
        let avg_wide: u128 = num / (new_total as u128);
        proof {
            assert(avg_wide <= u64::MAX) by (nonlinear_arith)
                requires
                    avg_wide == num / (new_total as u128),
                    num <= (u64::MAX as int) * (new_total as int),
                    1 <= new_total,
            ;
        }
        let new_avg: u64 = avg_wide as u64;
        let entry = RouteMetrics {
            total_requests: new_total,
            errors: new_errors,
            avg_latency_us: new_avg,
        };
        proof {
            assert(entry == spec_bump(cur, succeeded, latency_us));
        }
        match idx {
            Some(i) => self.store.set_at(i, entry),
            None => self.store.push_new(adapter_id.clone(), entry),
        }
    }

    /// A point-in-time copy of every adapter's counters. Each adapter in
    /// the store appears exactly once; no order is promised.
    pub fn snapshot(&self) -> (r: Vec<(String, (u64, u64, u64))>)
        requires
            self.wf(),
        ensures
            forall|i: int| 0 <= i < r@.len() ==> {
                &&& self.map_of().contains_key(#[trigger] r@[i].0@)
                &&& r@[i].1.0 == self.map_of()[r@[i].0@].total_requests
                &&& r@[i].1.1 == self.map_of()[r@[i].0@].errors
                &&& r@[i].1.2 == self.map_of()[r@[i].0@].avg_latency_us
            },
            forall|i: int, j: int| 0 <= i < j < r@.len() ==> r@[i].0@ != r@[j].0@,
            forall|k: Seq<char>| #[trigger]
                self.map_of().contains_key(k) ==> exists|i: int|
                    0 <= i < r@.len() && r@[i].0@ == k,
    {
        let n = self.store.len();
        let mut r: Vec<(String, (u64, u64, u64))> = Vec::new();
        let mut i: usize = 0;
        while i < n
            invariant
                self.wf(),
                n == self.store.key_views().len(),
                i <= n,
                r@.len() == i,
                forall|j: int| 0 <= j < i ==> (#[trigger] r@[j].0)@ == self.store.key_views()[j],
                forall|j: int| 0 <= j < i ==> {
                    &&& (#[trigger] r@[j].1).0 == self.store.values()[j].total_requests
                    &&& r@[j].1.1 == self.store.values()[j].errors
                    &&& r@[j].1.2 == self.store.values()[j].avg_latency_us
                },
            decreases n - i,
        {
            let key = self.store.key_at(i).clone();
            let v = *self.store.value_at(i);
            r.push((key, (v.total_requests, v.errors, v.avg_latency_us)));
            i += 1;
        }
        proof {
            assert forall|j: int| 0 <= j < r@.len() implies {
                &&& self.map_of().contains_key(#[trigger] r@[j].0@)
                &&& r@[j].1.0 == self.map_of()[r@[j].0@].total_requests
                &&& r@[j].1.1 == self.map_of()[r@[j].0@].errors
                &&& r@[j].1.2 == self.map_of()[r@[j].0@].avg_latency_us
            } by {
                self.store.lemma_at(j);
            }
            assert forall|k: Seq<char>| #[trigger]
                self.map_of().contains_key(k) implies exists|i2: int|
                0 <= i2 < r@.len() && r@[i2].0@ == k by {
                self.store.lemma_domain(k);
                let i2 = choose|i2: int|
                    0 <= i2 < self.store.key_views().len() && self.store.key_views()[i2] == k;
                assert(r@[i2].0@ == k);
            }
        }
        r
    }
}

} // verus!
