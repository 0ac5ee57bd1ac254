//! Routing orchestrator: the public entry point. It times the call,
//! consults the route registry, lets the selection policy pick an
//! adapter, folds the attempt into the metrics store and returns a
//! result record.
//!
//! Routing never aborts: an unregistered target or an empty candidate
//! list comes back as a failed `RouteResult`, never as a panic.

use std::collections::HashMap;
use vstd::prelude::*;
use crate::metrics::{can_record, spec_record, MetricsStore, RouteMetrics};
use crate::policy::{select_adapter, spec_selected};
use crate::table::{spec_register, RouteTable};
use vstd::string::StringExecFns;

verus! {

/// `serde_json::Value` carries a message payload through the engine as
/// an opaque value: the engine never reads it.
#[verifier::external_type_specification]
#[verifier::external_body]
pub struct ExValue(serde_json::Value);

/// A reading of the monotonic clock, opaque to the engine.
#[verifier::external_type_specification]
#[verifier::external_body]
pub struct ExInstant(std::time::Instant);

/// Relies on std::time::Instant::now: a reading of the monotonic clock.
/// Nothing is assumed of the value read.
#[verifier::external_body]
fn monotonic_now() -> std::time::Instant {
    std::time::Instant::now()
}

/// Relies on std::time::Instant::elapsed and Duration::as_micros: the
/// microseconds since `start`, truncated to 64 bits. Nothing is assumed
/// of the reading: the verified caller holds for any value that comes
/// back.
#[verifier::external_body]
fn elapsed_micros(start: &std::time::Instant) -> u64 {
    start.elapsed().as_micros() as u64
}

/// A message handed to the engine for routing. Immutable once built;
/// the engine reads only `target`, the payload and metadata are opaque.
pub struct Message {
    pub source: String,
    pub target: String,
    pub payload: serde_json::Value,
    pub meta: Option<HashMap<String, serde_json::Value>>,
}

/// The outcome of one routing decision. `adapter_id` is present exactly
/// on success, `error` exactly on failure; `latency_us` is the elapsed
/// time of the decision itself and is always present.
#[derive(Debug)]
pub struct RouteResult {
    pub success: bool,
    pub adapter_id: Option<String>,
    pub error: Option<String>,
    pub latency_us: u64,
}

/// The error text reported for a target with no registration.
pub open spec fn target_not_found_msg(target: Seq<char>) -> Seq<char> {
    "Target '"@ + target + "' not found"@
}

/// The error text reported for a registered target whose candidate list
/// is empty.
pub open spec fn no_adapters_msg() -> Seq<char> {
    "No adapters available"@
}

/// Routing succeeds exactly when the target is registered with at least
/// one candidate adapter.
pub open spec fn spec_route_ok(routes: Map<Seq<char>, Seq<Seq<char>>>, target: Seq<char>) -> bool {
    routes.contains_key(target) && routes[target].len() > 0
}

/// The routing engine: one route table and one metrics store, owned for
/// its lifetime and touched only through its operations.
pub struct RustRoutingEngine {
    routes: RouteTable,
    metrics: MetricsStore,
}

impl RustRoutingEngine {
    /// The route table: target name -> adapter ids in registration order.
    pub closed spec fn routes(self) -> Map<Seq<char>, Seq<Seq<char>>> {
        self.routes.map_of()
    }

    /// The metrics store: adapter id -> its counters.
    pub closed spec fn metrics(self) -> Map<Seq<char>, RouteMetrics> {
        self.metrics.map_of()
    }

    pub closed spec fn wf(self) -> bool {
        self.routes.wf() && self.metrics.wf()
    }

    /// A well-formed engine keeps each adapter's error counter at or
    /// below its request counter.
    pub proof fn lemma_wf_counters(self)
        requires
            self.wf(),
        ensures
            crate::metrics::metrics_ok(self.metrics()),
    {
        self.metrics.lemma_wf_counters();
    }

    /// An engine with an empty route table and an empty metrics store.
    pub fn new() -> (r: Self)
        ensures
            r.wf(),
            r.routes() == Map::<Seq<char>, Seq<Seq<char>>>::empty(),
            r.metrics() == Map::<Seq<char>, RouteMetrics>::empty(),
    {
        RustRoutingEngine { routes: RouteTable::new(), metrics: MetricsStore::new() }
    }

    /// Registers `adapter_id` for `target`: appended to the target's
    /// list, which is created on first registration. Always succeeds;
    /// duplicates are kept on purpose. Metrics are untouched.
    pub fn register_route(&mut self, target: &str, adapter_id: &str)
        requires
            old(self).wf(),
        ensures
            final(self).wf(),
            final(self).routes() == spec_register(old(self).routes(), target@, adapter_id@),
            final(self).metrics() == old(self).metrics(),
    {
        self.routes.register(target, adapter_id);
    }

    /// Routes one message: looks `message.target` up, picks the first
    /// registered adapter, records the attempt and returns the timed
    /// result.
    ///
    /// - Unregistered target: failure with the target-not-found text,
    ///   no adapter, metrics untouched.
    /// - Registered target with an empty candidate list: failure with
    ///   the no-adapters text, no adapter, metrics untouched.
    /// - Otherwise: success with the first-registered adapter, whose
    ///   counters take one successful attempt at some clock reading.
    ///
    /// The route table never changes. The latencies reported and
    /// recorded are clock readings, about which nothing is assumed.
    pub fn route(&mut self, message: &Message) -> (r: RouteResult)
        requires
            old(self).wf(),
            spec_route_ok(old(self).routes(), message.target@) ==> can_record(
                old(self).metrics(),
                spec_selected(old(self).routes()[message.target@]),
            ),
        ensures
            final(self).wf(),
            final(self).routes() == old(self).routes(),
            r.success == spec_route_ok(old(self).routes(), message.target@),
            !old(self).routes().contains_key(message.target@) ==> {
                &&& r.adapter_id is None
                &&& r.error is Some
                &&& r.error.unwrap()@ == target_not_found_msg(message.target@)
                &&& final(self).metrics() == old(self).metrics()
            },
            (old(self).routes().contains_key(message.target@) && old(self).routes()[
                message.target@
            ].len() == 0) ==> {
                &&& r.adapter_id is None
                &&& r.error is Some
                &&& r.error.unwrap()@ == no_adapters_msg()
                &&& final(self).metrics() == old(self).metrics()
            },
            spec_route_ok(old(self).routes(), message.target@) ==> {
                &&& r.adapter_id is Some
                &&& r.adapter_id.unwrap()@ == spec_selected(old(self).routes()[message.target@])
                &&& r.error is None
                &&& exists|lat: u64|
                    final(self).metrics() == spec_record(
                        old(self).metrics(),
                        spec_selected(old(self).routes()[message.target@]),
                        true,
                        lat,
                    )
            },
    {
        let start = monotonic_now();
        match self.routes.lookup(&message.target) {
            Some(candidates) => {
                if candidates.len() == 0 {
                    RouteResult {
                        success: false,
                        adapter_id: None,
                        error: Some("No adapters available".to_owned()),
                        latency_us: elapsed_micros(&start),
                    }
                } else {
                    let adapter_id = select_adapter(candidates);
                    let so_far = elapsed_micros(&start);
                    self.metrics.record_attempt(&adapter_id, true, so_far);
                    proof {
                        assert(self.metrics() == spec_record(
                            old(self).metrics(),
                            spec_selected(old(self).routes()[message.target@]),
                            true,
                            so_far,
                        ));
                    }
                    RouteResult {
                        success: true,
                        adapter_id: Some(adapter_id),
                        error: None,
                        latency_us: elapsed_micros(&start),
                    }
                }
            },
            None => {
                let mut text: String = "Target '".to_owned();
                text.append(message.target.as_str());
                text.append("' not found");
                RouteResult {
                    success: false,
                    adapter_id: None,
                    error: Some(text),
                    latency_us: elapsed_micros(&start),
                }
            },
        }
    }

    /// A point-in-time copy of every adapter's counters, as
    /// `(adapter id, (total requests, errors, average latency))` entries,
    /// one per adapter, in no promised order.
    pub fn get_metrics(&self) -> (r: Vec<(String, (u64, u64, u64))>)
        requires
            self.wf(),
        ensures
            forall|i: int| 0 <= i < r@.len() ==> {
                &&& self.metrics().contains_key(#[trigger] r@[i].0@)
                &&& r@[i].1.0 == self.metrics()[r@[i].0@].total_requests
                &&& r@[i].1.1 == self.metrics()[r@[i].0@].errors
                &&& r@[i].1.2 == self.metrics()[r@[i].0@].avg_latency_us
            },
            forall|i: int, j: int| 0 <= i < j < r@.len() ==> r@[i].0@ != r@[j].0@,
            forall|k: Seq<char>| #[trigger]
                self.metrics().contains_key(k) ==> exists|i: int|
                    0 <= i < r@.len() && r@[i].0@ == k,
    {
        self.metrics.snapshot()
    }
}

} // verus!
