//! A message routing core: resolves a logical target name to the concrete
//! adapter that should handle a message, and keeps per-adapter performance
//! counters for observability.
//!
//! The engine owns a route table (target -> ordered list of adapter ids,
//! in registration order) and a metrics store (per-adapter request count,
//! error count and running-average latency). Routing looks the target up,
//! picks an adapter with the selection policy, records the attempt and
//! returns a timed result.

pub mod engine;
pub mod laws;
mod kv;
pub mod metrics;
pub mod policy;
pub mod table;

pub use engine::Message;
pub use engine::RouteResult;
pub use engine::RustRoutingEngine;
pub use metrics::RouteMetrics;
pub use policy::select_adapter;
