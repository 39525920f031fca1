//! Metric descriptions, the metrics registry interface, and the health
//! report served by the runtime.

use vstd::prelude::*;

verus! {

#[derive(Debug, Clone, Copy, PartialEq, Eq, Structural)]
pub enum MetricType {
    Counter,
    Gauge,
    Histogram,
}

/// A metric's description.
#[derive(Debug, Clone)]
pub struct MetricDesc {
    pub name: String,
    pub help: String,
    pub metric_type: MetricType,
    pub labels: Vec<String>,
}

/// A source of metrics in text form.
pub trait MetricsRegistry {
    /// The metrics in the Prometheus text format.
    fn encode(&self) -> String;

    fn describe(&self) -> Vec<MetricDesc>;
}

/// A registry without metrics.
#[derive(Debug, Default)]
pub struct NoopRegistry;

impl MetricsRegistry for NoopRegistry {
    fn encode(&self) -> (s: String)
        ensures
            s@ == Seq::<char>::empty(),
    {
        String::new()
    }

    fn describe(&self) -> (d: Vec<MetricDesc>)
        ensures
            d@.len() == 0,
    {
        Vec::new()
    }
}

/// The body of the health endpoint.
#[derive(Debug, Clone)]
pub struct HealthResponse {
    pub status: &'static str,
    pub cells_running: u64,
    pub preflight_passed: bool,
}

impl Default for HealthResponse {
    /// Healthy, with no cell running and no preflight done.
    fn default() -> (h: Self)
        ensures
            h.status@ == "ok"@,
            h.cells_running == 0,
            !h.preflight_passed,
    {
        HealthResponse { status: "ok", cells_running: 0, preflight_passed: false }
    }
}

} // verus!
