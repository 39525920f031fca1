//! Tracing stand-ins used when no telemetry backend is configured.

use vstd::prelude::*;

verus! {

/// A tracer that records nothing.
#[derive(Debug, Clone, Default)]
pub struct NoopTracer;

impl NoopTracer {
    pub fn start(&self, _name: &str) -> (s: NoopSpan) {
        NoopSpan
    }
}

/// A span that records nothing.
#[derive(Debug, Clone, Default)]
pub struct NoopSpan;

impl NoopSpan {
    pub fn set_attribute<T: Into<String>>(&self, _key: &str, _value: T) {
    }

    pub fn end(self) {
    }
}

} // verus!
