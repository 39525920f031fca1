//! Errors and event records of the runtime's data source for dashboards.

use vstd::prelude::*;

verus! {

/// Why the data source could not answer.
#[derive(Debug)]
pub enum DataSourceError {
    NotInitialized,
    CellReadFailed,
    HealthReadFailed,
    HeatmapFailed,
    SignalSubscribeFailed,
}

pub open spec fn data_source_error_text(e: DataSourceError) -> Seq<char> {
    match e {
        DataSourceError::NotInitialized => "data source not initialized"@,
        DataSourceError::CellReadFailed => "failed to read cells"@,
        DataSourceError::HealthReadFailed => "failed to read health"@,
        DataSourceError::HeatmapFailed => "failed to get heatmap"@,
        DataSourceError::SignalSubscribeFailed => "failed to subscribe to signals"@,
    }
}

impl DataSourceError {
    /// The error's text.
    pub fn message(&self) -> (s: &'static str)
        ensures
            s@ == data_source_error_text(*self),
    {
        proof {
            reveal_strlit("data source not initialized");
            reveal_strlit("failed to read cells");
            reveal_strlit("failed to read health");
            reveal_strlit("failed to get heatmap");
            reveal_strlit("failed to subscribe to signals");
        }
        match self {
            DataSourceError::NotInitialized => "data source not initialized",
            DataSourceError::CellReadFailed => "failed to read cells",
            DataSourceError::HealthReadFailed => "failed to read health",
            DataSourceError::HeatmapFailed => "failed to get heatmap",
            DataSourceError::SignalSubscribeFailed => "failed to subscribe to signals",
        }
    }
}

/// One signal handled by a cell, as shown on a dashboard.
#[derive(Debug, Clone)]
pub struct SignalEventData {
    pub ts_ns: u64,
    pub cell_id: String,
    pub signal_type: String,
    pub status: String,
}

} // verus!
