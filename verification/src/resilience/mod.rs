pub mod bulkhead;
pub mod circuit;
pub mod decorate;
pub mod rate_limit;
pub mod retry;
