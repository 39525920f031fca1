//! Verified core of an agent cell runtime: prompt templates, resilience
//! decorators, supervision, and the message-level enforcement rules.

pub mod clock;
pub mod isa;
pub mod json;
pub mod plugins;
pub mod prompt;
pub mod resilience;
pub mod runtime;
pub mod signal;
pub mod strmap;
pub mod text;
