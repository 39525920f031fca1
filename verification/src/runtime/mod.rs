pub mod bus;
pub mod commands;
pub mod constraint_validator;
pub mod data_source;
pub mod dispatch;
pub mod dlq;
pub mod dlq_store;
pub mod entropy_interceptors;
pub mod governance;
pub mod guardian;
pub mod health;
pub mod interceptors;
pub mod loop_detector;
pub mod mailbox;
pub mod message_bus;
pub mod server;
pub mod startup;
pub mod supervisor;
pub mod telemetry;
