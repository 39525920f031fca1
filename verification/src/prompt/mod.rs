pub mod error;
pub mod kernel;
pub mod registry;
pub mod template;
pub mod version;
