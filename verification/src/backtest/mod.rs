pub mod context;
pub mod engine;
pub mod portfolio;
pub mod signal;
