pub mod cross;
pub mod event;
