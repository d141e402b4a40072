pub mod condition;
pub mod entry;
pub mod manager;
pub mod order;
pub mod position;
pub mod side;
pub mod sizing;
pub mod status;
pub mod strategy;

pub use order::Order;
pub use status::Status;
