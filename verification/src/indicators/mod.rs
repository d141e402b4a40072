pub mod calculators;
pub mod common;
pub mod fields;
pub mod indicator;
pub mod indicators;
pub mod price;
pub mod time;
pub mod trackers;
pub mod window;
