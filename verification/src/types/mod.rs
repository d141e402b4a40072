pub mod log;
pub mod ohlcv;
