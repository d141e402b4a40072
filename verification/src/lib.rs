//! A single-pass backtesting core: sliding-window trackers, streaming
//! indicators, an order fill state machine and a portfolio manager.
//!
//! Bars come in one at a time. Each bar updates the indicators of its
//! ticker, lets the strategy of the ticker emit signals, turns the signals
//! into orders, checks the pending orders against the bar and realizes the
//! trades in the portfolio. Bars of one ticker must come in strictly
//! increasing timestamp order; a bar that does not is rejected and changes
//! nothing.
//!
//! # Numbers
//!
//! Every price, value and cash amount is a fixed-point number held in an
//! `i64` that counts millionths of a unit (see [`fixed`]). Sums are exact,
//! quotients are rounded down, and a result that leaves the range of `i64`
//! saturates. Volumes and sizes are plain counts of shares. Timestamps are
//! nanoseconds since the Unix epoch, and times of day are UTC.
//!
//! # Contracts
//!
//! Every function states what it returns in terms of a model of its data: a
//! tracker is the sequence of entries that its window retains, a portfolio is
//! its buying power with its sequences of positions and pending orders.

pub mod backtest;
pub mod config;
pub mod equity;
pub mod events;
pub mod fixed;
pub mod indicators;
pub mod position;
pub mod strategies;
pub mod strategy;
pub mod types;
pub mod utils;
