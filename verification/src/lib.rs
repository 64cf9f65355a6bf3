//! XTrade market data monitor: the verified core.
//!
//! Market values are exact fixed-point numbers (see `fixed`), the order book,
//! alerts, command parsing, configuration rules, metrics and paper trading are
//! verified against the contracts written next to them.

pub mod text;
pub mod fixed;
pub mod clock;
pub mod book_side;
pub mod orderbook;
pub mod alerts;
pub mod cli;
pub mod commands;
pub mod market;
pub mod config;
pub mod stream;
pub mod rest;
pub mod candles;
pub mod feed;
pub mod subscriptions;
pub mod planning;
pub mod metrics;
pub mod notify;
pub mod logbuf;
pub mod decimal;
pub mod paper;
pub mod alert_session;
pub mod ui;
pub mod session;
pub mod mock;
pub mod ui_session;
pub mod demo;
