//! The client side.

pub mod backoff;
pub mod cli;
pub mod client;
pub mod connect;
pub mod control;
pub mod metrics;
pub mod retry;
pub mod run_id;
pub mod status;
pub mod workconn;
