//! The server side.

pub mod basic;
pub mod cli;
pub mod control;
pub mod dashboard;
pub mod form;
pub mod laws;
pub mod listener;
pub mod metrics;
pub mod packet;
pub mod pages;
pub mod promises;
pub mod server;
pub mod session;
pub mod state;
pub mod status;
pub mod udp;
pub mod vhost;
pub mod work;
