//! Decision logic of a reverse proxy: the server side (`rfrps`) and the
//! client side (`rfrpc`), free of I/O.

pub mod addr;
pub mod auth;
pub mod clock;
pub mod config;
pub mod counter;
pub mod exposition;
pub mod http;
pub mod ident;
pub mod laws;
pub mod limits;
pub mod msg;
pub mod order;
pub mod rfrpc;
pub mod rfrps;
pub mod table;
pub mod text;
