//! A minimal blocking HTTP/1.1 server core: request parsing, response
//! encoding and the per-connection dispatch, with machine-checked contracts.

pub mod http;
pub mod server;
pub mod website_handler;
