//! Verified core of a headless, TLS-terminating HTTP(S) interception proxy:
//! the traffic record, its JSON-lines log framing, log queries, request
//! replay overrides, header handling and the per-host certificate cache.

mod foreign;
pub mod ca;
pub mod cli;
pub mod exchange;
pub mod replay;
pub mod store;
pub mod text;
pub mod textmap;
