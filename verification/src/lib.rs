//! Resolution of IP addresses to geographic and network-ownership records.
//!
//! An address is encoded as a key (`ip_key`), looked up in three range
//! datasets by longest-prefix match (`select`, `store`), resolved to an
//! outcome with the city dataset ahead of the country dataset (`resolve`),
//! and mapped into the response document or an error body (`format`,
//! `reply`). The tables are plain values (`rows`); reading them from a file
//! and sending a reply are left to the caller.

pub mod format;
pub mod ip_key;
pub mod reply;
pub mod resolve;
pub mod rows;
pub mod select;
pub mod store;
pub mod text;
