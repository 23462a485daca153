//! Client side of a remote editing session: the wire format of the session
//! protocol, configuration parsing, server selection, and the message router
//! that decides what to do with each inbound frame.

pub mod text;
pub mod error;
pub mod scan;
pub mod json;
pub mod config;
pub mod client;
pub mod router;
pub mod select;
pub mod fileutil;
