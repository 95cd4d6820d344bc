//! A line-oriented chat relay: connections are admitted into a registry,
//! each connection's inbound lines become events, and a single dispatcher
//! applies the events in order, fanning every message out to all other
//! registered peers.

pub mod addr;
pub mod text;
pub mod roster;
pub mod registry;
pub mod event;
pub mod ingest;
pub mod dispatch;
pub mod accept;
pub mod relay;
pub mod laws;
pub mod options;
pub mod cli;
pub mod client;
