//! Verified core of a GTFS-realtime feed cache: the keys under which feeds
//! are stored, the ingest schedule and request plans, and the answers the
//! cache server gives.
pub mod text;
pub mod keys;
pub mod insert;
pub mod config;
pub mod ingest;
pub mod metrolink;
pub mod server;
pub mod transit;
pub mod ops;
