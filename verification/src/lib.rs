//! Delimited-text ingest of keyed records: decoding an uploaded table into
//! typed records, shaping one parameterised insert per record, and deciding
//! the reply of the ingest and lookup operations.

pub mod codec;
pub mod models;
pub mod number;
pub mod service;
pub mod table;
