//! Storage: query construction, statistics records, the PCAPNG encoding and
//! the retention rules.

pub mod cleanup;
pub mod metadata;
pub mod packet_store;
pub mod query;
