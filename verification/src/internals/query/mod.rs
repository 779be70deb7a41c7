//! Queries over the service's records.

pub mod pagination;
