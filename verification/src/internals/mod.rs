//! The service's own bookkeeping: issues (missing translations), change logs,
//! the background worker's decisions, and paging of query results.

pub mod changelog;
pub mod clock;
pub mod issue;
pub mod issues;
pub mod query;
pub mod service;
pub mod worker;
