//! A translation service core: a key-value store of translated strings per locale,
//! a least-recently-used cache in front of it, and the bookkeeping of issues
//! (missing translations) and change logs.

pub mod cache;
pub mod cli;
pub mod internals;
pub mod store;
pub mod text;
pub mod translation;
