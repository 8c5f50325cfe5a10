//! Ingest-and-index core of a local IMDb mirror: title identifiers, row
//! decoding for the upstream TSV feeds, the conditional-fetch and sweep
//! decisions, and the search-document builder, each with its contract.

pub mod digits;
pub mod fetch;
pub mod file_meta;
pub mod id;
pub mod importers;
pub mod kind;
pub mod known_ids;
pub mod query;
pub mod rows;
pub mod search;
pub mod store;
pub mod sweep;
pub mod text;
