//! A local data warehouse for GitHub repositories.

pub mod text;
pub mod number;
pub mod calendar;
pub mod error;
pub mod period;
pub mod clock;
pub mod sql;
pub mod storage;
pub mod json;
pub mod fetch;
pub mod outline;
pub mod relation;
pub mod query;
pub mod ingest;
pub mod stored;
pub mod sync;
pub mod walk;
pub mod run;
pub mod metrics;
pub mod groups;
pub mod search;
pub mod summaries;
pub mod mcp;
pub mod cli;
