//! AI summarization of pull requests: the tools offered to an agent and what
//! becomes of its run.
//!
//! Each data warehouse owns the summaries of the data it holds, so they are
//! stored alongside that data. The scope is a single pull request; there are no
//! period-level summaries.

pub mod pr_summary;
pub mod tools;
