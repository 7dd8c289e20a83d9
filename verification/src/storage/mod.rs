//! Persistence: what the warehouse stores, as statements and as decisions on
//! what was read back.

pub mod time_dimension;
pub mod schema;
pub mod upsert;
pub mod sync_state_repository;
pub mod issue_repository;
pub mod monitor_repository;
pub mod repository;
