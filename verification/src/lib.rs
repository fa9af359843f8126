//! A content-addressed, create-once registry: one record per fingerprint,
//! stored at an address derived from the fingerprint, claimed exactly once.
//!
//! - [`address`]: from a fingerprint to its storage address.
//! - [`record`]: the stored record, its bounds, its bytes.
//! - [`registry`]: the store of claimed slots and the registration itself.
//! - [`laws`]: what holds of every registration.

pub mod address;
pub mod error;
pub mod laws;
pub mod record;
pub mod registry;

pub use crate::error::ShardError;
pub use crate::record::ShardRecord;
pub use crate::registry::{register_shard, RecordHandle, RegisterShard, Registry};
