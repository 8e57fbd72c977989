//! Reconciliation of a locally declared world against the state that the
//! world's management events describe.
//!
//! The remote state is rebuilt by replaying the ordered event log, compared
//! with the local declaration, and the difference is turned into an ordered
//! migration plan.

pub mod byte_array;
pub mod diff;
pub mod events_to_remote;
pub mod felt;
pub mod felt_set;
pub mod local;
pub mod migrate;
pub mod namespace_index;
pub mod naming;
pub mod remote;
pub mod selector_map;
pub mod world;
