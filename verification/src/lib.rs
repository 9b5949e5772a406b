//! Network type registry and input-synchronisation rules of a client-server
//! replication layer.

pub mod entity;
pub mod input;
pub mod message;
pub mod registry;
pub mod role;
