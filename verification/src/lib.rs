//! Role-based access control bookkeeping.
//!
//! Owners register roles, permissions and groups, link them by assignments
//! and query the permissions a user or a group effectively holds. Every
//! entity and every assignment list is found under a 32-byte key derived
//! from the owner, an entity id and a tag.

pub mod assignments;
pub mod calls;
pub mod error;
pub mod events;
pub mod hashing;
pub mod invariants;
pub mod laws;
pub mod migrations;
pub mod model;
pub mod order;
pub mod pallet;
pub mod rbac;
pub mod rpc;
pub mod storage;
pub mod stores;
pub mod structs;
