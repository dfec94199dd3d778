//! A task store: tasks are created by an owner, listed and counted per owner
//! or in total, looked up by identifier and deleted by identifier.
//! Identifiers come from one counter shared by all owners.

pub mod store;
pub mod laws;
pub mod task;
