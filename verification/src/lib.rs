//! A verified core for a small content backend: pages and the modules that
//! belong to them, persisted in a relational store and served over five CRUD
//! operations per entity plus a one-to-many join read.
//!
//! The store itself is modelled as an in-memory pair of tables ([`models::Db`])
//! with the exact row semantics the service relies on: insert-or-ignore on
//! identity conflict, zero-row updates and deletes as successful no-ops, and a
//! NotFound error only on reads. The handler layer decodes requests, delegates
//! to the capability contract ([`models::Model`]) and shapes status-coded
//! responses; the join read flattens (page, module) pairs into one nested
//! record. Transport, serialization and the real store driver are collaborators
//! outside this crate; they exchange plain values with the functions here.

pub mod controllers;
pub mod laws;
pub mod models;
pub mod module_controllers;
pub mod module_models;
pub mod page_controllers;
pub mod page_models;
