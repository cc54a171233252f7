//! Statically checked query templates and partial-update statement synthesis
//! for a wide-column, Cassandra-like store.
//!
//! The crate has four cooperating pieces: a recursive-descent parser for the
//! constrained query dialect used in embedded templates, a schema descriptor
//! that fixes identifier resolution and binding order, a builder that renders
//! canonical partial-update statements, and a tri-state value model that
//! distinguishes "set this column" from "leave it untouched".

pub mod error;
pub mod parser;
pub mod person;
pub mod queries;
pub mod reserved;
pub mod schema;
pub mod upsert;
pub mod values;
