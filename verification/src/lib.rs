//! An attribute-based authorization engine.
//!
//! Policies carry an effect (permit or forbid), scope constraints on the
//! principal, action and resource of a request, and a condition expression.
//! The engine resolves an entity hierarchy, matches and evaluates policies,
//! and combines the results into an allow/deny decision with diagnostics.

pub mod engine;
pub mod entity;
pub mod error;
pub mod eval;
pub mod extension;
pub mod input;
pub mod policy;
pub mod policy_parse;
pub mod request;
pub mod text;
pub mod value;
