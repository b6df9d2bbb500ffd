//! Solvers for simple electrical quantities.
//!
//! Two record types drive the crate: a conductor record (resistance,
//! resistivity, length, cross-section) and a circuit record (voltage,
//! current, resistance). Free-form tokens are parsed into a partial
//! record, and when exactly one slot is missing it is computed
//! algebraically. All quantities are exact rationals, so the contracts
//! state the algebra exactly.

pub mod circuit;
pub mod conductor;
pub mod geometry;
pub mod material;
pub mod numfmt;
pub mod parse;
pub mod prefix;
pub mod rat;
