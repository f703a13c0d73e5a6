//! Runtime integrity scanner: given a point-in-time view of a target
//! process (its modules, environment, import bindings, code bytes and
//! trace state), decides whether the process shows signs of common
//! code-hooking or library-injection techniques, and aggregates the
//! evidence into one ordered, reproducible verdict.

pub mod engine;
pub mod error;
pub mod laws;
pub mod order;
pub mod record;
pub mod scan;
pub mod sort;
pub mod technique;
