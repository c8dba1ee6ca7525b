//! A regular-expression reverse proxy: rule compilation, routing, header
//! policy and the per-request forwarding decision.

pub mod pattern;
pub mod text;
pub mod rules;
pub mod router;
