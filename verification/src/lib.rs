//! Policy layer for outbound network access from sandboxed components:
//! variable resolution through provider chains, allow-list parsing and
//! matching, IP block-lists, and the per-instance cached access check.

pub mod allowed;
pub mod errors;
pub mod ip;
pub mod key;
pub mod outbound;
pub mod provider;
pub mod resolver;
pub mod schema;
pub mod template;
pub mod text;
