//! An interactive browser's core for an embedded key-value database file:
//! a heuristic byte interpreter that renders untyped keys and values, a
//! reader that opens tables generically by raw byte descriptor, and a
//! navigation state machine over the discovered table names.

pub mod interpret;
pub mod session;
pub mod store;
