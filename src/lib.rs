//! Network allow-list enforcement for a traced process tree.
//!
//! The library holds the decisions of the tracer: which tracee a wait
//! notification belongs to and what to do with it, how a connection's
//! destination is decoded from the words of a traced process's memory, how
//! it is written as text, and whether the policy lets it through.

pub mod regs;
pub mod text;
pub mod sockaddr;
pub mod memory;
pub mod profile;
pub mod tracker;
pub mod session;
