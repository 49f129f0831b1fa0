//! Instruction semantics by extension.
pub mod rv64a;
pub mod rv64c;
pub mod rv64d;
pub mod rv64i;
pub mod rv64m;
