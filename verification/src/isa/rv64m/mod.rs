//! RV64M: integer multiplication.
pub mod mul;

pub use mul::{exec_mul, exec_mulh, exec_mulhsu, exec_mulhu};
