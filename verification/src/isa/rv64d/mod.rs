//! RV64D double-precision comparisons.
pub mod compare;

pub use compare::{exec_feq_d, exec_fle_d, exec_flt_d};
