//! RV64A: atomic memory operations and load-reserved/store-conditional.
pub mod amo;
pub mod dispatch;
pub mod lr_sc;

pub use amo::{exec_amoadd, exec_amoand, exec_amomax, exec_amomaxu, exec_amomin, exec_amominu, exec_amoor, exec_amoswap, exec_amoxor};
pub use dispatch::{decode_amo, execute_amo_typed};
