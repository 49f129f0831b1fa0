//! Compressed no-operation encodings: C.NOP and the C.ADDI hints.
use vstd::prelude::*;
use crate::cpu::CoreState;
use crate::execute::ExecuteError;

verus! {

/// C.NOP: changes nothing.
pub fn exec_c_nop(_state: &mut CoreState) -> (r: Result<(), ExecuteError>)
    ensures
        r is Ok,
        *final(_state) == *old(_state),
{
    Ok(())
}

/// A C.ADDI hint (`rd = x0`): changes nothing.
pub fn exec_c_addi_hint(imm: u32, _state: &mut CoreState) -> (r: Result<(), ExecuteError>)
    ensures
        r is Ok,
        *final(_state) == *old(_state),
{
    Ok(())
}

} // verus!
