//! RV64I FENCE.
//!
//! This simulator runs one hart against synchronous, in-order memory with
//! no caches or store buffers: every memory effect is visible before the
//! next instruction issues.  FENCE therefore has nothing to order and is a
//! no-op; its reserved `rs1`/`rd` fields are ignored.
use vstd::prelude::*;
use crate::cpu::CoreState;
use crate::decode::DecodedInstruction;
use crate::execute::ExecuteError;
use crate::memory::SimpleMemory;

verus! {

/// What `exec_fence` leaves in the state and the memory, and what it returns.
pub open spec fn fence_post(
    instr: DecodedInstruction,
    s0: CoreState,
    s1: CoreState,
    m0: SimpleMemory,
    m1: SimpleMemory,
    r: Result<(), ExecuteError>,
) -> bool {
    &&& r is Ok
    &&& s1 == s0
    &&& m1 == m0
}

/// Executes FENCE: changes no register, no memory and not the pc.
pub fn exec_fence(_instr: &DecodedInstruction, _state: &mut CoreState, _mem: &mut SimpleMemory) -> (r:
    Result<(), ExecuteError>)
    ensures
        fence_post(*_instr, *old(_state), *final(_state), *old(_mem), *final(_mem), r),
{
    Ok(())
}

} // verus!
