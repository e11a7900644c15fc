//! Opcode statistics hooks of the instruction core. The native interpreter
//! keeps no statistics: each hook leaves everything as it was.
use vstd::prelude::*;

verus! {

/// Counts a JIT exit at `opcode` (kept by no native build).
pub fn record_opstat_jit_exit(opcode: u32) {
}

/// Counts a compiled instance of `opcode` (kept by no native build).
pub fn record_opstat_compiled(opcode: u32) {
}

/// Counts `size` bytes of generated code for `opcode` (kept by no native
/// build).
pub fn record_opstat_size_wasm(opcode: u32, size: u64) {
}

/// Emits the unguarded-register statistic for `opcode` into `builder`:
/// nothing, natively.
pub fn gen_opstat_unguarded_register<T>(builder: &mut T, opcode: u32)
    ensures
        *final(builder) == *old(builder),
{
}

/// Emits the statistics code for `opcode` into `builder`: nothing,
/// natively.
pub fn gen_opstats<T>(builder: &mut T, opcode: u32)
    ensures
        *final(builder) == *old(builder),
{
}

} // verus!
