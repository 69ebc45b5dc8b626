//! Counts executed instructions, block by block.
use vstd::prelude::*;

use crate::event::EventType;
use crate::statistics::Statistics;

verus! {

/// The callback that a translated block gets.
#[derive(Debug, Clone, Copy, PartialEq, Eq, Structural)]
pub enum InstructionCallback {
    /// Count this many instructions in user mode.
    User(usize),
    /// Count this many instructions in kernel mode.
    Kernel(usize),
}

/// Whether an address lies in the upper half of the address space, that of the
/// kernel.
pub open spec fn is_kernel_address(pc: u64) -> bool {
    pc >= 0x8000_0000_0000_0000
}

/// Chooses the callback of a block of `size` instructions by the address of its
/// first instruction.
pub fn on_translation_instructions(pc: u64, size: usize) -> (callback: InstructionCallback)
    ensures
        callback == if is_kernel_address(pc) {
            InstructionCallback::Kernel(size)
        } else {
            InstructionCallback::User(size)
        },
        pc < 0x8000_0000_0000_0000 ==> callback == InstructionCallback::User(size),
        pc >= 0x8000_0000_0000_0000 ==> callback == InstructionCallback::Kernel(size),
{
    assert(pc & 0x8000_0000_0000_0000 == 0 <==> pc < 0x8000_0000_0000_0000) by (bit_vector);
    if pc & 0x8000_0000_0000_0000 == 0 {
        InstructionCallback::User(size)
    } else {
        InstructionCallback::Kernel(size)
    }
}

/// Counts a block of `size` instructions that a core executed in user mode.
pub fn user_vcpu_insn_exec(global: &mut Statistics, vcpu_idx: u32, size: u64)
    requires
        old(global).wf(),
        old(global).accepts(vcpu_idx, EventType::Instruction, false, size),
    ensures
        final(global).wf(),
        final(global).parameters() == old(global).parameters(),
        final(global)@ == crate::statistics::after_record(
            old(global).parameters(),
            old(global)@,
            vcpu_idx as int,
            EventType::Instruction,
            false,
            size,
        ),
{
    Statistics::global_record_by(global, vcpu_idx, EventType::Instruction, false, size);
}

/// Counts a block of `size` instructions that a core executed in kernel mode.
pub fn kernel_vcpu_insn_exec(global: &mut Statistics, vcpu_idx: u32, size: u64)
    requires
        old(global).wf(),
        old(global).accepts(vcpu_idx, EventType::Instruction, true, size),
    ensures
        final(global).wf(),
        final(global).parameters() == old(global).parameters(),
        final(global)@ == crate::statistics::after_record(
            old(global).parameters(),
            old(global)@,
            vcpu_idx as int,
            EventType::Instruction,
            true,
            size,
        ),
{
    Statistics::global_record_by(global, vcpu_idx, EventType::Instruction, true, size);
}

/// The highest bit of an address alone tells kernel from user: addresses with the
/// bit set are kernel addresses, so that the address space falls into two halves.
pub proof fn law_highest_bit_tells_the_mode(pc: u64, other: u64)
    ensures
        is_kernel_address(pc) <==> pc & 0x8000_0000_0000_0000 != 0,
        is_kernel_address(pc) <==> !is_kernel_address(!pc),
        is_kernel_address(pc) && pc <= other ==> is_kernel_address(other),
        pc >> 63 == other >> 63 ==> is_kernel_address(pc) == is_kernel_address(other),
{
    assert(pc & 0x8000_0000_0000_0000 != 0 <==> pc >= 0x8000_0000_0000_0000) by (bit_vector);
    assert(pc >= 0x8000_0000_0000_0000 <==> !pc < 0x8000_0000_0000_0000) by (bit_vector);
    assert(pc >> 63 == other >> 63 ==> (pc >= 0x8000_0000_0000_0000 <==> other
        >= 0x8000_0000_0000_0000)) by (bit_vector);
}

} // verus!
