//! The branch executor: PC-relative jumps with a sign-extended 26-bit
//! displacement, pipeline flush and refill on a taken branch.

use vstd::prelude::*;

use crate::em_utilities::BitPos32;
use crate::em_utilities::CpuState;
use crate::em_utilities::EmulatorError;
use crate::em_utilities::Instruction;
use crate::em_utilities::MEMORY_SIZE;
use crate::em_utilities::Machine;
use crate::em_utilities::PC;
use crate::em_utilities::CPSR;
use crate::em_utilities::Pipe;
use crate::em_utilities::bit_mask;
use crate::em_utilities::bit_of;
use crate::em_utilities::cond_holds;
use crate::em_utilities::flag_code_from_u32;
use crate::em_utilities::lemma_bit_of_01;
use crate::em_utilities::lemma_mask_range_4;
use crate::em_utilities::machine_view;
use crate::em_utilities::mask_range;
use crate::em_utilities::process_mask;
use crate::em_utilities::spec_flag_code;
use crate::em_utilities::word_le_at;

verus! {

/// The branch displacement as an unsigned 32-bit word: bits 23..0
/// shifted left by two and sign-extended from bit 25. Adding it with
/// wrap-around is the same as adding the signed displacement.
pub open spec fn spec_branch_offset(code: u32) -> u32 {
    let off = mask_range(code, 0, 23) << 2u32;
    if bit_of(off, 25) == 1 {
        off | 0xFC000000u32
    } else {
        off
    }
}

/// The address a branch word transfers control to, from the PC value in
/// force while it executes (two words past its own address).
pub open spec fn spec_branch_target(pc: u32, code: u32) -> u32 {
    pc.wrapping_add(spec_branch_offset(code))
}

/// Adding the two's-complement reading of a word is the same as adding
/// the word itself with wrap-around.
pub proof fn lemma_add_signed_is_add_unsigned(a: u32, b: u32)
    by (bit_vector)
    ensures
        a.wrapping_add_signed(b as i32) == a.wrapping_add(b),
{
}

/// The machine after a branch word, or the error it raises. A branch
/// whose condition fails only vacates the executing slot; a taken branch
/// repoints the PC at the target, empties all three slots, fetches the
/// target word and advances the PC past it. A target whose word would
/// cross the end of memory is refused, as is an unrecognized condition.
pub open spec fn spec_branch(m: Machine, code: u32) -> Result<(Machine, bool), EmulatorError> {
    match spec_flag_code(mask_range(code, 28, 31)) {
        None => Err(EmulatorError::BadCondition(code)),
        Some(fc) => {
            if !cond_holds(m.regs[CPSR as int], fc) {
                Ok((Machine { executing: None, ..m }, false))
            } else {
                let target = spec_branch_target(m.regs[PC as int], code);
                if target as int + 3 >= MEMORY_SIZE {
                    Err(EmulatorError::OutOfBoundsAccess)
                } else {
                    Ok(
                        (
                            Machine {
                                regs: m.regs.update(PC as int, target.wrapping_add(4)),
                                mem: m.mem,
                                executing: None,
                                decoding: None,
                                fetching: word_le_at(m.mem, target as int),
                            },
                            true,
                        ),
                    )
                }
            }
        },
    }
}

/// Executes a branch instruction, returning whether the jump was taken.
pub fn execute_branch_instr(instr: &Instruction, cpu: &mut CpuState, pipe: &mut Pipe) -> (r: Result<
    bool,
    EmulatorError,
>)
    requires
        old(cpu).wf(),
    ensures
        final(cpu).wf(),
        match spec_branch(machine_view(*old(cpu), *old(pipe)), instr.code) {
            Ok(mt) => r == Ok::<bool, EmulatorError>(mt.1)
                && machine_view(*final(cpu), *final(pipe)) == mt.0,
            Err(e) => r == Err::<bool, EmulatorError>(e)
                && final(cpu).registers@ == old(cpu).registers@
                && final(cpu).memory@ == old(cpu).memory@
                && *final(pipe) == *old(pipe),
        },
{
    let condition = process_mask(instr.code, BitPos32::from_u8(28), BitPos32::from_u8(31));
    proof {
        lemma_mask_range_4(instr.code, 28);
    }
    let fc = match flag_code_from_u32(condition) {
        Some(c) => c,
        None => {
            return Err(EmulatorError::BadCondition(instr.code));
        },
    };

    if !cpu.check_CPSR_cond(fc) {
        // Failed jump condition: not jumping, clearing the current branch
        // instruction from the pipe.
        pipe.clear_executing();
        proof {
            let m2 = spec_branch(machine_view(*old(cpu), *old(pipe)), instr.code)->Ok_0.0;
            assert(machine_view(*cpu, *pipe) =~= m2);
        }
        return Ok(false);
    }

    // The displacement from bits 23..0, word-aligned and sign-extended.
    let mut offset: u32 = process_mask(instr.code, BitPos32::from_u8(0), BitPos32::from_u8(23))
        << 2u32;
    proof {
        lemma_bit_of_01(offset, 25);
    }
    if bit_mask(offset, BitPos32::from_u8(25)) != 0 {
        offset = offset | 0xFC000000;
    }

    let target: u32 = cpu.pc().wrapping_add(offset);
    if target > (MEMORY_SIZE as u32) - 4 {
        return Err(EmulatorError::OutOfBoundsAccess);
    }
    proof {
        lemma_add_signed_is_add_unsigned(old(cpu).registers@[PC as int], offset);
    }
    cpu.offset_pc(#[verifier::truncate] (offset as i32));
    pipe.clear();
    let new_pc = cpu.pc();
    pipe.set_fetching(cpu.fetch(new_pc as usize));
    cpu.increment_pc();
    proof {
        let m2 = spec_branch(machine_view(*old(cpu), *old(pipe)), instr.code)->Ok_0.0;
        assert(cpu.registers@ =~= m2.regs);
        assert(machine_view(*cpu, *pipe) =~= m2);
    }
    Ok(true)
}

} // verus!
