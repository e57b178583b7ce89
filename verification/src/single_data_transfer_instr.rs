//! The single-data-transfer executor: LDR and STR with pre- or post-
//! indexed addressing, an up or down offset, and little-endian words.

use vstd::prelude::*;

use crate::barrel_shifter::reg_offset_shift;
use crate::barrel_shifter::spec_reg_offset_shift;
use crate::em_utilities::BitPos32;
use crate::em_utilities::CpuState;
use crate::em_utilities::EmulatorError;
use crate::em_utilities::Instruction;
use crate::em_utilities::MEMORY_SIZE;
use crate::em_utilities::bit_mask;
use crate::em_utilities::bit_of;
use crate::em_utilities::lemma_bit_of_01;
use crate::em_utilities::lemma_mask_range_4;
use crate::em_utilities::mask_range;
use crate::em_utilities::process_mask;
use crate::em_utilities::store_word_le;
use crate::em_utilities::word_le_at;

verus! {

/// The transfer offset of a single-data-transfer word: the 12-bit
/// immediate field, or a shifted register (carry discarded) when bit 25
/// is set. Nothing is produced when the shifted register names an
/// out-of-range amount.
pub open spec fn spec_sdt_offset(regs: Seq<u32>, code: u32) -> Option<u32> {
    if bit_of(code, 25) == 1 {
        match spec_reg_offset_shift(regs, code, 0) {
            None => None,
            Some(vc) => Some(vc.0),
        }
    } else {
        Some(mask_range(code, 0, 11))
    }
}

/// The register file and memory after a single-data-transfer word, or
/// the error it raises. The effective address is the base register
/// (bits 19..16) offset up or down (bit 23) when pre-indexed (bit 24);
/// post-indexing transfers at the base and writes the moved base back
/// after the transfer. LDR (bit 20 set) loads the little-endian word at
/// the address into the transfer register (bits 15..12); STR stores that
/// register's bytes. An address whose word would cross the end of memory
/// is refused.
pub open spec fn spec_single_data_transfer(regs: Seq<u32>, mem: Seq<u8>, code: u32) -> Result<
    (Seq<u32>, Seq<u8>),
    EmulatorError,
> {
    match spec_sdt_offset(regs, code) {
        None => Err(EmulatorError::OutOfRangeBitPosition),
        Some(offset) => {
            let rn = mask_range(code, 16, 19) as int;
            let rd = mask_range(code, 12, 15) as int;
            let base = regs[rn];
            let moved = if bit_of(code, 23) == 1 {
                base.wrapping_add(offset)
            } else {
                base.wrapping_sub(offset)
            };
            let pre = bit_of(code, 24) == 1;
            let address = if pre {
                moved
            } else {
                base
            };
            if address as int + 3 >= MEMORY_SIZE {
                Err(EmulatorError::OutOfBoundsAccess)
            } else {
                let load = bit_of(code, 20) == 1;
                let transferred = if load {
                    regs.update(rd, word_le_at(mem, address as int))
                } else {
                    regs
                };
                let new_mem = if load {
                    mem
                } else {
                    store_word_le(mem, address as int, regs[rd])
                };
                if pre {
                    Ok((transferred, new_mem))
                } else {
                    Ok((transferred.update(rn, moved), new_mem))
                }
            }
        },
    }
}

/// Executes a single data transfer instruction.
pub fn execute_single_data_instr(instr: &Instruction, cpu: &mut CpuState) -> (r: Result<
    (),
    EmulatorError,
>)
    requires
        old(cpu).wf(),
    ensures
        final(cpu).wf(),
        match spec_single_data_transfer(old(cpu).registers@, old(cpu).memory@, instr.code) {
            Ok(rm) => r == Ok::<(), EmulatorError>(())
                && final(cpu).registers@ == rm.0
                && final(cpu).memory@ == rm.1,
            Err(e) => r == Err::<(), EmulatorError>(e)
                && final(cpu).registers@ == old(cpu).registers@
                && final(cpu).memory@ == old(cpu).memory@,
        },
{
    let bits = instr.code;
    proof {
        lemma_mask_range_4(bits, 16);
        lemma_mask_range_4(bits, 12);
        lemma_bit_of_01(bits, 25);
        lemma_bit_of_01(bits, 24);
        lemma_bit_of_01(bits, 23);
        lemma_bit_of_01(bits, 20);
    }
    let offset: u32 = if bit_mask(bits, BitPos32::from_u8(25)) != 0 {
        // Register shifted offset, as in a data-processing instruction;
        // the carry-out is discarded.
        let mut carry: u8 = 0;
        match reg_offset_shift(cpu, instr, &mut carry) {
            Ok(v) => v,
            Err(e) => {
                return Err(e);
            },
        }
    } else {
        process_mask(bits, BitPos32::from_u8(0), BitPos32::from_u8(11))
    };

    let rn = process_mask(bits, BitPos32::from_u8(16), BitPos32::from_u8(19)) as usize;
    let rd = process_mask(bits, BitPos32::from_u8(12), BitPos32::from_u8(15)) as usize;
    let base: u32 = cpu.registers[rn];
    let moved: u32 = if bit_mask(bits, BitPos32::from_u8(23)) != 0 {
        base.wrapping_add(offset)
    } else {
        base.wrapping_sub(offset)
    };
    let pre: bool = bit_mask(bits, BitPos32::from_u8(24)) != 0;
    let address: u32 = if pre {
        moved
    } else {
        base
    };
    if address > (MEMORY_SIZE as u32) - 4 {
        return Err(EmulatorError::OutOfBoundsAccess);
    }

    if bit_mask(bits, BitPos32::from_u8(20)) != 0 {
        let word: u32 = cpu.fetch(address as usize);
        cpu.registers.set(rd, word);
    } else {
        let reg_val: u32 = cpu.registers[rd];
        cpu.store_le(address as usize, reg_val);
    }
    // Post-indexing writes the moved base back only after the transfer.
    if !pre {
        cpu.registers.set(rn, moved);
    }
    Ok(())
}

} // verus!
