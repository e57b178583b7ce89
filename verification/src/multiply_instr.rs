//! The multiply executor: multiply and multiply-accumulate modulo 2^32,
//! with the optional N and Z flag update.

use vstd::prelude::*;

use crate::em_utilities::BitPos32;
use crate::em_utilities::CPSR;
use crate::em_utilities::CpuState;
use crate::em_utilities::Flag;
use crate::em_utilities::Instruction;
use crate::em_utilities::bit_mask;
use crate::em_utilities::bit_of;
use crate::em_utilities::lemma_bit_of_01;
use crate::em_utilities::lemma_mask_range_4;
use crate::em_utilities::mask_range;
use crate::em_utilities::process_mask;
use crate::em_utilities::with_flag;

verus! {

/// The register file after a multiply word: the destination (bits 19..16)
/// receives Rm * Rs, plus Rn when the accumulate bit (21) is set, all
/// modulo 2^32; when the S bit (20) is set, N becomes bit 31 of the
/// result and Z whether it is zero.
pub open spec fn spec_multiply(regs: Seq<u32>, code: u32) -> Seq<u32> {
    let product = regs[mask_range(code, 0, 3) as int].wrapping_mul(
        regs[mask_range(code, 8, 11) as int],
    );
    let result = if bit_of(code, 21) == 1 {
        product.wrapping_add(regs[mask_range(code, 12, 15) as int])
    } else {
        product
    };
    let written = regs.update(mask_range(code, 16, 19) as int, result);
    if bit_of(code, 20) == 1 {
        written.update(
            CPSR as int,
            with_flag(
                with_flag(written[CPSR as int], Flag::N, bit_of(result, 31) == 1),
                Flag::Z,
                result == 0,
            ),
        )
    } else {
        written
    }
}

/// Executes a multiply instruction.
pub fn execute_multiply_instruction(instr: &Instruction, cpu: &mut CpuState)
    requires
        old(cpu).wf(),
    ensures
        final(cpu).wf(),
        final(cpu).memory@ == old(cpu).memory@,
        final(cpu).registers@ == spec_multiply(old(cpu).registers@, instr.code),
{
    let bits = instr.code;
    proof {
        lemma_mask_range_4(bits, 0);
        lemma_mask_range_4(bits, 8);
        lemma_mask_range_4(bits, 12);
        lemma_mask_range_4(bits, 16);
        lemma_bit_of_01(bits, 21);
        lemma_bit_of_01(bits, 20);
    }
    let rm = process_mask(bits, BitPos32::from_u8(0), BitPos32::from_u8(3)) as usize;
    let rs = process_mask(bits, BitPos32::from_u8(8), BitPos32::from_u8(11)) as usize;
    let mut result: u32 = cpu.registers[rm].wrapping_mul(cpu.registers[rs]);

    if bit_mask(bits, BitPos32::from_u8(21)) != 0 {
        let rn = process_mask(bits, BitPos32::from_u8(12), BitPos32::from_u8(15)) as usize;
        result = result.wrapping_add(cpu.registers[rn]);
    }

    let rd = process_mask(bits, BitPos32::from_u8(16), BitPos32::from_u8(19)) as usize;
    cpu.registers.set(rd, result);

    if bit_mask(bits, BitPos32::from_u8(20)) != 0 {
        proof {
            lemma_bit_of_01(result, 31);
        }
        cpu.set_CPSR_flag(Flag::N, bit_mask(result, BitPos32::from_u8(31)) != 0);
        cpu.set_CPSR_flag(Flag::Z, result == 0);
        proof {
            assert(cpu.registers@ =~= spec_multiply(old(cpu).registers@, instr.code));
        }
    }
}

} // verus!
