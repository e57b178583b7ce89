//! The data-processing executor: the ten ALU operations with their
//! operand-2 computation (rotated immediate or shifted register), the
//! carry-out rules, and the optional flag update.

use vstd::prelude::*;

use crate::barrel_shifter::reg_offset_shift;
use crate::barrel_shifter::ror_result;
use crate::barrel_shifter::rotate_right;
use crate::barrel_shifter::spec_reg_offset_shift;
use crate::em_utilities::BitPos32;
use crate::em_utilities::CPSR;
use crate::em_utilities::CpuState;
use crate::em_utilities::REGISTERS_NO;
use crate::em_utilities::EmulatorError;
use crate::em_utilities::Flag;
use crate::em_utilities::Instruction;
use crate::em_utilities::bit_mask;
use crate::em_utilities::bit_of;
use crate::em_utilities::flag_set_in;
use crate::em_utilities::lemma_bit_of_01;
use crate::em_utilities::lemma_mask_range_4;
use crate::em_utilities::mask_range;
use crate::em_utilities::process_mask;
use crate::em_utilities::with_flag;

verus! {

/// The operand-2 value and shifter carry of a data-processing word: a
/// rotated 8-bit immediate when bit 25 is set, else a shifted register.
/// The immediate form's carry at rotation 0 is 0; the register form
/// hands `c_in` — the C flag in force — through a zero-amount right
/// shift. Nothing is produced when the shifted register names an
/// out-of-range amount.
pub open spec fn spec_dp_operand2(regs: Seq<u32>, code: u32, c_in: u8) -> Option<(u32, u8)> {
    if bit_of(code, 25) == 1 {
        let rot = (mask_range(code, 8, 11) * 2) as u32;
        let val = ror_result(mask_range(code, 0, 7), rot);
        let carry = if rot == 0 {
            0u8
        } else {
            ((val >> 31u32) & 1) as u8
        };
        Some((val, carry))
    } else {
        spec_reg_offset_shift(regs, code, c_in)
    }
}

/// Whether a four-bit opcode belongs to the ten-value table.
pub open spec fn dp_opcode_valid(op: u32) -> bool {
    op == 0 || op == 1 || op == 2 || op == 3 || op == 4 || op == 8 || op == 9 || op == 10 || op
        == 12 || op == 13
}

/// The result, carry bit and write-back decision of one ALU operation:
/// AND 0, EOR 1, SUB 2, RSB 3, ADD 4, TST 8, TEQ 9, CMP 10, ORR 12,
/// MOV 13. The comparison opcodes compute but do not write back; the
/// logical opcodes pass the shifter carry through.
pub open spec fn dp_compute(op: u32, a: u32, b: u32, shifter_carry: u8) -> (u32, u8, bool) {
    if op == 0 {
        (a & b, shifter_carry, true)
    } else if op == 1 {
        (a ^ b, shifter_carry, true)
    } else if op == 2 {
        (a.wrapping_sub(b), if b <= a { 1u8 } else { 0u8 }, true)
    } else if op == 3 {
        (b.wrapping_sub(a), if a <= b { 1u8 } else { 0u8 }, true)
    } else if op == 4 {
        (a.wrapping_add(b), if a + b >= 0x100000000 { 1u8 } else { 0u8 }, true)
    } else if op == 8 {
        (a & b, shifter_carry, false)
    } else if op == 9 {
        (a ^ b, shifter_carry, false)
    } else if op == 10 {
        (a.wrapping_sub(b), if b <= a { 1u8 } else { 0u8 }, false)
    } else if op == 12 {
        (a | b, shifter_carry, true)
    } else {
        (b, shifter_carry, true)
    }
}

/// The CPSR after a flag-setting data-processing instruction: C becomes
/// the carry bit, Z whether the result is zero, N bit 31 of the result;
/// V is left alone.
pub open spec fn apply_dp_flags(cpsr: u32, result: u32, c: u8) -> u32 {
    with_flag(with_flag(with_flag(cpsr, Flag::C, c != 0), Flag::Z, result == 0), Flag::N, bit_of(result, 31) == 1)
}

/// The register file after a data-processing word, or the error it
/// raises: an out-of-range shift amount, or an opcode outside the table.
/// The carry fed into the shifter is the current C flag, so a
/// zero-amount register shift under the S bit leaves C as it was.
pub open spec fn spec_data_proc(regs: Seq<u32>, code: u32) -> Result<Seq<u32>, EmulatorError> {
    let c_in: u8 = if flag_set_in(regs[CPSR as int], Flag::C) {
        1u8
    } else {
        0u8
    };
    match spec_dp_operand2(regs, code, c_in) {
        None => Err(EmulatorError::OutOfRangeBitPosition),
        Some(op2) => {
            let op = mask_range(code, 21, 24);
            if !dp_opcode_valid(op) {
                Err(EmulatorError::BadOpcode)
            } else {
                let a = regs[mask_range(code, 16, 19) as int];
                let rcw = dp_compute(op, a, op2.0, op2.1);
                let written = if rcw.2 {
                    regs.update(mask_range(code, 12, 15) as int, rcw.0)
                } else {
                    regs
                };
                if bit_of(code, 20) == 1 {
                    Ok(written.update(CPSR as int, apply_dp_flags(written[CPSR as int], rcw.0, rcw.1)))
                } else {
                    Ok(written)
                }
            }
        },
    }
}

/// A data-processing word whose S bit is clear leaves the CPSR exactly
/// as it was, whatever else it does.
pub proof fn lemma_no_flag_update_without_s(regs: Seq<u32>, code: u32)
    requires
        regs.len() == REGISTERS_NO,
        bit_of(code, 20) != 1,
        spec_data_proc(regs, code) is Ok,
    ensures
        (spec_data_proc(regs, code)->Ok_0)[CPSR as int] == regs[CPSR as int],
{
    lemma_mask_range_4(code, 12);
}

/// Executes a data-processing instruction: computes operand 2, applies
/// the opcode to operand 1 (bits 19..16) and operand 2, writes the
/// destination register (bits 15..12) unless the opcode only compares,
/// and updates N, Z and C when the S bit (20) is set.
pub fn execute_data_processing_instr(instr: &Instruction, cpu: &mut CpuState) -> (r: Result<
    (),
    EmulatorError,
>)
    requires
        old(cpu).wf(),
    ensures
        final(cpu).wf(),
        final(cpu).memory@ == old(cpu).memory@,
        match spec_data_proc(old(cpu).registers@, instr.code) {
            Ok(regs) => r == Ok::<(), EmulatorError>(()) && final(cpu).registers@ == regs,
            Err(e) => r == Err::<(), EmulatorError>(e) && final(cpu).registers@ == old(
                cpu,
            ).registers@,
        },
{
    let bits = instr.code;
    proof {
        lemma_mask_range_4(bits, 8);
        lemma_mask_range_4(bits, 12);
        lemma_mask_range_4(bits, 16);
        lemma_mask_range_4(bits, 21);
        lemma_bit_of_01(bits, 25);
        lemma_bit_of_01(bits, 20);
    }
    let operand1: u32 = cpu.registers[process_mask(
        bits,
        BitPos32::from_u8(16),
        BitPos32::from_u8(19),
    ) as usize];

    // c_bit is 1 if 1 is to be written to the C bit of the CPSR
    let mut c_bit: u8 = 0;
    let operand2: u32;
    if bit_mask(bits, BitPos32::from_u8(25)) != 0 {
        let rot: u32 = process_mask(bits, BitPos32::from_u8(8), BitPos32::from_u8(11)) * 2;
        operand2 = rotate_right(
            process_mask(bits, BitPos32::from_u8(0), BitPos32::from_u8(7)),
            rot,
        );
        if rot != 0 {
            c_bit = ((operand2 >> 31) & 1) as u8;
        }
    } else {
        // The shifter's carry-in is the C flag in force, which a
        // zero-amount right shift passes through unchanged.
        if cpu.get_flag(Flag::C) {
            c_bit = 1;
        }
        operand2 = match reg_offset_shift(cpu, instr, &mut c_bit) {
            Ok(v) => v,
            Err(e) => {
                return Err(e);
            },
        };
    }

    let opcode: u32 = process_mask(bits, BitPos32::from_u8(21), BitPos32::from_u8(24));

    // will be the computed result that is written into the dest register
    let result: u32;
    // when false the result is NOT written to the dest register
    let mut write_result: bool = true;
    if opcode == 0 {
        result = operand1 & operand2;
    } else if opcode == 1 {
        result = operand1 ^ operand2;
    } else if opcode == 2 {
        result = operand1.wrapping_sub(operand2);
        c_bit = if operand2 <= operand1 {
            1
        } else {
            0
        };
    } else if opcode == 3 {
        result = operand2.wrapping_sub(operand1);
        c_bit = if operand1 <= operand2 {
            1
        } else {
            0
        };
    } else if opcode == 4 {
        result = operand1.wrapping_add(operand2);
        c_bit = if (operand1 as u64) + (operand2 as u64) >= 0x100000000u64 {
            1
        } else {
            0
        };
    } else if opcode == 8 {
        result = operand1 & operand2;
        write_result = false;
    } else if opcode == 9 {
        result = operand1 ^ operand2;
        write_result = false;
    } else if opcode == 10 {
        result = operand1.wrapping_sub(operand2);
        c_bit = if operand2 <= operand1 {
            1
        } else {
            0
        };
        write_result = false;
    } else if opcode == 12 {
        result = operand1 | operand2;
    } else if opcode == 13 {
        result = operand2;
    } else {
        return Err(EmulatorError::BadOpcode);
    }

    if write_result {
        cpu.registers.set(
            process_mask(bits, BitPos32::from_u8(12), BitPos32::from_u8(15)) as usize,
            result,
        );
    }

    if bit_mask(bits, BitPos32::from_u8(20)) != 0 {
        proof {
            lemma_bit_of_01(result, 31);
        }
        cpu.set_CPSR_flag(Flag::C, c_bit != 0);
        cpu.set_CPSR_flag(Flag::Z, result == 0);
        cpu.set_CPSR_flag(Flag::N, bit_mask(result, BitPos32::from_u8(31)) != 0);
        proof {
            let spec_regs = spec_data_proc(old(cpu).registers@, instr.code)->Ok_0;
            assert(cpu.registers@ =~= spec_regs);
        }
    }
    Ok(())
}

} // verus!
