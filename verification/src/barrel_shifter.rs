//! The barrel shifter: LSL, LSR, ASR and ROR over 32-bit words, in the
//! immediate-amount and register-amount forms, together with the carry-out
//! bit that flag-setting instructions consume.

use vstd::prelude::*;

use crate::em_utilities::BitPos32;
use crate::em_utilities::CpuState;
use crate::em_utilities::EmulatorError;
use crate::em_utilities::Instruction;
use crate::em_utilities::bit_mask;
use crate::em_utilities::bit_of;
use crate::em_utilities::lemma_bit_of_01;
use crate::em_utilities::lemma_mask_range_2;
use crate::em_utilities::lemma_mask_range_4;
use crate::em_utilities::lemma_mask_range_5;
use crate::em_utilities::mask_range;
use crate::em_utilities::process_mask;

verus! {

/// The four shift operations of the barrel shifter.
#[derive(Clone, Copy, Debug, PartialEq, Eq, Structural)]
pub enum ShiftOp {
    LSL,
    LSR,
    ASR,
    ROR,
}

/// The shift operation denoted by a two-bit field; values beyond 3 do not
/// arise from a two-bit mask and fall to ROR.
pub open spec fn shift_op_of(v: u32) -> ShiftOp {
    if v == 0 {
        ShiftOp::LSL
    } else if v == 1 {
        ShiftOp::LSR
    } else if v == 2 {
        ShiftOp::ASR
    } else {
        ShiftOp::ROR
    }
}

/// Maps a shift-type field to its operation; values beyond 3 are refused.
pub fn shift_op_from_u32(v: u32) -> (r: Option<ShiftOp>)
    ensures
        v <= 3 ==> r == Some(shift_op_of(v)),
        v > 3 ==> r is None,
{
    if v == 0 {
        Some(ShiftOp::LSL)
    } else if v == 1 {
        Some(ShiftOp::LSR)
    } else if v == 2 {
        Some(ShiftOp::ASR)
    } else if v == 3 {
        Some(ShiftOp::ROR)
    } else {
        None
    }
}

/// Logical shift left.
pub open spec fn lsl_result(x: u32, n: u32) -> u32 {
    x << n
}

/// Carry out of a logical shift left: the bit shifted out last, or 0 when
/// nothing is shifted.
pub open spec fn lsl_carry(x: u32, n: u32) -> u8 {
    if n == 0 {
        0u8
    } else {
        ((x >> ((32 - n) as u32)) & 1) as u8
    }
}

/// Logical shift right.
pub open spec fn lsr_result(x: u32, n: u32) -> u32 {
    x >> n
}

/// Carry out of a right shift or rotation: bit `n - 1` of the operand, or
/// the previous carry when the amount is zero.
pub open spec fn right_shift_carry(x: u32, n: u32, c_in: u8) -> u8 {
    if n == 0 {
        c_in
    } else {
        ((x >> ((n - 1) as u32)) & 1) as u8
    }
}

/// Arithmetic shift right: the sign bit is replicated into the vacated
/// positions.
pub open spec fn asr_result(x: u32, n: u32) -> u32 {
    if (x & 0x80000000u32) != 0 {
        (x >> n) | !(0xFFFFFFFFu32 >> n)
    } else {
        x >> n
    }
}

/// Rotation right within 32 bits; an amount of zero is the identity.
pub open spec fn ror_result(x: u32, n: u32) -> u32 {
    if n == 0 {
        x
    } else {
        (x >> n) | (x << ((32 - n) as u32))
    }
}

/// The value a shift operation produces.
pub open spec fn shift_result(op: ShiftOp, x: u32, n: u32) -> u32 {
    match op {
        ShiftOp::LSL => lsl_result(x, n),
        ShiftOp::LSR => lsr_result(x, n),
        ShiftOp::ASR => asr_result(x, n),
        ShiftOp::ROR => ror_result(x, n),
    }
}

/// The carry bit a shift operation produces, given the carry that was in
/// force before it.
pub open spec fn shift_carry(op: ShiftOp, x: u32, n: u32, c_in: u8) -> u8 {
    match op {
        ShiftOp::LSL => lsl_carry(x, n),
        ShiftOp::LSR => right_shift_carry(x, n, c_in),
        ShiftOp::ASR => right_shift_carry(x, n, c_in),
        ShiftOp::ROR => right_shift_carry(x, n, c_in),
    }
}

/// Rotating right by `n` and then by `32 - n` reconstructs the original
/// word, for any rotation amount from 1 to 31.
pub proof fn lemma_rotate_right_involution(x: u32, n: u32)
    by (bit_vector)
    requires
        1 <= n < 32,
    ensures
        ror_result(ror_result(x, n), (32 - n) as u32) == x,
{
}

/// Rotates `operand` right by `rotate_amount` bit positions within 32 bits.
pub fn rotate_right(operand: u32, rotate_amount: u32) -> (r: u32)
    requires
        rotate_amount < 32,
    ensures
        r == ror_result(operand, rotate_amount),
{
    if rotate_amount == 0 {
        return operand;
    }
    (operand >> rotate_amount) | (operand << (32 - rotate_amount))
}

/// Shifts `operand` right by `shift_amount`, replicating the sign bit into
/// the vacated positions.
pub fn arithmetic_shift_right(operand: u32, shift_amount: u32) -> (r: u32)
    requires
        shift_amount < 32,
    ensures
        r == asr_result(operand, shift_amount),
{
    if (operand & 0x80000000u32) != 0 {
        (operand >> shift_amount) | !(0xFFFFFFFFu32 >> shift_amount)
    } else {
        operand >> shift_amount
    }
}

/// Applies one shift operation, writing the carry-out into `c_bit`. An
/// amount of zero leaves the carry alone for the right shifts and clears
/// it for LSL.
fn execute_shift(operand: u32, shift_amount: u32, shift_opcode: ShiftOp, c_bit: &mut u8) -> (r: u32)
    requires
        shift_amount < 32,
    ensures
        r == shift_result(shift_opcode, operand, shift_amount),
        *final(c_bit) == shift_carry(shift_opcode, operand, shift_amount, *old(c_bit)),
{
    match shift_opcode {
        ShiftOp::LSL => {
            if shift_amount == 0 {
                *c_bit = 0;
            } else {
                *c_bit = ((operand >> (32 - shift_amount)) & 1) as u8;
            }
            operand << shift_amount
        },
        ShiftOp::LSR => {
            if shift_amount != 0 {
                *c_bit = ((operand >> (shift_amount - 1)) & 1) as u8;
            }
            operand >> shift_amount
        },
        ShiftOp::ASR => {
            if shift_amount != 0 {
                *c_bit = ((operand >> (shift_amount - 1)) & 1) as u8;
            }
            arithmetic_shift_right(operand, shift_amount)
        },
        ShiftOp::ROR => {
            if shift_amount != 0 {
                *c_bit = ((operand >> (shift_amount - 1)) & 1) as u8;
            }
            rotate_right(operand, shift_amount)
        },
    }
}

/// The operand-2 field interpreted as a shifted register: the value and
/// the carry-out, or nothing when the register-held shift amount reaches
/// a bit position beyond 31.
pub open spec fn spec_reg_offset_shift(regs: Seq<u32>, code: u32, c_in: u8) -> Option<(u32, u8)> {
    let x = regs[mask_range(code, 0, 3) as int];
    let op = shift_op_of(mask_range(code, 5, 6));
    let n = if bit_of(code, 4) == 1 {
        regs[mask_range(code, 8, 11) as int] & 0xFFu32
    } else {
        mask_range(code, 7, 11)
    };
    if n >= 32 {
        None
    } else {
        Some((shift_result(op, x, n), shift_carry(op, x, n, c_in)))
    }
}

/// Computes a shifted-register operand 2 from the instruction word: bits
/// 3..0 name the register to shift, bits 6..5 the shift type, and bit 4
/// selects between a five-bit constant amount (bits 11..7) and the low
/// byte of a register (bits 11..8). The carry-out lands in `c_bit`; a
/// register-held amount of 32 or more is refused.
pub fn reg_offset_shift(cpu: &CpuState, instr: &Instruction, c_bit: &mut u8) -> (r: Result<
    u32,
    EmulatorError,
>)
    requires
        cpu.wf(),
    ensures
        match spec_reg_offset_shift(cpu.registers@, instr.code, *old(c_bit)) {
            Some(vc) => r == Ok::<u32, EmulatorError>(vc.0) && *final(c_bit) == vc.1,
            None => r == Err::<u32, EmulatorError>(EmulatorError::OutOfRangeBitPosition)
                && *final(c_bit) == *old(c_bit),
        },
{
    let bits = instr.code;
    proof {
        lemma_mask_range_4(bits, 0);
        lemma_mask_range_2(bits, 5);
        lemma_mask_range_4(bits, 8);
        lemma_mask_range_5(bits, 7);
        lemma_bit_of_01(bits, 4);
    }
    let rm = process_mask(bits, BitPos32::from_u8(0), BitPos32::from_u8(3));
    let reg_contents: u32 = cpu.registers[rm as usize];
    let shift_type = process_mask(bits, BitPos32::from_u8(5), BitPos32::from_u8(6));
    let shift_op = match shift_op_from_u32(shift_type) {
        Some(op) => op,
        None => {
            proof {
                assert(false);
            }
            ShiftOp::LSL
        },
    };
    let amount: u32 = if bit_mask(bits, BitPos32::from_u8(4)) != 0 {
        let rs = process_mask(bits, BitPos32::from_u8(8), BitPos32::from_u8(11));
        cpu.registers[rs as usize] & 0xFF
    } else {
        process_mask(bits, BitPos32::from_u8(7), BitPos32::from_u8(11))
    };
    if amount >= 32 {
        return Err(EmulatorError::OutOfRangeBitPosition);
    }
    Ok(execute_shift(reg_contents, amount, shift_op, c_bit))
}

} // verus!
