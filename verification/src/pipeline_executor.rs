//! The pipeline driver: decoding fetched words into categories, ticking
//! the three-stage pipeline, draining it at the halt sentinel, and the
//! small-step machine model that the driver provably follows.

use vstd::prelude::*;

use crate::branch_instr::spec_branch;
use crate::branch_instr::spec_branch_target;
use crate::data_proc_instr::execute_data_processing_instr;
use crate::data_proc_instr::spec_data_proc;
use crate::em_utilities::BitPos32;
use crate::em_utilities::CPSR;
use crate::em_utilities::CpuState;
use crate::em_utilities::EmulatorError;
use crate::em_utilities::Instruction;
use crate::em_utilities::InstructionType;
use crate::em_utilities::MEMORY_SIZE;
use crate::em_utilities::Machine;
use crate::em_utilities::PC;
use crate::em_utilities::Pipe;
use crate::em_utilities::REGISTERS_NO;
use crate::em_utilities::cond_holds;
use crate::em_utilities::flag_code_from_u32;
use crate::em_utilities::lemma_mask_range_4;
use crate::em_utilities::loaded_memory;
use crate::em_utilities::machine_view;
use crate::em_utilities::mask_range;
use crate::em_utilities::process_mask;
use crate::em_utilities::spec_flag_code;
use crate::em_utilities::word_le_at;
use crate::em_utilities::zero_registers;
use crate::multiply_instr::execute_multiply_instruction;
use crate::multiply_instr::spec_multiply;
use crate::single_data_transfer_instr::execute_single_data_instr;
use crate::single_data_transfer_instr::spec_single_data_transfer;
use crate::branch_instr::execute_branch_instr;

verus! {

/// Whether a word is a branch: bits 27..24 are 1010.
pub open spec fn spec_is_branch(bits: u32) -> bool {
    mask_range(bits, 24, 27) == 10
}

/// Whether a word is a multiply: bits 27..22 are zero and bits 7..4 are
/// 1001.
pub open spec fn spec_is_multiply(bits: u32) -> bool {
    mask_range(bits, 22, 27) == 0 && mask_range(bits, 4, 7) == 9
}

/// Whether a word is a single data transfer: bits 27..26 are 01.
pub open spec fn spec_is_single_data_transfer(bits: u32) -> bool {
    mask_range(bits, 26, 27) == 1
}

/// The category of an instruction word; the first match wins.
pub open spec fn decode_type(bits: u32) -> InstructionType {
    if spec_is_branch(bits) {
        InstructionType::BRANCH
    } else if spec_is_multiply(bits) {
        InstructionType::MULTIPLY
    } else if spec_is_single_data_transfer(bits) {
        InstructionType::SINGLE_DATA_TRANSFER
    } else {
        InstructionType::DATA_PROCESS
    }
}

/// A word together with its category.
pub open spec fn spec_decode(bits: u32) -> Instruction {
    Instruction { code: bits, instruction_type: decode_type(bits) }
}

/// Helper that checks one bit field of an instruction word against a
/// target value.
fn instruction_condition(bits: u32, start: u8, end: u8, target: u32) -> (r: bool)
    requires
        start <= end,
        end <= 31,
        end - start < 31,
    ensures
        r == (mask_range(bits, start, end) == target),
{
    process_mask(bits, BitPos32::from_u8(start), BitPos32::from_u8(end)) == target
}

/// Returns whether the given instruction word is of type BRANCH.
fn is_branch_instr(bits: u32) -> (r: bool)
    ensures
        r == spec_is_branch(bits),
{
    instruction_condition(bits, 24, 27, 10)
}

/// Returns whether the given instruction word is of type MULTIPLY.
fn is_multiply_instr(bits: u32) -> (r: bool)
    ensures
        r == spec_is_multiply(bits),
{
    instruction_condition(bits, 22, 27, 0) && instruction_condition(bits, 4, 7, 9)
}

/// Returns whether the given instruction word is of type
/// SINGLE_DATA_TRANSFER.
fn is_single_data_transfer_instr(bits: u32) -> (r: bool)
    ensures
        r == spec_is_single_data_transfer(bits),
{
    instruction_condition(bits, 26, 27, 1)
}

/// Classifies an instruction word into its category.
pub fn decode_instruction(bits: u32) -> (r: Instruction)
    ensures
        r == spec_decode(bits),
{
    let instruction_type: InstructionType;
    if is_branch_instr(bits) {
        instruction_type = InstructionType::BRANCH;
    } else if is_multiply_instr(bits) {
        instruction_type = InstructionType::MULTIPLY;
    } else if is_single_data_transfer_instr(bits) {
        instruction_type = InstructionType::SINGLE_DATA_TRANSFER;
    } else {
        instruction_type = InstructionType::DATA_PROCESS;
    }
    Instruction { code: bits, instruction_type }
}

/// The machine after executing one decoded instruction, together with
/// whether a branch was taken: an unrecognized condition code is a fatal
/// error; a failing condition suppresses the instruction and only
/// vacates the executing slot; otherwise the word's category decides its
/// effect, and every non-branch outcome vacates the executing slot.
pub open spec fn spec_execute_instr(m: Machine, i: Instruction) -> Result<
    (Machine, bool),
    EmulatorError,
> {
    match spec_flag_code(mask_range(i.code, 28, 31)) {
        None => Err(EmulatorError::BadCondition(i.code)),
        Some(fc) => {
            if !cond_holds(m.regs[CPSR as int], fc) {
                Ok((Machine { executing: None, ..m }, false))
            } else {
                match i.instruction_type {
                    InstructionType::BRANCH => spec_branch(m, i.code),
                    InstructionType::DATA_PROCESS => match spec_data_proc(m.regs, i.code) {
                        Ok(regs) => Ok((Machine { regs: regs, executing: None, ..m }, false)),
                        Err(e) => Err(e),
                    },
                    InstructionType::MULTIPLY => Ok(
                        (Machine { regs: spec_multiply(m.regs, i.code), executing: None, ..m }, false),
                    ),
                    InstructionType::SINGLE_DATA_TRANSFER => match spec_single_data_transfer(
                        m.regs,
                        m.mem,
                        i.code,
                    ) {
                        Ok(rm) => Ok(
                            (Machine { regs: rm.0, mem: rm.1, executing: None, ..m }, false),
                        ),
                        Err(e) => Err(e),
                    },
                }
            }
        },
    }
}

/// The machine with its program counter advanced one word.
pub open spec fn bump_pc(m: Machine) -> Machine {
    Machine { regs: m.regs.update(PC as int, m.regs[PC as int].wrapping_add(4)), ..m }
}

/// Draining the decoding slot: execute what it holds, advance the PC one
/// word for the drained slot, and end — unless the drained instruction
/// was a taken branch, in which case the refilled pipeline resumes.
pub open spec fn spec_drain_decoding(m: Machine) -> Result<(Machine, bool), EmulatorError> {
    match m.decoding {
        Some(j) => match spec_execute_instr(m, j) {
            Err(e) => Err(e),
            Ok(mt) => if mt.1 {
                Ok((mt.0, false))
            } else {
                Ok((bump_pc(Machine { decoding: None, ..mt.0 }), true))
            },
        },
        None => Ok((m, true)),
    }
}

/// Draining the whole pipeline once the halt sentinel was fetched: the
/// executing slot first, then the decoding slot, the PC advancing one
/// word per drained slot; a taken branch refills the pipeline and
/// resumes normal ticking instead of ending.
pub open spec fn spec_drain(m: Machine) -> Result<(Machine, bool), EmulatorError> {
    match m.executing {
        Some(i) => match spec_execute_instr(m, i) {
            Err(e) => Err(e),
            Ok(mt) => if mt.1 {
                Ok((mt.0, false))
            } else {
                spec_drain_decoding(bump_pc(mt.0))
            },
        },
        None => spec_drain_decoding(m),
    }
}

/// One tick of the pipeline, returning the next machine and whether the
/// run ended. With a non-zero fetched word the slots shift forward, the
/// fetched word is decoded, the vacating instruction executes, and —
/// save after a taken branch, which has already refilled the pipeline —
/// the word at the PC is fetched and the PC advances. A zero fetched
/// word drains the pipeline instead.
pub open spec fn spec_tick(m: Machine) -> Result<(Machine, bool), EmulatorError> {
    if m.fetching != 0 {
        let shifted = Machine {
            executing: m.decoding,
            decoding: Some(spec_decode(m.fetching)),
            ..m
        };
        let stepped = match shifted.executing {
            Some(i) => spec_execute_instr(shifted, i),
            None => Ok((shifted, false)),
        };
        match stepped {
            Err(e) => Err(e),
            Ok(mt) => {
                if mt.1 {
                    Ok((mt.0, false))
                } else {
                    let pc = mt.0.regs[PC as int];
                    if pc as int + 3 >= MEMORY_SIZE {
                        Err(EmulatorError::OutOfBoundsAccess)
                    } else {
                        Ok(
                            (
                                Machine {
                                    regs: mt.0.regs.update(PC as int, pc.wrapping_add(4)),
                                    fetching: word_le_at(mt.0.mem, pc as int),
                                    ..mt.0
                                },
                                false,
                            ),
                        )
                    }
                }
            },
        }
    } else {
        spec_drain(m)
    }
}

/// Where a run stands after a number of ticks: still running, ended in a
/// drained machine, or stopped by an error.
pub enum RunOutcome {
    Running(Machine),
    Done(Machine),
    Failed(EmulatorError),
}

/// The machine `n` ticks after `m`, stopping early at the tick that ends
/// the run or raises an error.
pub open spec fn spec_steps(m: Machine, n: nat) -> RunOutcome
    decreases n,
{
    if n == 0 {
        RunOutcome::Running(m)
    } else {
        match spec_tick(m) {
            Err(e) => RunOutcome::Failed(e),
            Ok(mt) => if mt.1 {
                RunOutcome::Done(mt.0)
            } else {
                spec_steps(mt.0, (n - 1) as nat)
            },
        }
    }
}

/// A run still going after `n` ticks continues with one more tick of its
/// current machine.
pub proof fn lemma_steps_extend(m: Machine, n: nat, cur: Machine)
    requires
        spec_steps(m, n) == RunOutcome::Running(cur),
    ensures
        spec_steps(m, n + 1) == (match spec_tick(cur) {
            Err(e) => RunOutcome::Failed(e),
            Ok(mt) => if mt.1 {
                RunOutcome::Done(mt.0)
            } else {
                RunOutcome::Running(mt.0)
            },
        }),
    decreases n,
{
    reveal_with_fuel(spec_steps, 3);
    if n == 0 {
    } else {
        match spec_tick(m) {
            Err(_) => {},
            Ok(mt) => {
                if !mt.1 {
                    lemma_steps_extend(mt.0, (n - 1) as nat, cur);
                }
            },
        }
    }
}

/// A run that has ended stays ended under more ticks.
pub proof fn lemma_steps_done_stable(m: Machine, n: nat, k: nat, mf: Machine)
    requires
        spec_steps(m, n) == RunOutcome::Done(mf),
        n <= k,
    ensures
        spec_steps(m, k) == RunOutcome::Done(mf),
    decreases n,
{
    reveal_with_fuel(spec_steps, 3);
    if n == 0 {
    } else {
        match spec_tick(m) {
            Err(_) => {},
            Ok(mt) => {
                if !mt.1 {
                    lemma_steps_done_stable(mt.0, (n - 1) as nat, (k - 1) as nat, mf);
                }
            },
        }
    }
}

/// A run that has failed stays failed under more ticks.
pub proof fn lemma_steps_failed_stable(m: Machine, n: nat, k: nat, e: EmulatorError)
    requires
        spec_steps(m, n) == RunOutcome::Failed(e),
        n <= k,
    ensures
        spec_steps(m, k) == RunOutcome::Failed(e),
    decreases n,
{
    reveal_with_fuel(spec_steps, 3);
    if n == 0 {
    } else {
        match spec_tick(m) {
            Err(_) => {},
            Ok(mt) => {
                if !mt.1 {
                    lemma_steps_failed_stable(mt.0, (n - 1) as nat, (k - 1) as nat, e);
                }
            },
        }
    }
}

/// After a normal tick whose executed instruction is not a branch and
/// names the program counter in neither of its register destination
/// fields (bits 15..12 and 19..16), the program counter stands exactly
/// one word past its previous value.
pub proof fn lemma_pc_advances_by_four(m: Machine, m2: Machine, ended: bool)
    requires
        m.regs.len() == REGISTERS_NO,
        m.fetching != 0,
        spec_tick(m) == Ok::<(Machine, bool), EmulatorError>((m2, ended)),
        match m.decoding {
            Some(i) => i.instruction_type != InstructionType::BRANCH && mask_range(i.code, 12, 15)
                != 15 && mask_range(i.code, 16, 19) != 15,
            None => true,
        },
    ensures
        m2.regs[PC as int] == m.regs[PC as int].wrapping_add(4),
{
    match m.decoding {
        Some(i) => {
            lemma_mask_range_4(i.code, 12);
            lemma_mask_range_4(i.code, 16);
        },
        None => {},
    }
}

/// On a taken branch, the pipeline is left empty, the fetched word is
/// the one at the computed target address, and the program counter
/// stands one word past the target: the instruction executed next is
/// the one at the target.
pub proof fn lemma_taken_branch_retargets(m: Machine, i: Instruction, m2: Machine)
    requires
        m.regs.len() == REGISTERS_NO,
        spec_execute_instr(m, i) == Ok::<(Machine, bool), EmulatorError>((m2, true)),
    ensures
        m2.fetching == word_le_at(m.mem, spec_branch_target(m.regs[PC as int], i.code) as int),
        m2.regs[PC as int] == spec_branch_target(m.regs[PC as int], i.code).wrapping_add(4),
        m2.executing is None,
        m2.decoding is None,
        m2.mem == m.mem,
{
}

/// A freshly refilled pipeline (both slots empty, a word fetched)
/// decodes that word on its next tick; one tick later it is the
/// executing instruction.
pub proof fn lemma_refill_decodes_fetched(m: Machine, m2: Machine, ended: bool)
    requires
        m.executing is None,
        m.decoding is None,
        m.fetching != 0,
        spec_tick(m) == Ok::<(Machine, bool), EmulatorError>((m2, ended)),
    ensures
        m2.decoding == Some(spec_decode(m.fetching)),
{
}

/// A drain whose remaining pipeline slots hold no branch instruction
/// ends the run on that very tick: once the halt word is fetched,
/// execution terminates unless a drained branch is taken.
pub proof fn lemma_drain_without_branch_ends(m: Machine, m2: Machine, ended: bool)
    requires
        m.fetching == 0,
        spec_tick(m) == Ok::<(Machine, bool), EmulatorError>((m2, ended)),
        match m.executing {
            Some(i) => i.instruction_type != InstructionType::BRANCH,
            None => true,
        },
        match m.decoding {
            Some(i) => i.instruction_type != InstructionType::BRANCH,
            None => true,
        },
    ensures
        ended,
{
}

/// Whether an instruction can neither branch, nor touch memory, nor
/// name the program counter in a register destination field: only
/// data-processing and multiply words whose fields 15..12 and 19..16
/// stay clear of register 15 qualify.
pub open spec fn straightline_instr(i: Instruction) -> bool {
    &&& (i.instruction_type == InstructionType::DATA_PROCESS || i.instruction_type
        == InstructionType::MULTIPLY)
    &&& mask_range(i.code, 12, 15) != 15
    &&& mask_range(i.code, 16, 19) != 15
}

/// A word that is either the halt sentinel or a straight-line
/// instruction.
pub open spec fn straightline_word(w: u32) -> bool {
    w == 0 || straightline_instr(spec_decode(w))
}

/// A memory every word of which, at every byte address, is straight-line
/// or the halt sentinel.
pub open spec fn straightline_mem(mem: Seq<u8>) -> bool {
    forall|a: int|
        0 <= a <= mem.len() - 4 ==> straightline_word(#[trigger] word_le_at(mem, a))
}

/// A pipeline slot that is empty or holds a straight-line instruction.
pub open spec fn straightline_slot(s: Option<Instruction>) -> bool {
    match s {
        Some(i) => straightline_instr(i),
        None => true,
    }
}

/// A run of straight-line code cannot go on forever: with no branch to
/// take, no store to rewrite memory and no write to the program counter,
/// the PC climbs one word per tick until a zero word drains the pipeline
/// or a fault stops the run — in any case within one tick per remaining
/// memory word.
pub proof fn lemma_straightline_run_ends(m: Machine, n: nat)
    requires
        m.regs.len() == REGISTERS_NO,
        m.mem.len() == MEMORY_SIZE,
        m.regs[PC as int] <= MEMORY_SIZE,
        straightline_mem(m.mem),
        straightline_slot(m.executing),
        straightline_slot(m.decoding),
        straightline_word(m.fetching),
        4 * n + m.regs[PC as int] >= MEMORY_SIZE + 16,
    ensures
        !(spec_steps(m, n) is Running),
    decreases n,
{
    if n == 0 {
        // The ranking bound would push the PC beyond memory.
        assert(false);
    } else {
        match spec_tick(m) {
            Err(_) => {},
            Ok(mt) => {
                if !mt.1 {
                    if m.fetching == 0 {
                        // A drain of branch-free slots always ends.
                        lemma_drain_without_branch_ends(m, mt.0, mt.1);
                        assert(false);
                    } else {
                        assert(spec_tick(m) == Ok::<(Machine, bool), EmulatorError>(
                            (mt.0, mt.1),
                        ));
                        lemma_pc_advances_by_four(m, mt.0, mt.1);
                        match m.decoding {
                            Some(i) => {
                                lemma_mask_range_4(i.code, 12);
                                lemma_mask_range_4(i.code, 16);
                            },
                            None => {},
                        }
                        lemma_straightline_run_ends(mt.0, (n - 1) as nat);
                    }
                }
            },
        }
    }
}

/// Executes the given decoded instruction, gating it on its condition
/// code and dispatching it to its category's executor.
#[verifier::rlimit(50)]
fn execute_instr(instr: &Instruction, cpu: &mut CpuState, pipe: &mut Pipe) -> (r: Result<
    bool,
    EmulatorError,
>)
    requires
        old(cpu).wf(),
    ensures
        final(cpu).wf(),
        match spec_execute_instr(machine_view(*old(cpu), *old(pipe)), *instr) {
            Ok(mt) => r == Ok::<bool, EmulatorError>(mt.1)
                && machine_view(*final(cpu), *final(pipe)) == mt.0,
            Err(e) => r == Err::<bool, EmulatorError>(e)
                && final(cpu).registers@ == old(cpu).registers@
                && final(cpu).memory@ == old(cpu).memory@
                && *final(pipe) == *old(pipe),
        },
{
    let flag_bits = process_mask(instr.code, BitPos32::from_u8(28), BitPos32::from_u8(31));
    proof {
        lemma_mask_range_4(instr.code, 28);
    }
    let flag_code = match flag_code_from_u32(flag_bits) {
        Some(c) => c,
        // A wrong condition code means the binary image is corrupt.
        None => {
            return Err(EmulatorError::BadCondition(instr.code));
        },
    };
    if !cpu.check_CPSR_cond(flag_code) {
        // Don't execute when the CPSR condition fails; the instruction
        // leaves the pipeline without any effect.
        pipe.clear_executing();
        return Ok(false);
    }

    match instr.instruction_type {
        InstructionType::BRANCH => {
            let r = execute_branch_instr(instr, cpu, pipe);
            proof {
                let m = machine_view(*old(cpu), *old(pipe));
                assert(spec_execute_instr(m, *instr) == spec_branch(m, instr.code));
            }
            r
        },
        InstructionType::DATA_PROCESS => {
            match execute_data_processing_instr(instr, cpu) {
                Ok(_) => {
                    pipe.clear_executing();
                    Ok(false)
                },
                Err(e) => Err(e),
            }
        },
        InstructionType::MULTIPLY => {
            execute_multiply_instruction(instr, cpu);
            pipe.clear_executing();
            Ok(false)
        },
        InstructionType::SINGLE_DATA_TRANSFER => {
            match execute_single_data_instr(instr, cpu) {
                Ok(_) => {
                    pipe.clear_executing();
                    Ok(false)
                },
                Err(e) => Err(e),
            }
        },
    }
}

/// Drains whatever the decoding slot holds, advancing the PC one word
/// for the drained slot; returns whether the run ended.
fn drain_decoding(cpu: &mut CpuState, pipe: &mut Pipe) -> (r: Result<bool, EmulatorError>)
    requires
        old(cpu).wf(),
    ensures
        final(cpu).wf(),
        match spec_drain_decoding(machine_view(*old(cpu), *old(pipe))) {
            Ok(mt) => r == Ok::<bool, EmulatorError>(mt.1)
                && machine_view(*final(cpu), *final(pipe)) == mt.0,
            Err(e) => r == Err::<bool, EmulatorError>(e),
        },
{
    let decoding = pipe.decoding;
    match decoding {
        Some(instr) => {
            let taken = match execute_instr(&instr, cpu, pipe) {
                Ok(t) => t,
                Err(e) => {
                    return Err(e);
                },
            };
            if taken {
                // The drained instruction jumped: the pipeline was
                // refilled and normal ticking resumes.
                return Ok(false);
            }
            pipe.clear_decoding();
            cpu.increment_pc();
            Ok(true)
        },
        None => Ok(true),
    }
}

/// Function that tries to end the pipeline and returns whether it did
/// actually succeed in ending it: the remaining executing slot runs
/// first, then the remaining decoding slot, the PC advancing one word
/// per drained slot; a taken branch resumes the run instead.
fn end_pipeline(cpu: &mut CpuState, pipe: &mut Pipe) -> (r: Result<bool, EmulatorError>)
    requires
        old(cpu).wf(),
    ensures
        final(cpu).wf(),
        match spec_drain(machine_view(*old(cpu), *old(pipe))) {
            Ok(mt) => r == Ok::<bool, EmulatorError>(mt.1)
                && machine_view(*final(cpu), *final(pipe)) == mt.0,
            Err(e) => r == Err::<bool, EmulatorError>(e),
        },
{
    let executing = pipe.executing;
    match executing {
        Some(instr) => {
            let taken = match execute_instr(&instr, cpu, pipe) {
                Ok(t) => t,
                Err(e) => {
                    return Err(e);
                },
            };
            if taken {
                return Ok(false);
            }
            cpu.increment_pc();
            drain_decoding(cpu, pipe)
        },
        None => drain_decoding(cpu, pipe),
    }
}

/// The machine as it stands when the pipeline is first primed: PC one
/// word ahead, empty slots, and the word at address 0 fetched.
pub open spec fn spec_init_machine(regs: Seq<u32>, mem: Seq<u8>) -> Machine {
    Machine {
        regs: regs.update(PC as int, regs[PC as int].wrapping_add(4)),
        mem: mem,
        executing: None,
        decoding: None,
        fetching: word_le_at(mem, 0),
    }
}

/// Runs the pipeline from the given CPU for at most `max_ticks` ticks.
/// Returns `Ok(true)` when the run ended within the budget, leaving the
/// CPU in the drained machine's state; `Ok(false)` when the budget ran
/// out first; and the error of the tick that failed otherwise.
#[verifier::rlimit(100)]
pub fn start_pipeline(cpu: &mut CpuState, max_ticks: u64) -> (r: Result<bool, EmulatorError>)
    requires
        old(cpu).wf(),
    ensures
        final(cpu).wf(),
        match spec_steps(
            spec_init_machine(old(cpu).registers@, old(cpu).memory@),
            max_ticks as nat,
        ) {
            RunOutcome::Done(mf) => r == Ok::<bool, EmulatorError>(true)
                && final(cpu).registers@ == mf.regs
                && final(cpu).memory@ == mf.mem,
            RunOutcome::Running(mc) => r == Ok::<bool, EmulatorError>(false)
                && final(cpu).registers@ == mc.regs
                && final(cpu).memory@ == mc.mem,
            RunOutcome::Failed(e) => r == Err::<bool, EmulatorError>(e),
        },
{
    let ghost regs0 = cpu.registers@;
    let ghost mem0 = cpu.memory@;
    let mut pipe = Pipe::init(cpu);
    let ghost m0 = spec_init_machine(regs0, mem0);
    proof {
        assert(machine_view(*cpu, pipe) =~= m0);
    }
    let mut ticks: u64 = 0;
    while ticks < max_ticks
        invariant
            cpu.wf(),
            ticks <= max_ticks,
            m0 == spec_init_machine(old(cpu).registers@, old(cpu).memory@),
            spec_steps(m0, ticks as nat) == RunOutcome::Running(machine_view(*cpu, pipe)),
        decreases max_ticks - ticks,
    {
        let ghost m_before = machine_view(*cpu, pipe);
        if pipe.fetching != 0 {
            // Move the previous decoding slot to executing and decode the
            // word just fetched.
            pipe.executing = pipe.decoding;
            pipe.decoding = Some(decode_instruction(pipe.fetching));
            let executing = pipe.executing;
            let taken: bool = match executing {
                Some(instr) => {
                    match execute_instr(&instr, cpu, &mut pipe) {
                        Ok(t) => t,
                        Err(e) => {
                            proof {
                                lemma_steps_extend(m0, ticks as nat, m_before);
                                lemma_steps_failed_stable(
                                    m0,
                                    (ticks + 1) as nat,
                                    max_ticks as nat,
                                    e,
                                );
                            }
                            return Err(e);
                        },
                    }
                },
                None => false,
            };
            if !taken {
                let pc = cpu.pc();
                if pc > (MEMORY_SIZE as u32) - 4 {
                    proof {
                        lemma_steps_extend(m0, ticks as nat, m_before);
                        lemma_steps_failed_stable(
                            m0,
                            (ticks + 1) as nat,
                            max_ticks as nat,
                            EmulatorError::OutOfBoundsAccess,
                        );
                    }
                    return Err(EmulatorError::OutOfBoundsAccess);
                }
                let word = cpu.fetch(pc as usize);
                pipe.set_fetching(word);
                cpu.increment_pc();
            }
            proof {
                lemma_steps_extend(m0, ticks as nat, m_before);
                let mt = spec_tick(m_before)->Ok_0;
                assert(machine_view(*cpu, pipe) =~= mt.0);
            }
            ticks = ticks + 1;
        } else {
            match end_pipeline(cpu, &mut pipe) {
                Ok(ended) => {
                    proof {
                        lemma_steps_extend(m0, ticks as nat, m_before);
                    }
                    if ended {
                        proof {
                            let mf = spec_tick(m_before)->Ok_0.0;
                            lemma_steps_done_stable(m0, (ticks + 1) as nat, max_ticks as nat, mf);
                        }
                        return Ok(true);
                    }
                    ticks = ticks + 1;
                },
                Err(e) => {
                    proof {
                        lemma_steps_extend(m0, ticks as nat, m_before);
                        lemma_steps_failed_stable(m0, (ticks + 1) as nat, max_ticks as nat, e);
                    }
                    return Err(e);
                },
            }
        }
    }
    Ok(false)
}

/// Runs the emulator on a binary image for at most `max_ticks` pipeline
/// ticks, handing back the CPU as the drained machine left it. A
/// malformed image, a fatal instruction, and an exhausted tick budget
/// each give their error.
pub fn emulate(image: &Vec<u8>, max_ticks: u64) -> (r: Result<CpuState, EmulatorError>)
    ensures
        image@.len() % 4 != 0 ==> r == Err::<CpuState, EmulatorError>(
            EmulatorError::MisalignedImage,
        ),
        image@.len() == 0 ==> r == Err::<CpuState, EmulatorError>(EmulatorError::EmptyImage),
        image@.len() % 4 == 0 && image@.len() > MEMORY_SIZE ==> r == Err::<CpuState, EmulatorError>(
            EmulatorError::ImageTooLarge,
        ),
        image@.len() % 4 == 0 && 0 < image@.len() <= MEMORY_SIZE ==> (match spec_steps(
            spec_init_machine(zero_registers(), loaded_memory(image@)),
            max_ticks as nat,
        ) {
            RunOutcome::Done(mf) => r matches Ok(cpu) && cpu.wf() && cpu.registers@ == mf.regs
                && cpu.memory@ == mf.mem,
            RunOutcome::Running(mc) => r == Err::<CpuState, EmulatorError>(
                EmulatorError::TickLimitReached,
            ),
            RunOutcome::Failed(e) => r == Err::<CpuState, EmulatorError>(e),
        }),
{
    let mut cpu = match CpuState::init(image) {
        Ok(c) => c,
        Err(e) => {
            return Err(e);
        },
    };
    match start_pipeline(&mut cpu, max_ticks) {
        Ok(true) => Ok(cpu),
        Ok(false) => Err(EmulatorError::TickLimitReached),
        Err(e) => Err(e),
    }
}

} // verus!
