//! Shared machinery of the emulator: the CPU state (registers, memory,
//! status flags), the pipeline record, bit-field helpers, and the error type.

use vstd::prelude::*;

verus! {

/// Number of registers in the register file.
pub const REGISTERS_NO: usize = 17;

/// Size of the byte-addressable memory.
pub const MEMORY_SIZE: usize = 65536;

/// Register index of the program counter.
pub const PC: usize = 15;

/// Register index of the current program status register.
pub const CPSR: usize = 16;

/// Largest valid bit index of a 32-bit word.
pub const MAX_BIT_INDEX: u8 = 31;

/// The status flags of the processor, stored in CPSR bits 31 (N),
/// 30 (Z), 29 (C) and 28 (V).
#[derive(Clone, Copy, Debug, PartialEq, Eq, Structural)]
pub enum Flag {
    N,
    Z,
    C,
    V,
}

/// The four instruction categories the decoder distinguishes.
#[allow(non_camel_case_types)]
#[derive(Clone, Copy, Debug, PartialEq, Eq, Structural)]
pub enum InstructionType {
    DATA_PROCESS,
    MULTIPLY,
    SINGLE_DATA_TRANSFER,
    BRANCH,
}

/// A decoded instruction: the raw 32-bit word and its category.
#[derive(Clone, Copy, Debug, PartialEq, Eq, Structural)]
pub struct Instruction {
    pub code: u32,
    pub instruction_type: InstructionType,
}

/// The condition codes found in bits 31..28 of every instruction.
#[derive(Clone, Copy, Debug, PartialEq, Eq, Structural)]
pub enum FlagCode {
    EQ,
    NE,
    GE,
    LT,
    GT,
    LE,
    AL,
}

/// Everything that can go wrong while loading an image or emulating it.
#[derive(Clone, Copy, Debug, PartialEq, Eq, Structural)]
pub enum EmulatorError {
    /// The image's byte length is not divisible by 4.
    MisalignedImage,
    /// The image holds no instruction words at all.
    EmptyImage,
    /// The image does not fit into the 65,536-byte memory.
    ImageTooLarge,
    /// An executing instruction carries a condition code outside the
    /// recognized set; the offending instruction word is carried along.
    BadCondition(u32),
    /// A data-processing instruction carries an opcode outside the
    /// ten-value table.
    BadOpcode,
    /// A shift was requested whose amount would address a bit position
    /// beyond 31.
    OutOfRangeBitPosition,
    /// A transfer or fetch would touch bytes beyond the end of memory.
    OutOfBoundsAccess,
    /// The pipeline was still running when the caller's tick budget ran
    /// out.
    TickLimitReached,
}

/// A position of a bit inside a 32-bit word; the constructor refuses
/// positions beyond 31.
pub enum BitPos32 {
    Pos(u8),
}

impl BitPos32 {
    /// The bit position as a mathematical value.
    pub open spec fn value(self) -> u8 {
        match self {
            BitPos32::Pos(p) => p,
        }
    }

    /// Wraps a bit position; only positions up to 31 are meaningful.
    pub fn from_u8(pos: u8) -> (r: Self)
        requires
            pos <= MAX_BIT_INDEX,
        ensures
            r.value() == pos,
    {
        BitPos32::Pos(pos)
    }

    /// Unwraps the position.
    pub fn to_u8(&self) -> (r: u8)
        ensures
            r == self.value(),
    {
        match self {
            BitPos32::Pos(p) => *p,
        }
    }
}

/// The bits of `n` from `start` to `end` (both inclusive), shifted down to
/// the least-significant end.
pub open spec fn mask_range(n: u32, start: u8, end: u8) -> u32 {
    (n >> (start as u32)) & (((1u32 << ((end - start + 1) as u32)) - 1) as u32)
}

/// Bit `pos` of `n`, as 0 or 1.
pub open spec fn bit_of(n: u32, pos: u8) -> u32 {
    (n >> (pos as u32)) & 1
}

/// Gives back the bits from `start_pos` until `end_pos` (both inclusive),
/// shifted to the right.
pub fn process_mask(n: u32, start_pos: BitPos32, end_pos: BitPos32) -> (r: u32)
    requires
        start_pos.value() <= end_pos.value(),
        end_pos.value() <= MAX_BIT_INDEX,
        end_pos.value() - start_pos.value() < 31,
    ensures
        r == mask_range(n, start_pos.value(), end_pos.value()),
{
    let end_pos: u8 = end_pos.to_u8();
    let start_pos: u8 = start_pos.to_u8();
    let width: u8 = end_pos - start_pos + 1;
    proof {
        assert(width <= 31 ==> 1u32 << (width as u32) >= 1) by (bit_vector);
    }
    let mask: u32 = (1u32 << (width as u32)) - 1;
    (n >> (start_pos as u32)) & mask
}

/// Whether the given bit of `n` is set, as 0 or 1.
pub fn bit_mask(n: u32, pos: BitPos32) -> (r: u32)
    requires
        pos.value() <= MAX_BIT_INDEX,
    ensures
        r == bit_of(n, pos.value()),
{
    (n >> (pos.to_u8() as u32)) & 1
}

/// A two-bit field is below 4.
pub proof fn lemma_mask_range_2(n: u32, s: u8)
    by (bit_vector)
    requires
        s <= 30,
    ensures
        mask_range(n, s, (s + 1) as u8) < 4,
{
}

/// A four-bit field is below 16.
pub proof fn lemma_mask_range_4(n: u32, s: u8)
    by (bit_vector)
    requires
        s <= 28,
    ensures
        mask_range(n, s, (s + 3) as u8) < 16,
{
}

/// A five-bit field is below 32.
pub proof fn lemma_mask_range_5(n: u32, s: u8)
    by (bit_vector)
    requires
        s <= 27,
    ensures
        mask_range(n, s, (s + 4) as u8) < 32,
{
}

/// An eight-bit field is below 256.
pub proof fn lemma_mask_range_8(n: u32, s: u8)
    by (bit_vector)
    requires
        s <= 24,
    ensures
        mask_range(n, s, (s + 7) as u8) < 256,
{
}

/// A single bit is 0 or 1.
pub proof fn lemma_bit_of_01(n: u32, p: u8)
    by (bit_vector)
    ensures
        bit_of(n, p) == 0 || bit_of(n, p) == 1,
{
}

/// The CPSR bit position that carries the given flag.
pub open spec fn flag_shift(flag: Flag) -> u32 {
    match flag {
        Flag::N => 31u32,
        Flag::Z => 30u32,
        Flag::C => 29u32,
        Flag::V => 28u32,
    }
}

/// Whether the given flag is set in a CPSR value.
pub open spec fn flag_set_in(cpsr: u32, flag: Flag) -> bool {
    cpsr & (1u32 << flag_shift(flag)) != 0
}

/// The CPSR value after writing one flag.
pub open spec fn with_flag(cpsr: u32, flag: Flag, set: bool) -> u32 {
    if set {
        cpsr | (1u32 << flag_shift(flag))
    } else {
        cpsr & !(1u32 << flag_shift(flag))
    }
}

/// The truth table of the condition codes against a CPSR value.
pub open spec fn cond_holds(cpsr: u32, code: FlagCode) -> bool {
    match code {
        FlagCode::EQ => flag_set_in(cpsr, Flag::Z),
        FlagCode::NE => !flag_set_in(cpsr, Flag::Z),
        FlagCode::GE => flag_set_in(cpsr, Flag::N) == flag_set_in(cpsr, Flag::V),
        FlagCode::LT => flag_set_in(cpsr, Flag::N) != flag_set_in(cpsr, Flag::V),
        FlagCode::GT => !flag_set_in(cpsr, Flag::Z) && (flag_set_in(cpsr, Flag::N) == flag_set_in(
            cpsr,
            Flag::V,
        )),
        FlagCode::LE => flag_set_in(cpsr, Flag::Z) || (flag_set_in(cpsr, Flag::N) != flag_set_in(
            cpsr,
            Flag::V,
        )),
        FlagCode::AL => true,
    }
}

/// The condition code denoted by a 4-bit field, if any.
pub open spec fn spec_flag_code(code: u32) -> Option<FlagCode> {
    if code == 0 {
        Some(FlagCode::EQ)
    } else if code == 1 {
        Some(FlagCode::NE)
    } else if code == 10 {
        Some(FlagCode::GE)
    } else if code == 11 {
        Some(FlagCode::LT)
    } else if code == 12 {
        Some(FlagCode::GT)
    } else if code == 13 {
        Some(FlagCode::LE)
    } else if code == 14 {
        Some(FlagCode::AL)
    } else {
        None
    }
}

/// Maps a 4-bit condition field to its condition code; any value outside
/// the enumerated set is refused.
pub fn flag_code_from_u32(code: u32) -> (r: Option<FlagCode>)
    ensures
        r == spec_flag_code(code),
{
    if code == 0 {
        Some(FlagCode::EQ)
    } else if code == 1 {
        Some(FlagCode::NE)
    } else if code == 10 {
        Some(FlagCode::GE)
    } else if code == 11 {
        Some(FlagCode::LT)
    } else if code == 12 {
        Some(FlagCode::GT)
    } else if code == 13 {
        Some(FlagCode::LE)
    } else if code == 14 {
        Some(FlagCode::AL)
    } else {
        None
    }
}

/// The register file at power-on: all seventeen registers zero.
pub open spec fn zero_registers() -> Seq<u32> {
    Seq::new(REGISTERS_NO as nat, |i: int| 0u32)
}

/// The memory after loading an image at address 0: the image's bytes,
/// then zeroes to the end of memory.
pub open spec fn loaded_memory(image: Seq<u8>) -> Seq<u8> {
    Seq::new(
        MEMORY_SIZE as nat,
        |i: int|
            if i < image.len() {
                image[i]
            } else {
                0u8
            },
    )
}

/// The little-endian 32-bit word formed by the four bytes of `mem`
/// starting at address `a`.
pub open spec fn word_le_at(mem: Seq<u8>, a: int) -> u32 {
    (mem[a] as u32) | ((mem[a + 1] as u32) << 8u32) | ((mem[a + 2] as u32) << 16u32) | ((mem[a + 3]
        as u32) << 24u32)
}

/// The big-endian 32-bit word formed by the four bytes of `mem`
/// starting at address `a`.
pub open spec fn word_be_at(mem: Seq<u8>, a: int) -> u32 {
    ((mem[a] as u32) << 24u32) | ((mem[a + 1] as u32) << 16u32) | ((mem[a + 2] as u32) << 8u32) | (
    mem[a + 3] as u32)
}

/// The memory after storing the four little-endian bytes of `v` at
/// address `a`.
pub open spec fn store_word_le(mem: Seq<u8>, a: int, v: u32) -> Seq<u8> {
    mem.update(a, mask_range(v, 0, 7) as u8).update(a + 1, mask_range(v, 8, 15) as u8).update(
        a + 2,
        mask_range(v, 16, 23) as u8,
    ).update(a + 3, mask_range(v, 24, 31) as u8)
}

/// Loading a word back from the address it was just stored to yields the
/// stored value: a store followed by a load at the same address is the
/// identity on the register value.
pub proof fn lemma_store_load_round_trip(mem: Seq<u8>, a: int, v: u32)
    requires
        0 <= a,
        a + 3 < mem.len(),
    ensures
        word_le_at(store_word_le(mem, a, v), a) == v,
{
    let stored = store_word_le(mem, a, v);
    assert(stored[a] == mask_range(v, 0, 7) as u8);
    assert(stored[a + 1] == mask_range(v, 8, 15) as u8);
    assert(stored[a + 2] == mask_range(v, 16, 23) as u8);
    assert(stored[a + 3] == mask_range(v, 24, 31) as u8);
    assert((mask_range(v, 0, 7) as u8 as u32) | ((mask_range(v, 8, 15) as u8 as u32) << 8u32) | ((
    mask_range(v, 16, 23) as u8 as u32) << 16u32) | ((mask_range(v, 24, 31) as u8 as u32)
        << 24u32) == v) by (bit_vector);
}

/// The pipeline record: two decoded slots and the raw word fetched last.
/// A `fetching` value of zero means that the halt sentinel was fetched
/// and the pipeline is to drain.
#[derive(Debug)]
pub struct Pipe {
    pub executing: Option<Instruction>,
    pub decoding: Option<Instruction>,
    pub fetching: u32,
}

impl Pipe {
    /// Primes the pipeline: advances the program counter past the first
    /// word and fetches that word from address 0.
    pub fn init(cpu: &mut CpuState) -> (r: Self)
        requires
            old(cpu).wf(),
        ensures
            final(cpu).wf(),
            final(cpu).registers@ == old(cpu).registers@.update(
                PC as int,
                old(cpu).registers@[PC as int].wrapping_add(4),
            ),
            final(cpu).memory@ == old(cpu).memory@,
            r.executing is None,
            r.decoding is None,
            r.fetching == word_le_at(old(cpu).memory@, 0),
    {
        cpu.increment_pc();
        Self { executing: None, decoding: None, fetching: cpu.fetch(0) }
    }

    pub fn clear_executing(&mut self)
        ensures
            final(self).executing is None,
            final(self).decoding == old(self).decoding,
            final(self).fetching == old(self).fetching,
    {
        self.executing = None;
    }

    pub fn clear_decoding(&mut self)
        ensures
            final(self).executing == old(self).executing,
            final(self).decoding is None,
            final(self).fetching == old(self).fetching,
    {
        self.decoding = None;
    }

    pub fn clear_fetching(&mut self)
        ensures
            final(self).executing == old(self).executing,
            final(self).decoding == old(self).decoding,
            final(self).fetching == 0u32,
    {
        self.fetching = 0;
    }

    pub fn set_fetching(&mut self, code: u32)
        ensures
            final(self).executing == old(self).executing,
            final(self).decoding == old(self).decoding,
            final(self).fetching == code,
    {
        self.fetching = code;
    }

    pub fn clear(&mut self)
        ensures
            final(self).executing is None,
            final(self).decoding is None,
            final(self).fetching == 0u32,
    {
        self.executing = None;
        self.decoding = None;
        self.fetching = 0;
    }
}

/// A mathematical view of the whole machine: the register file, the
/// memory, and the three pipeline slots.
#[verifier::ext_equal]
pub struct Machine {
    pub regs: Seq<u32>,
    pub mem: Seq<u8>,
    pub executing: Option<Instruction>,
    pub decoding: Option<Instruction>,
    pub fetching: u32,
}

/// The machine state a CPU and a pipeline present together.
pub open spec fn machine_view(cpu: CpuState, pipe: Pipe) -> Machine {
    Machine {
        regs: cpu.registers@,
        mem: cpu.memory@,
        executing: pipe.executing,
        decoding: pipe.decoding,
        fetching: pipe.fetching,
    }
}

/// The processor state: 17 registers and 65,536 bytes of memory.
#[derive(Debug, PartialEq)]
pub struct CpuState {
    pub registers: Vec<u32>,
    pub memory: Vec<u8>,
}

impl CpuState {
    /// Well-formedness: the register file and the memory have their fixed
    /// sizes, and the reserved low 28 bits of the CPSR are clear.
    pub open spec fn wf(self) -> bool {
        &&& self.registers@.len() == REGISTERS_NO
        &&& self.memory@.len() == MEMORY_SIZE
        &&& self.registers@[CPSR as int] & 0x0FFFFFFFu32 == 0
    }

    /// Builds a CPU whose memory starts with the given image and is zero
    /// beyond it, with all registers zero. The image must consist of a
    /// positive number of whole 32-bit words and fit into memory.
    pub fn init(image: &Vec<u8>) -> (r: Result<Self, EmulatorError>)
        ensures
            image@.len() % 4 != 0 ==> r == Err::<Self, EmulatorError>(
                EmulatorError::MisalignedImage,
            ),
            image@.len() == 0 ==> r == Err::<Self, EmulatorError>(EmulatorError::EmptyImage),
            image@.len() % 4 == 0 && image@.len() > MEMORY_SIZE ==> r == Err::<Self, EmulatorError>(
                EmulatorError::ImageTooLarge,
            ),
            image@.len() % 4 == 0 && 0 < image@.len() <= MEMORY_SIZE ==> (r matches Ok(cpu) && {
                &&& cpu.wf()
                &&& cpu.registers@ == zero_registers()
                &&& cpu.memory@ == loaded_memory(image@)
            }),
    {
        if image.len() % 4 != 0 {
            return Err(EmulatorError::MisalignedImage);
        }
        if image.len() == 0 {
            return Err(EmulatorError::EmptyImage);
        }
        if image.len() > MEMORY_SIZE {
            return Err(EmulatorError::ImageTooLarge);
        }
        let mut registers: Vec<u32> = Vec::new();
        let mut i: usize = 0;
        while i < REGISTERS_NO
            invariant
                i <= REGISTERS_NO,
                registers@.len() == i,
                forall|j: int| 0 <= j < i ==> registers@[j] == 0u32,
            decreases REGISTERS_NO - i,
        {
            registers.push(0);
            i += 1;
        }
        let mut memory: Vec<u8> = Vec::new();
        let mut i: usize = 0;
        while i < image.len()
            invariant
                i <= image@.len(),
                memory@.len() == i,
                forall|j: int| 0 <= j < i ==> memory@[j] == image@[j],
            decreases image@.len() - i,
        {
            memory.push(image[i]);
            i += 1;
        }
        while i < MEMORY_SIZE
            invariant
                image@.len() <= i <= MEMORY_SIZE,
                memory@.len() == i,
                forall|j: int| 0 <= j < image@.len() ==> memory@[j] == image@[j],
                forall|j: int| image@.len() <= j < i ==> memory@[j] == 0u8,
            decreases MEMORY_SIZE - i,
        {
            memory.push(0);
            i += 1;
        }
        proof {
            assert(registers@ =~= zero_registers());
            assert(memory@ =~= loaded_memory(image@));
            assert(0u32 & 0x0FFFFFFFu32 == 0) by (bit_vector);
        }
        Ok(Self { registers, memory })
    }

    /// Reads the big-endian word at byte address `ptr`.
    pub fn fetch_big_endian(&self, ptr: usize) -> (r: u32)
        requires
            self.wf(),
            ptr + 3 < MEMORY_SIZE,
        ensures
            r == word_be_at(self.memory@, ptr as int),
    {
        self.index_big_endian(ptr)
    }

    /// Reads the little-endian word at byte address `ptr`.
    pub fn fetch(&self, ptr: usize) -> (r: u32)
        requires
            self.wf(),
            ptr + 3 < MEMORY_SIZE,
        ensures
            r == word_le_at(self.memory@, ptr as int),
    {
        self.index_little_endian(ptr)
    }

    fn index_little_endian(&self, ptr: usize) -> (r: u32)
        requires
            self.wf(),
            ptr + 3 < MEMORY_SIZE,
        ensures
            r == word_le_at(self.memory@, ptr as int),
    {
        self.memory[ptr] as u32 | (self.memory[ptr + 1] as u32) << 8u32 | (self.memory[ptr + 2]
            as u32) << 16u32 | (self.memory[ptr + 3] as u32) << 24u32
    }

    fn index_big_endian(&self, ptr: usize) -> (r: u32)
        requires
            self.wf(),
            ptr + 3 < MEMORY_SIZE,
        ensures
            r == word_be_at(self.memory@, ptr as int),
    {
        (self.memory[ptr] as u32) << 24u32 | (self.memory[ptr + 1] as u32) << 16u32 | (self.memory[
            ptr + 2] as u32) << 8u32 | (self.memory[ptr + 3] as u32)
    }

    /// Writes the four bytes of `word` in little-endian order at
    /// `addr..addr + 3`.
    pub fn store_le(&mut self, addr: usize, word: u32)
        requires
            old(self).wf(),
            addr + 3 < MEMORY_SIZE,
        ensures
            final(self).wf(),
            final(self).registers@ == old(self).registers@,
            final(self).memory@ == store_word_le(old(self).memory@, addr as int, word),
    {
        proof {
            lemma_mask_range_8(word, 0);
            lemma_mask_range_8(word, 8);
            lemma_mask_range_8(word, 16);
            lemma_mask_range_8(word, 24);
        }
        self.memory.set(addr, process_mask(word, BitPos32::from_u8(0), BitPos32::from_u8(7)) as u8);
        self.memory.set(
            addr + 1,
            process_mask(word, BitPos32::from_u8(8), BitPos32::from_u8(15)) as u8,
        );
        self.memory.set(
            addr + 2,
            process_mask(word, BitPos32::from_u8(16), BitPos32::from_u8(23)) as u8,
        );
        self.memory.set(
            addr + 3,
            process_mask(word, BitPos32::from_u8(24), BitPos32::from_u8(31)) as u8,
        );
    }

    /// The current program counter.
    pub fn pc(&self) -> (r: u32)
        requires
            self.wf(),
        ensures
            r == self.registers@[PC as int],
    {
        self.registers[PC]
    }

    /// The current program status register.
    pub fn cpsr(&self) -> (r: u32)
        requires
            self.wf(),
        ensures
            r == self.registers@[CPSR as int],
    {
        self.registers[CPSR]
    }

    /// Writes one CPSR flag, leaving every other bit alone.
    #[allow(non_snake_case)]
    pub fn set_CPSR_flag(&mut self, flag: Flag, set: bool)
        requires
            old(self).wf(),
        ensures
            final(self).wf(),
            final(self).registers@ == old(self).registers@.update(
                CPSR as int,
                with_flag(old(self).registers@[CPSR as int], flag, set),
            ),
            final(self).memory@ == old(self).memory@,
    {
        let shift: u32 = match flag {
            Flag::N => 31,
            Flag::Z => 30,
            Flag::C => 29,
            Flag::V => 28,
        };
        let mask: u32 = 1u32 << shift;
        let cur: u32 = self.cpsr();
        let newv: u32 = if set {
            cur | mask
        } else {
            cur & !mask
        };
        proof {
            let c = self.registers@[CPSR as int];
            assert((c & 0x0FFFFFFFu32 == 0 && 28 <= shift <= 31) ==> ((c | (1u32 << shift))
                & 0x0FFFFFFFu32 == 0 && (c & !(1u32 << shift)) & 0x0FFFFFFFu32 == 0))
                by (bit_vector);
        }
        self.registers.set(CPSR, newv);
    }

    /// Reads one CPSR flag.
    pub fn get_flag(&self, flag: Flag) -> (r: bool)
        requires
            self.wf(),
        ensures
            r == flag_set_in(self.registers@[CPSR as int], flag),
    {
        let shift: u32 = match flag {
            Flag::N => 31,
            Flag::Z => 30,
            Flag::C => 29,
            Flag::V => 28,
        };
        let mask: u32 = 1u32 << shift;
        (self.registers[CPSR] & mask) != 0
    }

    /// Evaluates a condition code against the CPSR, exactly as tabulated:
    /// EQ iff Z; NE iff not Z; GE iff N = V; LT iff N differs from V;
    /// GT iff not Z and N = V; LE iff Z or N differs from V; AL always.
    #[allow(non_snake_case)]
    pub fn check_CPSR_cond(&self, flag_code: FlagCode) -> (r: bool)
        requires
            self.wf(),
        ensures
            r == cond_holds(self.registers@[CPSR as int], flag_code),
    {
        match flag_code {
            FlagCode::EQ => self.get_flag(Flag::Z),
            FlagCode::NE => !self.get_flag(Flag::Z),
            FlagCode::GE => self.get_flag(Flag::N) == self.get_flag(Flag::V),
            FlagCode::LT => self.get_flag(Flag::N) != self.get_flag(Flag::V),
            FlagCode::GT => !self.get_flag(Flag::Z) && (self.get_flag(Flag::N) == self.get_flag(
                Flag::V,
            )),
            FlagCode::LE => self.get_flag(Flag::Z) || (self.get_flag(Flag::N) != self.get_flag(
                Flag::V,
            )),
            FlagCode::AL => true,
        }
    }

    /// Advances the program counter to the next instruction word.
    pub fn increment_pc(&mut self)
        requires
            old(self).wf(),
        ensures
            final(self).wf(),
            final(self).registers@ == old(self).registers@.update(
                PC as int,
                old(self).registers@[PC as int].wrapping_add(4),
            ),
            final(self).memory@ == old(self).memory@,
    {
        let v: u32 = self.registers[PC].wrapping_add(4);
        self.registers.set(PC, v);
    }

    /// Moves the program counter by a signed byte offset, wrapping at the
    /// 32-bit boundary.
    pub fn offset_pc(&mut self, offset: i32)
        requires
            old(self).wf(),
        ensures
            final(self).wf(),
            final(self).registers@ == old(self).registers@.update(
                PC as int,
                old(self).registers@[PC as int].wrapping_add_signed(offset),
            ),
            final(self).memory@ == old(self).memory@,
    {
        let v: u32 = self.registers[PC].wrapping_add_signed(offset);
        self.registers.set(PC, v);
    }
}

} // verus!
