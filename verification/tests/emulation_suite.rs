//! End-to-end emulation runs: each test feeds the emulator a binary image
//! of little-endian instruction words and checks the final register file
//! and memory.

use arm_emu::em_utilities::CpuState;
use arm_emu::pipeline_executor::emulate;

const PC: usize = 15;
const CPSR: usize = 16;

/// Encodes instruction words as a little-endian byte image.
fn image_from_words(words: &[u32]) -> Vec<u8> {
    let mut bytes: Vec<u8> = Vec::new();
    for w in words {
        bytes.push((*w & 0xFF) as u8);
        bytes.push(((*w >> 8) & 0xFF) as u8);
        bytes.push(((*w >> 16) & 0xFF) as u8);
        bytes.push(((*w >> 24) & 0xFF) as u8);
    }
    bytes
}

/// Runs an image to its halt and hands back the CPU.
fn run(words: &[u32]) -> CpuState {
    let image = image_from_words(words);
    emulate(&image, 100_000_000).unwrap()
}

/// Asserts that the registers match: zero everywhere except the listed
/// (index, value) pairs.
fn registers_eq(cpu: &CpuState, specials: &[(usize, u32)]) {
    assert!(
        cpu.registers.len() == 17,
        "Expect length of exactly 17 for the registers"
    );
    let mut expected: Vec<u32> = vec![0; 17];
    for (ind, val) in specials {
        expected[*ind] = *val;
    }
    for (ind, &elem) in cpu.registers.iter().enumerate() {
        assert!(
            elem == expected[ind],
            "Register mismatch at index: {}, expected: {}, found: {}",
            ind,
            expected[ind],
            elem
        );
    }
}

/// Asserts the big-endian words read back from the listed memory
/// addresses.
fn memory_eq(cpu: &CpuState, expected: &[(usize, u32)]) {
    for (ptr, want) in expected {
        let got = cpu.fetch_big_endian(*ptr);
        assert!(
            got == *want,
            "Mismatch on memory at 0x{:x}, expected: 0x{:x}, found: 0x{:x}",
            ptr,
            want,
            got
        );
    }
}

#[test]
fn add01() {
    let cpu = run(&[0xe3a01001, 0xe2812002]);
    registers_eq(&cpu, &[(1, 1), (2, 3), (PC, 16), (CPSR, 0)]);
    memory_eq(&cpu, &[(0, 0x0110a0e3), (4, 0x022081e2)]);
}

#[test]
fn add02() {
    let cpu = run(&[0xe3a01001, 0xe3a02002, 0xe0813002]);
    registers_eq(&cpu, &[(1, 1), (2, 2), (3, 3), (PC, 20), (CPSR, 0)]);
    memory_eq(&cpu, &[(0, 0x0110a0e3), (4, 0x0220a0e3), (8, 0x023081e0)]);
}

#[test]
fn add03() {
    let cpu = run(&[0xe3a01001, 0xe0811001]);
    registers_eq(&cpu, &[(1, 2), (PC, 16), (CPSR, 0)]);
    memory_eq(&cpu, &[(0, 0x0110a0e3), (4, 0x011081e0)]);
}

#[test]
fn add04() {
    let cpu = run(&[0xe3a01001, 0xe3a02002, 0xe0813002, 0xe2834004]);
    registers_eq(&cpu, &[(1, 1), (2, 2), (3, 3), (4, 7), (PC, 24), (CPSR, 0)]);
    memory_eq(
        &cpu,
        &[(0, 0x0110a0e3), (4, 0x0220a0e3), (8, 0x023081e0), (0xc, 0x044083e2)],
    );
}

#[test]
fn and01() {
    let cpu = run(&[0xe3a010ff, 0xe20120ab]);
    registers_eq(&cpu, &[(1, 255), (2, 171), (PC, 16), (CPSR, 0)]);
    memory_eq(&cpu, &[(0, 0xff10a0e3), (4, 0xab2001e2)]);
}

#[test]
fn and02() {
    let cpu = run(&[0xe3a0100f, 0xe3a020ab, 0xe0013002]);
    registers_eq(&cpu, &[(1, 15), (2, 171), (3, 11), (PC, 20), (CPSR, 0)]);
    memory_eq(&cpu, &[(0, 0x0f10a0e3), (4, 0xab20a0e3), (8, 0x023001e0)]);
}

#[test]
fn b01() {
    let cpu = run(&[0xe3a01001, 0xea000000, 0xe3a02002, 0xe3a03003]);
    registers_eq(&cpu, &[(1, 1), (3, 3), (PC, 24)]);
    memory_eq(
        &cpu,
        &[(0, 0x0110a0e3), (4, 0x000000ea), (8, 0x0220a0e3), (0xc, 0x0330a0e3)],
    );
}

#[test]
fn beq01() {
    let cpu = run(&[0xe3a01001, 0xe3a02001, 0xe1510002, 0x0a000000, 0xe3a03003, 0xe3a04004]);
    registers_eq(&cpu, &[(1, 1), (2, 1), (4, 4), (PC, 32), (CPSR, 0x60000000)]);
    memory_eq(
        &cpu,
        &[
            (0, 0x0110a0e3),
            (4, 0x0120a0e3),
            (8, 0x020051e1),
            (0xc, 0x0000000a),
            (0x10, 0x0330a0e3),
            (0x14, 0x0440a0e3),
        ],
    );
}

#[test]
fn beq02() {
    let cpu = run(&[0xe3a01001, 0xe3a02002, 0xe1510002, 0x0a000000, 0xe3a03003, 0xe3a04004]);
    registers_eq(
        &cpu,
        &[(1, 1), (2, 2), (3, 3), (4, 4), (PC, 32), (CPSR, 0x80000000)],
    );
    memory_eq(
        &cpu,
        &[
            (0, 0x0110a0e3),
            (4, 0x0220a0e3),
            (8, 0x020051e1),
            (0xc, 0x0000000a),
            (0x10, 0x0330a0e3),
            (0x14, 0x0440a0e3),
        ],
    );
}

#[test]
fn bne01() {
    let cpu = run(&[0xe3a01001, 0xe3a02001, 0xe1510002, 0x1a000000, 0xe3a03003, 0xe3a04004]);
    registers_eq(
        &cpu,
        &[(1, 1), (2, 1), (3, 3), (4, 4), (PC, 32), (CPSR, 0x60000000)],
    );
    memory_eq(
        &cpu,
        &[
            (0, 0x0110a0e3),
            (4, 0x0120a0e3),
            (8, 0x020051e1),
            (0xc, 0x0000001a),
            (0x10, 0x0330a0e3),
            (0x14, 0x0440a0e3),
        ],
    );
}

#[test]
fn bne02() {
    let cpu = run(&[0xe3a01001, 0xe3a02002, 0xe1510002, 0x1a000000, 0xe3a03003, 0xe3a04004]);
    registers_eq(&cpu, &[(1, 1), (2, 2), (4, 4), (PC, 32), (CPSR, 0x80000000)]);
    memory_eq(
        &cpu,
        &[
            (0, 0x0110a0e3),
            (4, 0x0220a0e3),
            (8, 0x020051e1),
            (0xc, 0x0000001a),
            (0x10, 0x0330a0e3),
            (0x14, 0x0440a0e3),
        ],
    );
}

#[test]
fn eor01() {
    let cpu = run(&[0xe3a0100f, 0xe3a020ff, 0xe0213002]);
    registers_eq(&cpu, &[(1, 15), (2, 0xff), (3, 0xf0), (PC, 20)]);
    memory_eq(&cpu, &[(0, 0x0f10a0e3), (4, 0xff20a0e3), (8, 0x023021e0)]);
}

#[test]
fn eor02() {
    let cpu = run(&[0xe3a010ff, 0xe221200f]);
    registers_eq(&cpu, &[(1, 0xff), (2, 0xf0), (PC, 16)]);
    memory_eq(&cpu, &[(0, 0xff10a0e3), (4, 0x0f2021e2)]);
}

#[test]
fn factorial() {
    let cpu = run(&[
        0xe3a00001, 0xe3a01005, 0xe0020091, 0xe1a00002, 0xe2411001, 0xe3510000, 0x1afffffa,
        0xe3a03c01, 0xe5832000,
    ]);
    registers_eq(
        &cpu,
        &[(0, 120), (2, 120), (3, 0x100), (PC, 0x2c), (CPSR, 0x60000000)],
    );
    memory_eq(
        &cpu,
        &[
            (0, 0x0100a0e3),
            (4, 0x0510a0e3),
            (8, 0x910002e0),
            (0xc, 0x0200a0e1),
            (0x10, 0x011041e2),
            (0x14, 0x000051e3),
            (0x18, 0xfaffff1a),
            (0x1c, 0x013ca0e3),
            (0x20, 0x002083e5),
            (0x100, 0x78000000),
        ],
    );
}

#[test]
fn ldr01() {
    let cpu = run(&[0xe3a00002, 0xe5902000, 0xe1520000]);
    registers_eq(&cpu, &[(0, 2), (2, 0x2000e3a0), (PC, 20), (CPSR, 0x20000000)]);
    memory_eq(&cpu, &[(0, 0x0200a0e3), (4, 0x002090e5), (8, 0x000052e1)]);
}

#[test]
fn ldr02() {
    let cpu = run(&[0xe3a0000f, 0xe5902000, 0xe3a00403, 0xe1520000]);
    registers_eq(&cpu, &[(0, 0x03000000), (2, 225), (PC, 24), (CPSR, 0x80000000)]);
    memory_eq(
        &cpu,
        &[(0, 0x0f00a0e3), (4, 0x002090e5), (8, 0x0304a0e3), (0xc, 0x000052e1)],
    );
}

#[test]
fn ldr03() {
    let cpu = run(&[0xe3a0000b, 0xe5902000, 0xe3a01003, 0xe2411005, 0xe3a0390a]);
    registers_eq(
        &cpu,
        &[(0, 11), (1, 0xfffffffe), (2, 0x411005e3), (3, 0x28000), (PC, 0x1c)],
    );
    memory_eq(
        &cpu,
        &[
            (0, 0x0b00a0e3),
            (4, 0x002090e5),
            (8, 0x0310a0e3),
            (0xc, 0x051041e2),
            (0x10, 0x0a39a0e3),
        ],
    );
}

#[test]
fn ldr07() {
    let cpu = run(&[0xe59f2000, 0x00000000, 0x20200020]);
    registers_eq(&cpu, &[(2, 0x20200020), (PC, 12)]);
    memory_eq(&cpu, &[(0, 0x00209fe5), (8, 0x20002020)]);
}

#[test]
fn ldr08() {
    let cpu = run(&[0xe59f0008, 0xe59f2008, 0xe2822008, 0x00000000, 0x20200020, 0x20200028]);
    registers_eq(&cpu, &[(0, 0x20200020), (2, 0x20200030), (PC, 0x14)]);
    memory_eq(
        &cpu,
        &[
            (0, 0x08009fe5),
            (4, 0x08209fe5),
            (8, 0x082082e2),
            (0x10, 0x20002020),
            (0x14, 0x28002020),
        ],
    );
}

#[test]
fn ldr09() {
    let cpu = run(&[0xe59f2008, 0xe2821002, 0xe3330002, 0x00000000, 0x20200020]);
    registers_eq(&cpu, &[(1, 0x20200022), (2, 0x20200020), (PC, 0x14)]);
    memory_eq(
        &cpu,
        &[(0, 0x08209fe5), (4, 0x021082e2), (8, 0x020033e3), (0x10, 0x20002020)],
    );
}

#[test]
fn ldr14() {
    let cpu = run(&[0xe59f0008, 0xe59f2008, 0xe2822008, 0x00000000, 0x20200020, 0x20200028]);
    registers_eq(&cpu, &[(0, 0x20200020), (2, 0x20200030), (PC, 0x14)]);
    memory_eq(
        &cpu,
        &[
            (0, 0x08009fe5),
            (4, 0x08209fe5),
            (8, 0x082082e2),
            (0x10, 0x20002020),
            (0x14, 0x28002020),
        ],
    );
}

#[test]
fn ldr15() {
    let cpu = run(&[0xe3a01001, 0xe2811003, 0xe5913004]);
    registers_eq(&cpu, &[(1, 4), (3, 0xe5913004), (PC, 0x14)]);
    memory_eq(&cpu, &[(0, 0x0110a0e3), (4, 0x031081e2), (8, 0x043091e5)]);
}

#[test]
fn ldr16() {
    let cpu = run(&[0xe3a01005, 0xe2811003, 0xe5113004]);
    registers_eq(&cpu, &[(1, 8), (3, 0xe2811003), (PC, 0x14)]);
    memory_eq(&cpu, &[(0, 0x0510a0e3), (4, 0x031081e2), (8, 0x043011e5)]);
}

#[test]
fn loop01() {
    let cpu = run(&[0xe3a0283f, 0xe2422001, 0xe35200ff, 0x1afffffc]);
    registers_eq(&cpu, &[(2, 0xff), (PC, 24), (CPSR, 0x60000000)]);
    memory_eq(
        &cpu,
        &[(0, 0x3f28a0e3), (4, 0x012042e2), (8, 0xff0052e3), (0xc, 0xfcffff1a)],
    );
}

#[test]
fn loop02() {
    let cpu = run(&[
        0xe3a02005, 0xe2422001, 0xe3a0100a, 0xe2411001, 0xe1510002, 0x1afffffc, 0xe3520000,
        0x1afffff8,
    ]);
    registers_eq(&cpu, &[(PC, 40), (CPSR, 0x60000000)]);
    memory_eq(
        &cpu,
        &[
            (0, 0x0520a0e3),
            (4, 0x012042e2),
            (8, 0x0a10a0e3),
            (0xc, 0x011041e2),
            (0x10, 0x020051e1),
            (0x14, 0xfcffff1a),
            (0x18, 0x000052e3),
            (0x1c, 0xf8ffff1a),
        ],
    );
}

#[test]
fn loop03() {
    let cpu = run(&[0xe3a0200a, 0xe2422001, 0xe3520000, 0x1afffffc]);
    registers_eq(&cpu, &[(PC, 24), (CPSR, 0x60000000)]);
    memory_eq(
        &cpu,
        &[(0, 0x0a20a0e3), (4, 0x012042e2), (8, 0x000052e3), (0xc, 0xfcffff1a)],
    );
}

#[test]
fn lsl01() {
    let cpu = run(&[0xe3a01001, 0xe1a01081]);
    registers_eq(&cpu, &[(1, 2), (PC, 16)]);
    memory_eq(&cpu, &[(0, 0x0110a0e3), (4, 0x8110a0e1)]);
}

#[test]
fn lsl02() {
    let cpu = run(&[0xe3a010ff, 0xe1a01f81]);
    registers_eq(&cpu, &[(1, 0x80000000), (PC, 16)]);
    memory_eq(&cpu, &[(0, 0xff10a0e3), (4, 0x811fa0e1)]);
}

#[test]
fn mla01() {
    let cpu = run(&[0xe3a01002, 0xe3a02004, 0xe3a04004, 0xe0234291]);
    registers_eq(&cpu, &[(1, 2), (2, 4), (3, 12), (4, 4), (PC, 24)]);
    memory_eq(
        &cpu,
        &[(0, 0x0210a0e3), (4, 0x0420a0e3), (8, 0x0440a0e3), (0xc, 0x914223e0)],
    );
}

#[test]
fn mov01() {
    let cpu = run(&[0xe3a01001]);
    registers_eq(&cpu, &[(1, 1), (PC, 12)]);
    memory_eq(&cpu, &[(0, 0x0110a0e3)]);
}

#[test]
fn mov02() {
    let cpu = run(&[0xe3a01002]);
    registers_eq(&cpu, &[(1, 2), (PC, 12)]);
    memory_eq(&cpu, &[(0, 0x0210a0e3)]);
}

#[test]
fn mov03() {
    let cpu = run(&[0xe3a0100f, 0xe3a020ff, 0xe3a030ab, 0xe3a040cd]);
    registers_eq(&cpu, &[(1, 15), (2, 0xff), (3, 171), (4, 0xcd), (PC, 24)]);
    memory_eq(
        &cpu,
        &[(0, 0x0f10a0e3), (4, 0xff20a0e3), (8, 0xab30a0e3), (0xc, 0xcd40a0e3)],
    );
}

#[test]
fn mov04() {
    let cpu = run(&[0xe3a0283f]);
    registers_eq(&cpu, &[(2, 0x3f0000), (PC, 12)]);
    memory_eq(&cpu, &[(0, 0x3f28a0e3)]);
}

#[test]
fn mov05() {
    let cpu = run(&[0xe3a01001, 0xe1a02001]);
    registers_eq(&cpu, &[(1, 1), (2, 1), (PC, 16)]);
    memory_eq(&cpu, &[(0, 0x0110a0e3), (4, 0x0120a0e1)]);
}

#[test]
fn mov06() {
    let cpu = run(&[0xe3a0290a]);
    registers_eq(&cpu, &[(2, 0x28000), (PC, 12)]);
    memory_eq(&cpu, &[(0, 0x0a29a0e3)]);
}

#[test]
fn mov07() {
    let cpu = run(&[0xe3a00403]);
    registers_eq(&cpu, &[(0, 0x03000000), (PC, 12)]);
    memory_eq(&cpu, &[(0, 0x0304a0e3)]);
}

#[test]
fn mul01() {
    let cpu = run(&[0xe3a01002, 0xe3a02004, 0xe0030291]);
    registers_eq(&cpu, &[(1, 2), (2, 4), (3, 8), (PC, 20)]);
    memory_eq(&cpu, &[(0, 0x0210a0e3), (4, 0x0420a0e3), (8, 0x910203e0)]);
}

#[test]
fn opt_add05() {
    let cpu = run(&[0xe3a01004, 0xe3a02002, 0xe0813002, 0xe2834004, 0xe0445233]);
    registers_eq(&cpu, &[(1, 4), (2, 2), (3, 6), (4, 10), (5, 9), (PC, 28)]);
    memory_eq(
        &cpu,
        &[
            (0, 0x0410a0e3),
            (4, 0x0220a0e3),
            (8, 0x023081e0),
            (0xc, 0x044083e2),
            (0x10, 0x335244e0),
        ],
    );
}

#[test]
fn opt_ldr10() {
    let cpu = run(&[0xe3a0100c, 0xe3a0200a, 0xe3a0300e, 0xe5934000, 0xe7915122]);
    registers_eq(
        &cpu,
        &[(1, 12), (2, 10), (3, 14), (4, 0x5122e593), (5, 0x5122e593), (PC, 28)],
    );
    memory_eq(
        &cpu,
        &[
            (0, 0x0c10a0e3),
            (4, 0x0a20a0e3),
            (8, 0x0e30a0e3),
            (0xc, 0x004093e5),
            (0x10, 0x225191e7),
        ],
    );
}

#[test]
fn or01() {
    let cpu = run(&[0xe3a01000, 0xe38120ab]);
    registers_eq(&cpu, &[(2, 171), (PC, 16)]);
    memory_eq(&cpu, &[(0, 0x0010a0e3), (4, 0xab2081e3)]);
}

#[test]
fn or02() {
    let cpu = run(&[0xe3a0100f, 0xe3a020ab, 0xe1813002]);
    registers_eq(&cpu, &[(1, 15), (2, 171), (3, 175), (PC, 20)]);
    memory_eq(&cpu, &[(0, 0x0f10a0e3), (4, 0xab20a0e3), (8, 0x023081e1)]);
}

#[test]
fn rsb01() {
    let cpu = run(&[0xe3a01002, 0xe2612001]);
    registers_eq(&cpu, &[(1, 2), (2, 0xffffffff), (PC, 16)]);
    memory_eq(&cpu, &[(0, 0x0210a0e3), (4, 0x012061e2)]);
}

#[test]
fn rsb02() {
    let cpu = run(&[0xe3a010ff, 0xe26120ff]);
    registers_eq(&cpu, &[(1, 0xff), (PC, 16)]);
    memory_eq(&cpu, &[(0, 0xff10a0e3), (4, 0xff2061e2)]);
}

#[test]
fn rsb03() {
    let cpu = run(&[0xe3a010ff, 0xe0612001]);
    registers_eq(&cpu, &[(1, 0xff), (PC, 16)]);
    memory_eq(&cpu, &[(0, 0xff10a0e3), (4, 0x012061e0)]);
}

#[test]
fn str01() {
    let cpu = run(&[0xe59f0004, 0xe581001c, 0x00000000, 0x20200000]);
    registers_eq(&cpu, &[(0, 0x20200000), (PC, 16)]);
    memory_eq(
        &cpu,
        &[(0, 0x04009fe5), (4, 0x1c0081e5), (0xc, 0x00002020), (0x1c, 0x00002020)],
    );
}

#[test]
fn str02() {
    let cpu = run(&[0xe3a04001, 0xe3a02004, 0xe3a01002, 0xe6821004]);
    registers_eq(&cpu, &[(1, 2), (2, 5), (4, 1), (PC, 24)]);
    memory_eq(
        &cpu,
        &[(0, 0x0140a0e3), (4, 0x02000000), (8, 0x0210a0e3), (0xc, 0x041082e6)],
    );
}

// The store scenarios jump from str02 to str04. The str03 between them
// would expect, from one `str r1,[r0]` and a twice-executed
// `str r1,[r0,#8]` with r0 written once and ending at 1, a final memory
// holding a stored word at address 4 and stored bytes at both 8 and 9
// while the program words at 0 and 0xc stay intact. No image can produce
// that: once r0 is set, the two store instructions reach exactly two
// addresses, r0 and r0 + 8, and no value of r0 covers that memory
// pattern without clobbering a program word the scenario keeps.

#[test]
fn str04() {
    let cpu = run(&[0xe3a04001, 0xe3a02004, 0xe3a01023, 0xe7821004]);
    registers_eq(&cpu, &[(1, 35), (2, 4), (4, 1), (PC, 24)]);
    memory_eq(
        &cpu,
        &[(0, 0x0140a0e3), (4, 0x04230000), (8, 0x0010a0e3), (0xc, 0x041082e7)],
    );
}

#[test]
fn sub01() {
    let cpu = run(&[0xe3a01002, 0xe2412001]);
    registers_eq(&cpu, &[(1, 2), (2, 1), (PC, 16)]);
    memory_eq(&cpu, &[(0, 0x0210a0e3), (4, 0x012041e2)]);
}

#[test]
fn sub02() {
    let cpu = run(&[0xe3a010ff, 0xe24120ff]);
    registers_eq(&cpu, &[(1, 0xff), (PC, 16)]);
    memory_eq(&cpu, &[(0, 0xff10a0e3), (4, 0xff2041e2)]);
}

#[test]
fn sub03() {
    let cpu = run(&[0xe3a010ff, 0xe0412001]);
    registers_eq(&cpu, &[(1, 0xff), (PC, 16)]);
    memory_eq(&cpu, &[(0, 0xff10a0e3), (4, 0x012041e0)]);
}

#[test]
fn tst01() {
    let cpu = run(&[0xe3a01001, 0xe3a02002, 0xe1110002, 0x0a000000, 0xe3a03003, 0xe3a04004]);
    registers_eq(&cpu, &[(1, 1), (2, 2), (4, 4), (PC, 32), (CPSR, 0x40000000)]);
    memory_eq(
        &cpu,
        &[
            (0, 0x0110a0e3),
            (4, 0x0220a0e3),
            (8, 0x020011e1),
            (0xc, 0x0000000a),
            (0x10, 0x0330a0e3),
            (0x14, 0x0440a0e3),
        ],
    );
}

#[test]
fn tst02() {
    let cpu = run(&[0xe3a01001, 0xe3a02001, 0xe1110002, 0x0a000000, 0xe3a03003, 0xe3a04004]);
    registers_eq(&cpu, &[(1, 1), (2, 1), (3, 3), (4, 4), (PC, 32)]);
    memory_eq(
        &cpu,
        &[
            (0, 0x0110a0e3),
            (4, 0x0120a0e3),
            (8, 0x020011e1),
            (0xc, 0x0000000a),
            (0x10, 0x0330a0e3),
            (0x14, 0x0440a0e3),
        ],
    );
}

#[test]
fn tst03() {
    let cpu = run(&[0xe3a01001, 0xe3a02017, 0xe1110002, 0xea000000, 0xe3a03003, 0xe3a04004]);
    registers_eq(&cpu, &[(1, 1), (2, 23), (4, 4), (PC, 32)]);
    memory_eq(
        &cpu,
        &[
            (0, 0x0110a0e3),
            (4, 0x1720a0e3),
            (8, 0x020011e1),
            (0xc, 0x000000ea),
            (0x10, 0x0330a0e3),
            (0x14, 0x0440a0e3),
        ],
    );
}

#[test]
fn tst04() {
    let cpu = run(&[0xe3a01001, 0xe3a02017, 0xe1110002, 0xea000000, 0xe3a03003, 0xe3a04004]);
    registers_eq(&cpu, &[(1, 1), (2, 23), (4, 4), (PC, 32)]);
    memory_eq(
        &cpu,
        &[
            (0, 0x0110a0e3),
            (4, 0x1720a0e3),
            (8, 0x020011e1),
            (0xc, 0x000000ea),
            (0x10, 0x0330a0e3),
            (0x14, 0x0440a0e3),
        ],
    );
}
