//! The CHIP-8 instruction set and its decoder.
//!
//! A raw opcode is a 2-byte value; its high nibble selects an opcode family
//! and, for some families, the second byte or its low nibble selects the
//! final form. Operand fields are pure bit extractions: a 12-bit address, a
//! register index per nibble, an 8-bit immediate, a 4-bit count.

use vstd::prelude::*;

verus! {

/// One decoded CHIP-8 instruction, tagged with its operand fields.
#[derive(Debug, Clone, Copy, PartialEq, Eq, Structural)]
pub enum Instruction {
    /// Clears the screen
    ClearScreen(),
    /// Return from a subroutine
    SubroutineReturn(),
    /// (addr) Jump to address at addr
    Jump(u16),
    /// (addr) Call subroutine at addr
    SubroutineCall(u16),
    /// (Vx, kk) Skip next instruction if Vx == kk
    SkipIfEqualImm(u8, u8),
    /// (Vx, kk) Skip next instruction if Vx != kk
    SkipIfNotEqualImm(u8, u8),
    /// (Vx, Vy) Skip next instruction if Vx == Vy
    SkipIfEqualReg(u8, u8),
    /// (Vx, kk) Load Vx with byte kk
    LoadRegImm(u8, u8),
    /// (Vx, kk) Add kk to Vx
    AddImm(u8, u8),
    /// (Vx, Vy) Load Vx with Vy
    LoadRegReg(u8, u8),
    /// (Vx, Vy) Bitwise OR Vx with Vy
    OrReg(u8, u8),
    /// (Vx, Vy) Bitwise AND Vx with Vy
    AndReg(u8, u8),
    /// (Vx, Vy) Bitwise XOR Vx with Vy
    XorReg(u8, u8),
    /// (Vx, Vy) Add Vy to Vx, set VF to carry
    AddReg(u8, u8),
    /// (Vx, Vy) Subtract Vy from Vx, set VF to NOT borrow
    SubtractReg(u8, u8),
    /// (Vx, Vy) Shift Vx right 1
    ShiftRight(u8, u8),
    /// (Vx, Vy) Set Vx to Vy - Vx
    SubtractRegSwapped(u8, u8),
    /// (Vx, Vy) Shift Vx left 1
    ShiftLeft(u8, u8),
    /// (Vx, Vy) Skip next instruction if Vx != Vy
    SkipIfNotEqualReg(u8, u8),
    /// (addr) Load addr into i
    LoadAddress(u16),
    /// (addr) Jump to addr + V0
    JumpV0(u16),
    /// (Vx, kk) Set Vx to kk AND random number
    Random(u8, u8),
    /// (Vx, Vy, n) Draw sprite
    Draw(u8, u8, u8),
    /// (Vx) Skip next instruction if key in Vx pressed
    SkipIfPressed(u8),
    /// (Vx) Skip next instruction if key in Vx not pressed
    SkipIfNotPressed(u8),
    /// (Vx) Load Vx with value of delay timer
    LoadRegDelay(u8),
    /// (Vx) Wait for key press, set Vx to value of key
    LoadKey(u8),
    /// (Vx) Load delay timer with value of Vx
    LoadDelayReg(u8),
    /// (Vx) Load sound timer with value of Vx
    LoadSoundReg(u8),
    /// (Vx) Add Vx to I
    AddAddress(u8),
    /// (Vx) Set I to location of sprite for digit in Vx
    LoadAddressDigit(u8),
    /// (Vx) Store BCD of Vx at address in I
    LoadMemoryBcd(u8),
    /// (Vx) Store registers V0-Vx in memory starting at address I
    LoadMemoryRegisters(u8),
    /// (Vx) Read registers V0-Vx from memory starting at address I
    LoadRegistersMemory(u8),
}

/// High nibble of a byte, as a value in [0, 15].
pub open spec fn spec_first_nibble(x: u8) -> u8 {
    (x & 0xF0) >> 4u8
}

/// Low nibble of a byte, as a value in [0, 15].
pub open spec fn spec_last_nibble(x: u8) -> u8 {
    x & 0x0F
}

/// The 12-bit address held in the low 12 bits of a big-endian 2-byte opcode.
pub open spec fn spec_address(b0: u8, b1: u8) -> u16 {
    (((b0 as u16) << 8u16) | (b1 as u16)) & 0x0FFF
}

/// The unique instruction encoded by a 2-byte opcode, or `None` when the bit
/// pattern matches no known form. Decoding is a pure function of the two
/// bytes: total and deterministic.
pub open spec fn spec_decode(b0: u8, b1: u8) -> Option<Instruction> {
    let nnn = spec_address(b0, b1);
    let x = spec_last_nibble(b0);
    let y = spec_first_nibble(b1);
    let n = spec_last_nibble(b1);
    let kk = b1;
    let family = spec_first_nibble(b0);
    if family == 0x0 {
        if b1 == 0xE0 {
            Some(Instruction::ClearScreen())
        } else if b1 == 0xEE {
            Some(Instruction::SubroutineReturn())
        } else {
            None
        }
    } else if family == 0x1 {
        Some(Instruction::Jump(nnn))
    } else if family == 0x2 {
        Some(Instruction::SubroutineCall(nnn))
    } else if family == 0x3 {
        Some(Instruction::SkipIfEqualImm(x, kk))
    } else if family == 0x4 {
        Some(Instruction::SkipIfNotEqualImm(x, kk))
    } else if family == 0x5 {
        Some(Instruction::SkipIfEqualReg(x, y))
    } else if family == 0x6 {
        Some(Instruction::LoadRegImm(x, kk))
    } else if family == 0x7 {
        Some(Instruction::AddImm(x, kk))
    } else if family == 0x8 {
        if n == 0x0 {
            Some(Instruction::LoadRegReg(x, y))
        } else if n == 0x1 {
            Some(Instruction::OrReg(x, y))
        } else if n == 0x2 {
            Some(Instruction::AndReg(x, y))
        } else if n == 0x3 {
            Some(Instruction::XorReg(x, y))
        } else if n == 0x4 {
            Some(Instruction::AddReg(x, y))
        } else if n == 0x5 {
            Some(Instruction::SubtractReg(x, y))
        } else if n == 0x6 {
            Some(Instruction::ShiftRight(x, y))
        } else if n == 0x7 {
            Some(Instruction::SubtractRegSwapped(x, y))
        } else if n == 0xE {
            Some(Instruction::ShiftLeft(x, y))
        } else {
            None
        }
    } else if family == 0x9 {
        Some(Instruction::SkipIfNotEqualReg(x, y))
    } else if family == 0xA {
        Some(Instruction::LoadAddress(nnn))
    } else if family == 0xB {
        Some(Instruction::JumpV0(nnn))
    } else if family == 0xC {
        Some(Instruction::Random(x, kk))
    } else if family == 0xD {
        Some(Instruction::Draw(x, y, n))
    } else if family == 0xE {
        if b1 == 0x9E {
            Some(Instruction::SkipIfPressed(x))
        } else if b1 == 0xA1 {
            Some(Instruction::SkipIfNotPressed(x))
        } else {
            None
        }
    } else {
        if b1 == 0x07 {
            Some(Instruction::LoadRegDelay(x))
        } else if b1 == 0x0A {
            Some(Instruction::LoadKey(x))
        } else if b1 == 0x15 {
            Some(Instruction::LoadDelayReg(x))
        } else if b1 == 0x18 {
            Some(Instruction::LoadSoundReg(x))
        } else if b1 == 0x1E {
            Some(Instruction::AddAddress(x))
        } else if b1 == 0x29 {
            Some(Instruction::LoadAddressDigit(x))
        } else if b1 == 0x33 {
            Some(Instruction::LoadMemoryBcd(x))
        } else if b1 == 0x55 {
            Some(Instruction::LoadMemoryRegisters(x))
        } else if b1 == 0x65 {
            Some(Instruction::LoadRegistersMemory(x))
        } else {
            None
        }
    }
}

/// Every operand field of a decoded instruction lies in its encoded range:
/// register indices and nibble counts below 16, addresses below 0x1000.
pub open spec fn inst_wf(i: Instruction) -> bool {
    match i {
        Instruction::ClearScreen() => true,
        Instruction::SubroutineReturn() => true,
        Instruction::Jump(a) => a < 0x1000,
        Instruction::SubroutineCall(a) => a < 0x1000,
        Instruction::SkipIfEqualImm(x, _) => x < 16,
        Instruction::SkipIfNotEqualImm(x, _) => x < 16,
        Instruction::SkipIfEqualReg(x, y) => x < 16 && y < 16,
        Instruction::LoadRegImm(x, _) => x < 16,
        Instruction::AddImm(x, _) => x < 16,
        Instruction::LoadRegReg(x, y) => x < 16 && y < 16,
        Instruction::OrReg(x, y) => x < 16 && y < 16,
        Instruction::AndReg(x, y) => x < 16 && y < 16,
        Instruction::XorReg(x, y) => x < 16 && y < 16,
        Instruction::AddReg(x, y) => x < 16 && y < 16,
        Instruction::SubtractReg(x, y) => x < 16 && y < 16,
        Instruction::ShiftRight(x, y) => x < 16 && y < 16,
        Instruction::SubtractRegSwapped(x, y) => x < 16 && y < 16,
        Instruction::ShiftLeft(x, y) => x < 16 && y < 16,
        Instruction::SkipIfNotEqualReg(x, y) => x < 16 && y < 16,
        Instruction::LoadAddress(a) => a < 0x1000,
        Instruction::JumpV0(a) => a < 0x1000,
        Instruction::Random(x, _) => x < 16,
        Instruction::Draw(x, y, n) => x < 16 && y < 16 && n < 16,
        Instruction::SkipIfPressed(x) => x < 16,
        Instruction::SkipIfNotPressed(x) => x < 16,
        Instruction::LoadRegDelay(x) => x < 16,
        Instruction::LoadKey(x) => x < 16,
        Instruction::LoadDelayReg(x) => x < 16,
        Instruction::LoadSoundReg(x) => x < 16,
        Instruction::AddAddress(x) => x < 16,
        Instruction::LoadAddressDigit(x) => x < 16,
        Instruction::LoadMemoryBcd(x) => x < 16,
        Instruction::LoadMemoryRegisters(x) => x < 16,
        Instruction::LoadRegistersMemory(x) => x < 16,
    }
}

/// Decoded operand fields are in range by construction: they come from 4-bit
/// and 12-bit extractions.
pub proof fn lemma_decode_wf(b0: u8, b1: u8)
    ensures
        spec_decode(b0, b1) matches Some(i) ==> inst_wf(i),
{
    assert(spec_last_nibble(b0) < 16) by (bit_vector);
    assert(spec_first_nibble(b1) < 16) by (bit_vector);
    assert(spec_last_nibble(b1) < 16) by (bit_vector);
    assert(spec_address(b0, b1) < 0x1000) by (bit_vector);
}

pub fn first_nibble(x: u8) -> (r: u8)
    ensures
        r == spec_first_nibble(x),
{
    (x & 0xF0) >> 4
}

pub fn last_nibble(x: u8) -> (r: u8)
    ensures
        r == spec_last_nibble(x),
{
    x & 0x0F
}

pub fn address(x: [u8; 2]) -> (r: u16)
    ensures
        r == spec_address(x[0], x[1]),
{
    (((x[0] as u16) << 8) | (x[1] as u16)) & 0x0FFF
}

impl Instruction {
    /// Decodes a raw big-endian 2-byte opcode. Returns the unique matching
    /// instruction, or `Err` for a bit pattern outside the instruction set.
    pub fn from_bytes(raw: [u8; 2]) -> (r: Result<Instruction, ()>)
        ensures
            r == (match spec_decode(raw[0], raw[1]) {
                Some(i) => Ok::<Instruction, ()>(i),
                None => Err::<Instruction, ()>(()),
            }),
    {
        // Instructions have arguments in a few standard places
        // 0nnn - 12 bit address
        let nnn = address(raw);

        // 0x00 - 4 bit, usually the first register
        let x = last_nibble(raw[0]);

        // 00y0 - 4 bit, usually the second register
        let y = first_nibble(raw[1]);

        // 000n - 4 bit
        let n = last_nibble(raw[1]);

        // 00kk - 8 bit
        let kk = raw[1];

        match first_nibble(raw[0]) {
            0x0 => match raw[1] {
                0xE0 => Ok(Instruction::ClearScreen()),
                0xEE => Ok(Instruction::SubroutineReturn()),
                _ => Err(()),
            },
            0x1 => Ok(Instruction::Jump(nnn)),
            0x2 => Ok(Instruction::SubroutineCall(nnn)),
            0x3 => Ok(Instruction::SkipIfEqualImm(x, kk)),
            0x4 => Ok(Instruction::SkipIfNotEqualImm(x, kk)),
            0x5 => Ok(Instruction::SkipIfEqualReg(x, y)),
            0x6 => Ok(Instruction::LoadRegImm(x, kk)),
            0x7 => Ok(Instruction::AddImm(x, kk)),
            0x8 => match last_nibble(raw[1]) {
                0x0 => Ok(Instruction::LoadRegReg(x, y)),
                0x1 => Ok(Instruction::OrReg(x, y)),
                0x2 => Ok(Instruction::AndReg(x, y)),
                0x3 => Ok(Instruction::XorReg(x, y)),
                0x4 => Ok(Instruction::AddReg(x, y)),
                0x5 => Ok(Instruction::SubtractReg(x, y)),
                0x6 => Ok(Instruction::ShiftRight(x, y)),
                0x7 => Ok(Instruction::SubtractRegSwapped(x, y)),
                0xE => Ok(Instruction::ShiftLeft(x, y)),
                _ => Err(()),
            },
            0x9 => Ok(Instruction::SkipIfNotEqualReg(x, y)),
            0xA => Ok(Instruction::LoadAddress(nnn)),
            0xB => Ok(Instruction::JumpV0(nnn)),
            0xC => Ok(Instruction::Random(x, kk)),
            0xD => Ok(Instruction::Draw(x, y, n)),
            0xE => match raw[1] {
                0x9E => Ok(Instruction::SkipIfPressed(x)),
                0xA1 => Ok(Instruction::SkipIfNotPressed(x)),
                _ => Err(()),
            },
            _ => match raw[1] {
                0x07 => Ok(Instruction::LoadRegDelay(x)),
                0x0A => Ok(Instruction::LoadKey(x)),
                0x15 => Ok(Instruction::LoadDelayReg(x)),
                0x18 => Ok(Instruction::LoadSoundReg(x)),
                0x1E => Ok(Instruction::AddAddress(x)),
                0x29 => Ok(Instruction::LoadAddressDigit(x)),
                0x33 => Ok(Instruction::LoadMemoryBcd(x)),
                0x55 => Ok(Instruction::LoadMemoryRegisters(x)),
                0x65 => Ok(Instruction::LoadRegistersMemory(x)),
                _ => Err(()),
            },
        }
    }
}

} // verus!
