//! The virtual CPU: memory, registers, call stack, and the
//! fetch-decode-execute cycle, modeled by a mathematical machine state and a
//! pure step function over it.
//!
//! Memory is a fixed 4096-byte array; every execution-time access resolves
//! inside it by reduction modulo its size. The program counter advances by 2
//! before dispatch, wrapping as a 16-bit value. Timers are decremented once
//! per step by an externally supplied tick count, saturating at zero.

use vstd::prelude::*;
use crate::instructions::{Instruction, spec_decode, inst_wf, lemma_decode_wf};
use crate::screen::{
    Screen,
    CHIP8_FONT,
    font_seq,
    character_offset,
    write_sprite_grid,
    write_sprite_collides,
    zero_grid,
};
use crate::traits::{HexKeyboard, Timer};

verus! {

/// Address where fonts will be loaded to.
pub const FONT_START: usize = 0x000;

/// Chip-8 programs get loaded into memory starting at 0x200; everything
/// below that is reserved for the system.
pub const PROGRAM_START: usize = 0x200;

pub const MEM_SIZE: usize = 4096;

pub const V_REG_SIZE: usize = 16;

/// How many return addresses the call stack is expected to hold; a safety
/// margin, not a hard limit.
pub const STACK_SIZE: usize = 16;

/// Failure surfaced to the host by loading or stepping. Values, never
/// aborts: the host decides whether to stop the scheduling loop.
#[derive(Debug, Clone, Copy, PartialEq, Eq, Structural)]
pub enum Chip8Error {
    /// The ROM does not fit below the top of memory (carries its length).
    RomTooBig(usize),
    /// The fetched opcode matches no known instruction (opcode, address it
    /// was fetched from). Fatal to the session: halting beats guessing.
    InvalidInstruction(u16, u16),
    /// An opcode the decoder recognizes but execution does not handle. A
    /// complete machine never produces this.
    InstructionNotImplemented(Instruction),
}

/// The mathematical state of the machine: what every contract speaks of.
pub ghost struct Chip8View {
    /// 4096 bytes of addressable memory.
    pub mem: Seq<u8>,
    /// The 16 general-purpose registers V0-VF.
    pub v: Seq<u8>,
    /// The 16-bit address register I.
    pub i: u16,
    /// The delay countdown register.
    pub delay: u8,
    /// The sound countdown register.
    pub sound: u8,
    /// The program counter.
    pub pc: u16,
    /// The call stack of return addresses, most recent last.
    pub stack: Seq<u16>,
    /// The pseudo-random generator state.
    pub rand: u16,
    /// The display buffer, one 64-bit row word per screen row.
    pub grid: Seq<u64>,
}

/// The dimensions every reachable machine state has.
pub open spec fn state_wf(s: Chip8View) -> bool {
    s.mem.len() == 4096 && s.v.len() == 16 && s.grid.len() == 32
}

/// A 16-bit value from an unbounded count, by wrapping.
pub open spec fn spec_wrap16(v: int) -> u16 {
    (v % 0x10000) as u16
}

/// An 8-bit value from an unbounded count, by wrapping.
pub open spec fn spec_wrap8(v: int) -> u8 {
    (v % 256) as u8
}

/// Subtraction that saturates at zero.
pub open spec fn spec_sat_sub(a: u8, b: u8) -> u8 {
    if a >= b {
        (a - b) as u8
    } else {
        0u8
    }
}

/// Where an execution-time access `k` bytes past `base` lands: reduced into
/// the 4096-byte address space.
pub open spec fn spec_mem_addr(base: int, k: int) -> int {
    (base + k) % 4096
}

/// The state after the per-step timer tick: both countdown registers drop by
/// the elapsed interval count, saturating at zero.
pub open spec fn spec_tick(s: Chip8View, ticks: u8) -> Chip8View {
    Chip8View { delay: spec_sat_sub(s.delay, ticks), sound: spec_sat_sub(s.sound, ticks), ..s }
}

/// The first opcode byte at the program counter.
pub open spec fn spec_fetch_hi(s: Chip8View) -> u8 {
    s.mem[spec_mem_addr(s.pc as int, 0)]
}

/// The second opcode byte, one past the program counter.
pub open spec fn spec_fetch_lo(s: Chip8View) -> u8 {
    s.mem[spec_mem_addr(s.pc as int, 1)]
}

/// The raw big-endian opcode at the program counter.
pub open spec fn spec_opcode(s: Chip8View) -> u16 {
    ((spec_fetch_hi(s) as u16) << 8) | (spec_fetch_lo(s) as u16)
}

/// The state with the program counter moved 2 bytes on, wrapping.
pub open spec fn spec_advance_pc(s: Chip8View) -> Chip8View {
    Chip8View { pc: spec_wrap16(s.pc as int + 2), ..s }
}

/// `mem` with `data` written over the region starting at `start`.
pub open spec fn spec_splice(mem: Seq<u8>, start: int, data: Seq<u8>) -> Seq<u8> {
    Seq::new(
        mem.len(),
        |t: int|
            if start <= t < start + data.len() {
                data[t - start]
            } else {
                mem[t]
            },
    )
}

/// `s` with its memory replaced, everything else kept.
pub open spec fn spec_with_mem(s: Chip8View, mem: Seq<u8>) -> Chip8View {
    Chip8View { mem, ..s }
}

/// `mem` after registers `v[0..n]` are dumped to consecutive (wrapped)
/// addresses starting at `base`.
pub open spec fn spec_store_regs(mem: Seq<u8>, v: Seq<u8>, base: int, n: int) -> Seq<u8>
    decreases n,
{
    if n <= 0 {
        mem
    } else {
        spec_store_regs(mem, v, base, n - 1).update(spec_mem_addr(base, n - 1), v[n - 1])
    }
}

/// `v` after registers `0..n` are reloaded from consecutive (wrapped)
/// addresses starting at `base`.
pub open spec fn spec_load_regs(v: Seq<u8>, mem: Seq<u8>, base: int, n: int) -> Seq<u8>
    decreases n,
{
    if n <= 0 {
        v
    } else {
        spec_load_regs(v, mem, base, n - 1).update(n - 1, mem[spec_mem_addr(base, n - 1)])
    }
}

/// The `n` sprite bytes starting at (wrapped) address `base`.
pub open spec fn spec_sprite(mem: Seq<u8>, base: int, n: int) -> Seq<u8> {
    Seq::new(n as nat, |k: int| mem[spec_mem_addr(base, k)])
}

/// The next state of the 16-bit linear-congruential generator behind the
/// `Random` instruction.
pub open spec fn spec_next_rand(r: u16) -> u16 {
    spec_wrap16(r * 25173 + 13849)
}

/// The byte the `Random` instruction masks: the high byte of the generator
/// state after stepping it.
pub open spec fn spec_rand_byte(r: u16) -> u8 {
    (spec_next_rand(r) >> 8) as u8
}

/// The seed every fresh machine starts its generator from.
pub const RAND_SEED: u16 = 0x2A5F;

/// A fresh machine: cleared memory and registers, the program counter at the
/// program start, an empty call stack, and the display handed in by the
/// host.
pub open spec fn spec_initial(grid: Seq<u64>) -> Chip8View {
    Chip8View {
        mem: Seq::new(4096, |t: int| 0u8),
        v: Seq::new(16, |t: int| 0u8),
        i: 0,
        delay: 0,
        sound: 0,
        pc: 0x200,
        stack: Seq::empty(),
        rand: RAND_SEED,
        grid,
    }
}

/// The state after executing one decoded instruction. `s` already has the
/// program counter advanced past the instruction; `key` is what the keypad
/// poll reported for this step.
///
/// `VF` conventions: additions report carry; subtractions report NOT-borrow
/// (1 when the minuend is at least the subtrahend); shifts report the bit
/// shifted out and operate on `Vx` in place, ignoring `Vy`; a draw reports
/// collision. Where `Vx` is `VF` itself the later write wins: additions and
/// draws write the flag last, subtractions and shifts write it first.
pub open spec fn spec_execute(s: Chip8View, inst: Instruction, key: Option<u8>) -> Chip8View {
    match inst {
        Instruction::ClearScreen() => Chip8View { grid: zero_grid(), ..s },
        Instruction::SubroutineReturn() => {
            if s.stack.len() == 0 {
                // Underflow falls back to the program start.
                Chip8View { pc: 0x200, ..s }
            } else {
                Chip8View { pc: s.stack.last(), stack: s.stack.drop_last(), ..s }
            }
        },
        Instruction::Jump(addr) => Chip8View { pc: addr, ..s },
        Instruction::SubroutineCall(addr) => Chip8View {
            pc: addr,
            stack: s.stack.push(s.pc),
            ..s
        },
        Instruction::SkipIfEqualImm(x, kk) => {
            if s.v[x as int] == kk {
                spec_advance_pc(s)
            } else {
                s
            }
        },
        Instruction::SkipIfNotEqualImm(x, kk) => {
            if s.v[x as int] != kk {
                spec_advance_pc(s)
            } else {
                s
            }
        },
        Instruction::SkipIfEqualReg(x, y) => {
            if s.v[x as int] == s.v[y as int] {
                spec_advance_pc(s)
            } else {
                s
            }
        },
        Instruction::SkipIfNotEqualReg(x, y) => {
            if s.v[x as int] != s.v[y as int] {
                spec_advance_pc(s)
            } else {
                s
            }
        },
        Instruction::LoadRegReg(x, y) => Chip8View { v: s.v.update(x as int, s.v[y as int]), ..s },
        Instruction::LoadRegImm(x, kk) => Chip8View { v: s.v.update(x as int, kk), ..s },
        Instruction::LoadAddress(addr) => Chip8View { i: addr, ..s },
        Instruction::JumpV0(addr) => Chip8View { pc: spec_wrap16(addr + s.v[0]), ..s },
        Instruction::LoadMemoryRegisters(x) => Chip8View {
            mem: spec_store_regs(s.mem, s.v, s.i as int, x as int + 1),
            ..s
        },
        Instruction::LoadRegistersMemory(x) => Chip8View {
            v: spec_load_regs(s.v, s.mem, s.i as int, x as int + 1),
            ..s
        },
        Instruction::Draw(x, y, n) => {
            let sprite = spec_sprite(s.mem, s.i as int, n as int);
            let cx = s.v[x as int] as int;
            let cy = s.v[y as int] as int;
            let collided = write_sprite_collides(s.grid, cx, cy, sprite);
            Chip8View {
                grid: write_sprite_grid(s.grid, cx, cy, sprite),
                v: s.v.update(
                    15,
                    if collided {
                        1u8
                    } else {
                        0u8
                    },
                ),
                ..s
            }
        },
        Instruction::AddImm(x, kk) => {
            let sum = s.v[x as int] + kk;
            Chip8View {
                v: s.v.update(x as int, spec_wrap8(sum)).update(
                    15,
                    if sum > 255 {
                        1u8
                    } else {
                        0u8
                    },
                ),
                ..s
            }
        },
        Instruction::AddReg(x, y) => {
            let sum = s.v[x as int] + s.v[y as int];
            Chip8View {
                v: s.v.update(x as int, spec_wrap8(sum)).update(
                    15,
                    if sum > 255 {
                        1u8
                    } else {
                        0u8
                    },
                ),
                ..s
            }
        },
        Instruction::SubtractReg(x, y) => {
            let vx = s.v[x as int];
            let vy = s.v[y as int];
            Chip8View {
                v: s.v.update(
                    15,
                    if vx >= vy {
                        1u8
                    } else {
                        0u8
                    },
                ).update(x as int, spec_wrap8(vx - vy + 256)),
                ..s
            }
        },
        Instruction::SubtractRegSwapped(x, y) => {
            let vx = s.v[x as int];
            let vy = s.v[y as int];
            Chip8View {
                v: s.v.update(
                    15,
                    if vy >= vx {
                        1u8
                    } else {
                        0u8
                    },
                ).update(x as int, spec_wrap8(vy - vx + 256)),
                ..s
            }
        },
        Instruction::OrReg(x, y) => Chip8View {
            v: s.v.update(x as int, s.v[x as int] | s.v[y as int]),
            ..s
        },
        Instruction::AndReg(x, y) => Chip8View {
            v: s.v.update(x as int, s.v[x as int] & s.v[y as int]),
            ..s
        },
        Instruction::XorReg(x, y) => Chip8View {
            v: s.v.update(x as int, s.v[x as int] ^ s.v[y as int]),
            ..s
        },
        Instruction::ShiftRight(x, _y) => {
            let vx = s.v[x as int];
            Chip8View { v: s.v.update(15, vx & 1).update(x as int, vx >> 1), ..s }
        },
        Instruction::ShiftLeft(x, _y) => {
            let vx = s.v[x as int];
            Chip8View { v: s.v.update(15, (vx & 0x80) >> 7).update(x as int, vx << 1), ..s }
        },
        Instruction::Random(x, kk) => {
            let nr = spec_next_rand(s.rand);
            Chip8View { rand: nr, v: s.v.update(x as int, spec_rand_byte(s.rand) & kk), ..s }
        },
        Instruction::SkipIfPressed(x) => {
            if key == Some(s.v[x as int]) {
                spec_advance_pc(s)
            } else {
                s
            }
        },
        Instruction::SkipIfNotPressed(x) => {
            if key != Some(s.v[x as int]) {
                spec_advance_pc(s)
            } else {
                s
            }
        },
        Instruction::LoadRegDelay(x) => Chip8View { v: s.v.update(x as int, s.delay), ..s },
        Instruction::LoadKey(x) => {
            match key {
                // Non-blocking poll: with no key held the program counter
                // steps back onto this instruction, retrying next step.
                Some(k) => Chip8View { v: s.v.update(x as int, k), ..s },
                None => Chip8View { pc: spec_wrap16(s.pc as int + 0x10000 - 2), ..s },
            }
        },
        Instruction::LoadDelayReg(x) => Chip8View { delay: s.v[x as int], ..s },
        Instruction::LoadSoundReg(x) => Chip8View { sound: s.v[x as int], ..s },
        Instruction::AddAddress(x) => Chip8View { i: spec_wrap16(s.i + s.v[x as int]), ..s },
        Instruction::LoadAddressDigit(x) => Chip8View { i: (s.v[x as int] * 5) as u16, ..s },
        Instruction::LoadMemoryBcd(x) => {
            let vx = s.v[x as int];
            Chip8View {
                mem: s.mem.update(spec_mem_addr(s.i as int, 0), vx / 100).update(
                    spec_mem_addr(s.i as int, 1),
                    (vx / 10) % 10,
                ).update(spec_mem_addr(s.i as int, 2), vx % 10),
                ..s
            }
        },
    }
}

/// The machine state after one whole step from `s`, given the polled key and
/// elapsed tick count: timers tick, the opcode at the program counter is
/// fetched, the program counter advances by 2, and the decoded instruction
/// (if any) executes.
pub open spec fn spec_step_state(s: Chip8View, key: Option<u8>, ticks: u8) -> Chip8View {
    let t = spec_tick(s, ticks);
    match spec_decode(spec_fetch_hi(t), spec_fetch_lo(t)) {
        Some(inst) => spec_execute(spec_advance_pc(t), inst, key),
        None => spec_advance_pc(t),
    }
}

/// What one whole step from `s` reports: `Ok` exactly when the fetched
/// opcode decodes; otherwise the invalid opcode and its fetch address.
pub open spec fn spec_step_result(s: Chip8View, key: Option<u8>, ticks: u8) -> Result<
    (),
    Chip8Error,
> {
    let t = spec_tick(s, ticks);
    match spec_decode(spec_fetch_hi(t), spec_fetch_lo(t)) {
        Some(_) => Ok(()),
        None => Err(Chip8Error::InvalidInstruction(spec_opcode(t), t.pc)),
    }
}

proof fn lemma_mod_4096_distinct(a: int, b: int)
    requires
        0 <= a < b,
        b - a < 4096,
    ensures
        a % 4096 != b % 4096,
{
    vstd::arithmetic::div_mod::lemma_fundamental_div_mod(a, 4096);
    vstd::arithmetic::div_mod::lemma_fundamental_div_mod(b, 4096);
    if a % 4096 == b % 4096 {
        let q = b / 4096 - a / 4096;
        assert(b - a == 4096 * q);
        assert(q >= 1 ==> 4096 * q >= 4096) by (nonlinear_arith);
        assert(q <= 0 ==> 4096 * q <= 0) by (nonlinear_arith);
        assert(false);
    }
}

/// A register dump lands each register at its own (wrapped) address.
proof fn lemma_store_regs_props(mem: Seq<u8>, v: Seq<u8>, base: int, n: int)
    requires
        mem.len() == 4096,
        0 <= base,
        0 <= n <= 4096,
    ensures
        spec_store_regs(mem, v, base, n).len() == 4096,
        forall|k: int|
            0 <= k < n ==> spec_store_regs(mem, v, base, n)[spec_mem_addr(base, k)] == v[k],
    decreases n,
{
    if n > 0 {
        lemma_store_regs_props(mem, v, base, n - 1);
        assert forall|k: int| 0 <= k < n implies spec_store_regs(mem, v, base, n)[spec_mem_addr(
            base,
            k,
        )] == v[k] by {
            if k < n - 1 {
                lemma_mod_4096_distinct(base + k, base + n - 1);
            }
        }
    }
}

/// A register reload fills registers `0..n` from their (wrapped) addresses
/// and leaves the rest alone.
proof fn lemma_load_regs_props(v: Seq<u8>, mem: Seq<u8>, base: int, n: int)
    requires
        v.len() == 16,
        0 <= n <= 16,
    ensures
        spec_load_regs(v, mem, base, n).len() == 16,
        forall|k: int|
            0 <= k < n ==> spec_load_regs(v, mem, base, n)[k] == mem[spec_mem_addr(base, k)],
        forall|k: int| n <= k < 16 ==> spec_load_regs(v, mem, base, n)[k] == v[k],
    decreases n,
{
    if n > 0 {
        lemma_load_regs_props(v, mem, base, n - 1);
    }
}

/// Law: register dump/load round-trip. Dumping registers `V0..=Vx` to
/// memory and reloading the same range reproduces every register exactly,
/// whatever the register values, the address register, and the polled keys.
pub proof fn lemma_registers_round_trip(s: Chip8View, x: u8, key1: Option<u8>, key2: Option<u8>)
    requires
        state_wf(s),
        x < 16,
    ensures
        spec_execute(
            spec_execute(s, Instruction::LoadMemoryRegisters(x), key1),
            Instruction::LoadRegistersMemory(x),
            key2,
        ).v == s.v,
{
    let s1 = spec_execute(s, Instruction::LoadMemoryRegisters(x), key1);
    let s2 = spec_execute(s1, Instruction::LoadRegistersMemory(x), key2);
    lemma_store_regs_props(s.mem, s.v, s.i as int, x as int + 1);
    lemma_load_regs_props(s.v, s1.mem, s.i as int, x as int + 1);
    assert(s2.v =~= s.v);
}

/// Law: subroutine-return underflow policy. Returning with an empty call
/// stack sends the program counter back to the program start, whatever the
/// rest of the machine state; with a non-empty stack it pops the most
/// recent return address.
pub proof fn lemma_return_on_empty_stack(s: Chip8View, key: Option<u8>)
    ensures
        s.stack.len() == 0 ==> spec_execute(s, Instruction::SubroutineReturn(), key).pc == 0x200,
        s.stack.len() > 0 ==> spec_execute(s, Instruction::SubroutineReturn(), key).pc
            == s.stack.last(),
{
}

/// The CHIP-8 virtual machine. It owns its memory, registers, call stack and
/// display buffer, and polls the keypad and timer sources it was built with.
pub struct Chip8<K: HexKeyboard, T: Timer> {
    mem: [u8; MEM_SIZE],
    v_reg: [u8; V_REG_SIZE],
    i_reg: u16,
    delay_reg: u8,
    sound_reg: u8,
    program_counter: u16,
    stack: Vec<u16>,
    rand_state: u16,
    screen: Screen,
    keyboard: K,
    timer: T,
}

impl<K: HexKeyboard, T: Timer> View for Chip8<K, T> {
    type V = Chip8View;

    closed spec fn view(&self) -> Chip8View {
        Chip8View {
            mem: self.mem@,
            v: self.v_reg@,
            i: self.i_reg,
            delay: self.delay_reg,
            sound: self.sound_reg,
            pc: self.program_counter,
            stack: self.stack@,
            rand: self.rand_state,
            grid: self.screen@,
        }
    }
}

impl<K: HexKeyboard, T: Timer> Chip8<K, T> {
    pub fn new(screen: Screen, keyboard: K, timer: T) -> (c: Self)
        ensures
            c@ == spec_initial(screen@),
    {
        let c = Chip8 {
            mem: [0; 4096],
            v_reg: [0; 16],
            i_reg: 0,
            delay_reg: 0,
            sound_reg: 0,
            program_counter: PROGRAM_START as u16,
            stack: Vec::with_capacity(STACK_SIZE),
            rand_state: RAND_SEED,
            screen,
            keyboard,
            timer,
        };
        proof {
            assert(c@.mem =~= spec_initial(c@.grid).mem);
            assert(c@.v =~= spec_initial(c@.grid).v);
            assert(c@.stack =~= spec_initial(c@.grid).stack);
        }
        c
    }

    /// Copies `rom` into memory at `start_address`, refusing a region that
    /// would reach the last memory byte or beyond.
    fn load_rom(&mut self, start_address: usize, rom: &[u8]) -> (r: Result<(), Chip8Error>)
        requires
            start_address <= 4096,
        ensures
            start_address + rom@.len() >= 4096 ==> r == Err::<(), Chip8Error>(
                Chip8Error::RomTooBig(rom@.len() as usize),
            ) && final(self)@ == old(self)@,
            start_address + rom@.len() < 4096 ==> r == Ok::<(), Chip8Error>(()) && final(self)@
                == spec_with_mem(
                old(self)@,
                spec_splice(old(self)@.mem, start_address as int, rom@),
            ),
    {
        if rom.len() >= MEM_SIZE - start_address {
            return Err(Chip8Error::RomTooBig(rom.len()));
        }
        let ghost m0 = self.mem@;
        let mut j: usize = 0;
        while j < rom.len()
            invariant
                j <= rom@.len(),
                start_address + rom@.len() < 4096,
                self.mem@.len() == 4096,
                m0.len() == 4096,
                self.v_reg == old(self).v_reg,
                self.i_reg == old(self).i_reg,
                self.delay_reg == old(self).delay_reg,
                self.sound_reg == old(self).sound_reg,
                self.program_counter == old(self).program_counter,
                self.stack == old(self).stack,
                self.rand_state == old(self).rand_state,
                self.screen == old(self).screen,
                m0 == old(self)@.mem,
                forall|t: int|
                    0 <= t < 4096 ==> #[trigger] self.mem@[t] == (if start_address <= t
                        < start_address + j {
                        rom@[t - start_address]
                    } else {
                        m0[t]
                    }),
            decreases rom@.len() - j,
        {
            self.mem[start_address + j] = rom[j];
            j += 1;
        }
        proof {
            assert(self.mem@ =~= spec_splice(m0, start_address as int, rom@));
        }
        Ok(())
    }

    /// Loads the font table at address 0, then `rom` at the program start.
    /// Fails with `RomTooBig` exactly when `0x200 + rom.len() >= 4096`,
    /// leaving at least the last memory byte unused; the font is in place
    /// either way.
    pub fn init_memory(&mut self, rom: &[u8]) -> (r: Result<(), Chip8Error>)
        ensures
            rom@.len() >= 3584 ==> r == Err::<(), Chip8Error>(
                Chip8Error::RomTooBig(rom@.len() as usize),
            ) && final(self)@ == spec_with_mem(
                old(self)@,
                spec_splice(old(self)@.mem, 0, font_seq()),
            ),
            rom@.len() < 3584 ==> r == Ok::<(), Chip8Error>(()) && final(self)@ == spec_with_mem(
                old(self)@,
                spec_splice(spec_splice(old(self)@.mem, 0, font_seq()), 0x200, rom@),
            ),
    {
        let r1 = self.load_rom(FONT_START, CHIP8_FONT.as_slice());
        match r1 {
            Ok(_) => {}
            Err(e) => {
                return Err(e);
            }
        }
        match self.load_rom(PROGRAM_START, rom) {
            Ok(_) => Ok(()),
            Err(e) => Err(e),
        }
    }

    /// Moves the program counter 2 bytes on, wrapping as a 16-bit value.
    fn advance_pc(&mut self)
        ensures
            final(self)@ == spec_advance_pc(old(self)@),
    {
        self.program_counter = ((self.program_counter as u32 + 2) % 0x10000) as u16;
    }

    /// The per-step timer tick: both countdown registers drop by the elapsed
    /// interval count, saturating at zero.
    fn tick_timers(&mut self, ticks: u8)
        ensures
            final(self)@ == spec_tick(old(self)@, ticks),
    {
        self.delay_reg = if self.delay_reg >= ticks {
            self.delay_reg - ticks
        } else {
            0
        };
        self.sound_reg = if self.sound_reg >= ticks {
            self.sound_reg - ticks
        } else {
            0
        };
    }

    /// Fetches the opcode at the program counter, advances the counter by 2
    /// before dispatch, and decodes. A bit pattern outside the instruction
    /// set reports the raw opcode and the address it was fetched from.
    fn next_instruction(&mut self) -> (r: Result<Instruction, Chip8Error>)
        ensures
            final(self)@ == spec_advance_pc(old(self)@),
            r == (match spec_decode(spec_fetch_hi(old(self)@), spec_fetch_lo(old(self)@)) {
                Some(i) => Ok::<Instruction, Chip8Error>(i),
                None => Err::<Instruction, Chip8Error>(
                    Chip8Error::InvalidInstruction(spec_opcode(old(self)@), old(self)@.pc),
                ),
            }),
            r matches Ok(i) ==> inst_wf(i),
    {
        let pc = self.program_counter as usize;
        let b0 = self.mem[pc % 4096];
        let b1 = self.mem[(pc + 1) % 4096];
        self.advance_pc();

        proof {
            lemma_decode_wf(b0, b1);
        }
        match Instruction::from_bytes([b0, b1]) {
            Ok(inst) => Ok(inst),
            Err(_) => Err(
                Chip8Error::InvalidInstruction(((b0 as u16) << 8) | (b1 as u16), pc as u16),
            ),
        }
    }

    /// Executes one decoded instruction against the machine state; `key` is
    /// what the keypad poll reported for this step. Every decodable
    /// instruction is handled, so this always succeeds.
    fn execute_instruction(&mut self, instruction: Instruction, key: Option<u8>) -> (r: Result<
        (),
        Chip8Error,
    >)
        requires
            inst_wf(instruction),
        ensures
            r == Ok::<(), Chip8Error>(()),
            final(self)@ == spec_execute(old(self)@, instruction, key),
    {
        match instruction {
            // Display
            Instruction::ClearScreen() => {
                self.screen.clear();
                Ok(())
            }
            Instruction::Draw(vx, vy, sprite_size) => {
                let mut sprite: Vec<u8> = Vec::new();
                let mut k: usize = 0;
                while k < sprite_size as usize
                    invariant
                        sprite@.len() == k,
                        k <= sprite_size,
                        self == old(self),
                        forall|t: int|
                            0 <= t < k ==> #[trigger] sprite@[t] == self.mem@[spec_mem_addr(
                                self.i_reg as int,
                                t,
                            )],
                    decreases sprite_size - k,
                {
                    sprite.push(self.mem[(self.i_reg as usize + k) % 4096]);
                    k += 1;
                }
                proof {
                    assert(sprite@ =~= spec_sprite(
                        self.mem@,
                        self.i_reg as int,
                        sprite_size as int,
                    ));
                }

                let x = self.v_reg[vx as usize];
                let y = self.v_reg[vy as usize];
                let did_collide = self.screen.write_sprite(
                    x as usize,
                    y as usize,
                    sprite.as_slice(),
                );
                self.v_reg[0xF] = if did_collide {
                    1
                } else {
                    0
                };
                Ok(())
            }
            // Control Flow
            Instruction::Jump(addr) => {
                self.program_counter = addr;
                Ok(())
            }
            Instruction::SkipIfEqualImm(vx, imm) => {
                if self.v_reg[vx as usize] == imm {
                    self.advance_pc();
                }
                Ok(())
            }
            Instruction::SkipIfNotEqualImm(vx, imm) => {
                if self.v_reg[vx as usize] != imm {
                    self.advance_pc();
                }
                Ok(())
            }
            Instruction::SkipIfEqualReg(vx, vy) => {
                if self.v_reg[vx as usize] == self.v_reg[vy as usize] {
                    self.advance_pc();
                }
                Ok(())
            }
            Instruction::SkipIfNotEqualReg(vx, vy) => {
                if self.v_reg[vx as usize] != self.v_reg[vy as usize] {
                    self.advance_pc();
                }
                Ok(())
            }
            Instruction::SubroutineCall(addr) => {
                self.stack.push(self.program_counter);
                self.program_counter = addr;
                Ok(())
            }
            Instruction::SubroutineReturn() => {
                // If the stack underflows, the program returns to the start.
                self.program_counter = match self.stack.pop() {
                    Some(addr) => addr,
                    None => PROGRAM_START as u16,
                };
                Ok(())
            }
            Instruction::JumpV0(addr) => {
                self.program_counter = ((addr as u32 + self.v_reg[0] as u32) % 0x10000) as u16;
                Ok(())
            }
            // Memory
            Instruction::LoadRegReg(vx, vy) => {
                self.v_reg[vx as usize] = self.v_reg[vy as usize];
                Ok(())
            }
            Instruction::LoadRegImm(vx, imm) => {
                self.v_reg[vx as usize] = imm;
                Ok(())
            }
            Instruction::LoadAddress(addr) => {
                self.i_reg = addr;
                Ok(())
            }
            Instruction::LoadMemoryRegisters(vx) => {
                // Dumps registers v0..=vx to memory starting at i
                let ghost m0 = self.mem@;
                let mut k: usize = 0;
                while k < vx as usize + 1
                    invariant
                        k <= vx + 1,
                        vx < 16,
                        self.v_reg == old(self).v_reg,
                        self.i_reg == old(self).i_reg,
                        self.delay_reg == old(self).delay_reg,
                        self.sound_reg == old(self).sound_reg,
                        self.program_counter == old(self).program_counter,
                        self.stack == old(self).stack,
                        self.rand_state == old(self).rand_state,
                        self.screen == old(self).screen,
                        m0 == old(self)@.mem,
                        self.mem@ == spec_store_regs(m0, self.v_reg@, self.i_reg as int, k as int),
                    decreases vx + 1 - k,
                {
                    self.mem[(self.i_reg as usize + k) % 4096] = self.v_reg[k];
                    k += 1;
                }
                Ok(())
            }
            Instruction::LoadRegistersMemory(vx) => {
                // Loads registers v0..=vx from memory starting at i
                let ghost v0 = self.v_reg@;
                let mut k: usize = 0;
                while k < vx as usize + 1
                    invariant
                        k <= vx + 1,
                        vx < 16,
                        self.mem == old(self).mem,
                        self.i_reg == old(self).i_reg,
                        self.delay_reg == old(self).delay_reg,
                        self.sound_reg == old(self).sound_reg,
                        self.program_counter == old(self).program_counter,
                        self.stack == old(self).stack,
                        self.rand_state == old(self).rand_state,
                        self.screen == old(self).screen,
                        v0 == old(self)@.v,
                        self.v_reg@ == spec_load_regs(v0, self.mem@, self.i_reg as int, k as int),
                    decreases vx + 1 - k,
                {
                    self.v_reg[k] = self.mem[(self.i_reg as usize + k) % 4096];
                    k += 1;
                }
                Ok(())
            }
            // Math
            Instruction::AddImm(vx, imm) => {
                let sum: u16 = self.v_reg[vx as usize] as u16 + imm as u16;
                self.v_reg[vx as usize] = (sum % 256) as u8;
                self.v_reg[0xF] = if sum > 255 {
                    1
                } else {
                    0
                };
                Ok(())
            }
            Instruction::AddReg(vx, vy) => {
                let sum: u16 = self.v_reg[vx as usize] as u16 + self.v_reg[vy as usize] as u16;
                self.v_reg[vx as usize] = (sum % 256) as u8;
                self.v_reg[0xF] = if sum > 255 {
                    1
                } else {
                    0
                };
                Ok(())
            }
            Instruction::SubtractReg(vx, vy) => {
                let x = self.v_reg[vx as usize];
                let y = self.v_reg[vy as usize];
                // NOT-borrow: 1 when the minuend is not less than the
                // subtrahend.
                self.v_reg[0xF] = if x >= y {
                    1
                } else {
                    0
                };
                self.v_reg[vx as usize] = (((x as u16 + 256) - y as u16) % 256) as u8;
                Ok(())
            }
            Instruction::SubtractRegSwapped(vx, vy) => {
                let x = self.v_reg[vx as usize];
                let y = self.v_reg[vy as usize];
                self.v_reg[0xF] = if y >= x {
                    1
                } else {
                    0
                };
                self.v_reg[vx as usize] = (((y as u16 + 256) - x as u16) % 256) as u8;
                Ok(())
            }
            // Logic
            Instruction::OrReg(vx, vy) => {
                self.v_reg[vx as usize] = self.v_reg[vx as usize] | self.v_reg[vy as usize];
                Ok(())
            }
            Instruction::AndReg(vx, vy) => {
                self.v_reg[vx as usize] = self.v_reg[vx as usize] & self.v_reg[vy as usize];
                Ok(())
            }
            Instruction::XorReg(vx, vy) => {
                self.v_reg[vx as usize] = self.v_reg[vx as usize] ^ self.v_reg[vy as usize];
                Ok(())
            }
            Instruction::ShiftRight(vx, _) => {
                let x = self.v_reg[vx as usize];
                self.v_reg[0xF] = x & 1;
                self.v_reg[vx as usize] = x >> 1;
                Ok(())
            }
            Instruction::ShiftLeft(vx, _) => {
                let x = self.v_reg[vx as usize];
                self.v_reg[0xF] = (x & 0x80) >> 7;
                self.v_reg[vx as usize] = x << 1;
                Ok(())
            }
            // Random
            Instruction::Random(vx, imm) => {
                let nr: u16 = ((self.rand_state as u32 * 25173 + 13849) % 0x10000) as u16;
                self.rand_state = nr;
                self.v_reg[vx as usize] = ((nr >> 8) as u8) & imm;
                Ok(())
            }
            // Keypad
            Instruction::SkipIfPressed(vx) => {
                let hit = match key {
                    Some(k) => k == self.v_reg[vx as usize],
                    None => false,
                };
                if hit {
                    self.advance_pc();
                }
                Ok(())
            }
            Instruction::SkipIfNotPressed(vx) => {
                let hit = match key {
                    Some(k) => k == self.v_reg[vx as usize],
                    None => false,
                };
                if !hit {
                    self.advance_pc();
                }
                Ok(())
            }
            Instruction::LoadKey(vx) => {
                match key {
                    Some(k) => {
                        self.v_reg[vx as usize] = k;
                    }
                    None => {
                        // Retry this same instruction on the next step.
                        self.program_counter = ((self.program_counter as u32 + 0x10000 - 2)
                            % 0x10000) as u16;
                    }
                }
                Ok(())
            }
            // Timers
            Instruction::LoadRegDelay(vx) => {
                self.v_reg[vx as usize] = self.delay_reg;
                Ok(())
            }
            Instruction::LoadDelayReg(vx) => {
                self.delay_reg = self.v_reg[vx as usize];
                Ok(())
            }
            Instruction::LoadSoundReg(vx) => {
                self.sound_reg = self.v_reg[vx as usize];
                Ok(())
            }
            // Address register
            Instruction::AddAddress(vx) => {
                self.i_reg = ((self.i_reg as u32 + self.v_reg[vx as usize] as u32)
                    % 0x10000) as u16;
                Ok(())
            }
            Instruction::LoadAddressDigit(vx) => {
                self.i_reg = character_offset(self.v_reg[vx as usize] as u16);
                Ok(())
            }
            // BCD
            Instruction::LoadMemoryBcd(vx) => {
                let x = self.v_reg[vx as usize];
                let base = self.i_reg as usize;
                self.mem[base % 4096] = x / 100;
                self.mem[(base + 1) % 4096] = (x / 10) % 10;
                self.mem[(base + 2) % 4096] = x % 10;
                Ok(())
            }
        }
    }

    /// One whole machine step from externally supplied inputs: `key` is the
    /// currently held key (if any) and `ticks` how many 60 Hz intervals have
    /// elapsed. Timers tick, then the opcode at the program counter is
    /// fetched, the counter advances by 2, and the instruction executes.
    /// Fails exactly when the fetched bit pattern decodes to no instruction.
    pub fn step_with_inputs(&mut self, key: Option<u8>, ticks: u8) -> (r: Result<(), Chip8Error>)
        ensures
            final(self)@ == spec_step_state(old(self)@, key, ticks),
            r == spec_step_result(old(self)@, key, ticks),
    {
        self.tick_timers(ticks);
        match self.next_instruction() {
            Ok(inst) => self.execute_instruction(inst, key),
            Err(e) => Err(e),
        }
    }

    /// One whole machine step, polling the timer and keypad sources this
    /// machine was built with. The state changes exactly as one
    /// `step_with_inputs` call with whatever those polls reported.
    pub fn step_execution(&mut self) -> (r: Result<(), Chip8Error>)
        ensures
            exists|key: Option<u8>, ticks: u8|
                final(self)@ == #[trigger] spec_step_state(old(self)@, key, ticks) && r
                    == spec_step_result(old(self)@, key, ticks),
    {
        let ticks = self.timer.cycles_passed();
        let key = self.keyboard.pressed_key();
        let r = self.step_with_inputs(key, ticks);
        proof {
            assert(self@ == spec_step_state(old(self)@, key, ticks));
        }
        r
    }

    /// General-purpose register `x`.
    pub fn v_register(&self, x: u8) -> (r: u8)
        requires
            x < 16,
        ensures
            r == self@.v[x as int],
    {
        self.v_reg[x as usize]
    }

    /// The program counter.
    pub fn program_counter(&self) -> (r: u16)
        ensures
            r == self@.pc,
    {
        self.program_counter
    }

    /// The address register I.
    pub fn i_register(&self) -> (r: u16)
        ensures
            r == self@.i,
    {
        self.i_reg
    }

    /// The delay countdown register.
    pub fn delay_timer(&self) -> (r: u8)
        ensures
            r == self@.delay,
    {
        self.delay_reg
    }

    /// The sound countdown register.
    pub fn sound_timer(&self) -> (r: u8)
        ensures
            r == self@.sound,
    {
        self.sound_reg
    }

    /// How many return addresses the call stack holds.
    pub fn stack_depth(&self) -> (r: usize)
        ensures
            r == self@.stack.len(),
    {
        self.stack.len()
    }

    /// The byte at memory address `addr`.
    pub fn memory_at(&self, addr: usize) -> (r: u8)
        requires
            addr < 4096,
        ensures
            r == self@.mem[addr as int],
    {
        self.mem[addr]
    }

    /// The raw display rows, bit 0 of a row word being its leftmost pixel.
    pub fn screen_raw(&self) -> (r: [u64; 32])
        ensures
            r@ == self@.grid,
    {
        self.screen.as_raw()
    }
}

} // verus!
