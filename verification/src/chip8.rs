//! The executable interpreter core.
//!
//! [`Chip8`] owns all mutable machine state. Its ghost image is the
//! [`MState`] of [`crate::semantics`], and every method is proved to
//! effect exactly the transition the model prescribes.

use vstd::pervasive::VecAdditionalExecFns;
use vstd::prelude::*;

use crate::semantics::{
    eff_00e0, eff_00ee, eff_1nnn, eff_2nnn, eff_3xnn, eff_4xnn, eff_5xy0, eff_6xnn, eff_7xnn,
    eff_8xy0, eff_8xy1, eff_8xy2, eff_8xy3, eff_8xy4, eff_8xy5, eff_8xy6, eff_8xy7, eff_8xye,
    eff_9xy0, eff_annn, eff_bnnn, eff_cxnn, eff_dxyn, eff_ex9e, eff_exa1, eff_fx07, eff_fx0a,
    eff_fx15, eff_fx18, eff_fx1e, eff_fx29, eff_fx33, eff_fx55, eff_fx65, eff_tick, eff_unknown,
    initial_state, lemma_scan_prefix, load_overlay, opcode_at, scan_key, spec_step, wf_state,
    with_font, draw_cols, draw_rows, font_sel, MState, DISPLAY_SIZE, FONT_START, MAX_PROGRAM_SIZE,
    MEMORY_SIZE, PIXEL_OFF, PIXEL_ON, PROGRAM_START,
};
use crate::stack::Stack;

verus! {

/// The one failure the program-loading path can surface: an image larger
/// than the memory left above the program start address.
#[derive(Clone, Copy, Debug, PartialEq, Eq, Structural)]
pub enum LoadRomError {
    ProgramTooLarge,
}

/// Relies on rand::random: one byte from the thread-local generator.
/// Nothing is promised of the result; callers state what holds of every
/// outcome.
#[verifier::external_body]
fn random_byte() -> u8 {
    rand::random::<u8>()
}

/// The machine: memory, call stack, display, registers, timers, input
/// state and the keyboard-wait latch.
pub struct Chip8 {
    pub ram: Vec<u8>,
    pub stack: Stack,
    pub display_buffer: Vec<u32>,
    pub update_window: bool,
    pub v: Vec<u8>,
    pub keys: [bool; 16],
    pub delay: u8,
    pub sound: u8,
    pub i: usize,
    pub pc: usize,
    pub waiting_key: Option<u8>,
}

impl View for Chip8 {
    type V = MState;

    open spec fn view(&self) -> MState {
        MState {
            ram: self.ram@,
            stack: self.stack@,
            display: self.display_buffer@,
            update_window: self.update_window,
            v: self.v@,
            keys: self.keys@,
            delay: self.delay,
            sound: self.sound,
            i: self.i,
            pc: self.pc,
            waiting_key: self.waiting_key,
        }
    }
}

/// The glyph-table byte at offset `j`.
fn font_byte(j: usize) -> (b: u8)
    requires
        j < 80,
    ensures
        b == font_sel(j as int),
{
    let g = j / 5;
    let r = j % 5;
    match g {
        0x0 => if r == 0 { 0xF0 } else if r == 1 { 0x90 } else if r == 2 { 0x90 } else if r == 3 { 0x90 } else { 0xF0 },
        0x1 => if r == 0 { 0x20 } else if r == 1 { 0x60 } else if r == 2 { 0x20 } else if r == 3 { 0x20 } else { 0x70 },
        0x2 => if r == 0 { 0xF0 } else if r == 1 { 0x10 } else if r == 2 { 0xF0 } else if r == 3 { 0x80 } else { 0xF0 },
        0x3 => if r == 0 { 0xF0 } else if r == 1 { 0x10 } else if r == 2 { 0xF0 } else if r == 3 { 0x10 } else { 0xF0 },
        0x4 => if r == 0 { 0x90 } else if r == 1 { 0x90 } else if r == 2 { 0xF0 } else if r == 3 { 0x10 } else { 0x10 },
        0x5 => if r == 0 { 0xF0 } else if r == 1 { 0x80 } else if r == 2 { 0xF0 } else if r == 3 { 0x10 } else { 0xF0 },
        0x6 => if r == 0 { 0xF0 } else if r == 1 { 0x80 } else if r == 2 { 0xF0 } else if r == 3 { 0x90 } else { 0xF0 },
        0x7 => if r == 0 { 0xF0 } else if r == 1 { 0x10 } else if r == 2 { 0x20 } else if r == 3 { 0x40 } else { 0x40 },
        0x8 => if r == 0 { 0xF0 } else if r == 1 { 0x90 } else if r == 2 { 0xF0 } else if r == 3 { 0x90 } else { 0xF0 },
        0x9 => if r == 0 { 0xF0 } else if r == 1 { 0x90 } else if r == 2 { 0xF0 } else if r == 3 { 0x10 } else { 0xF0 },
        0xA => if r == 0 { 0xF0 } else if r == 1 { 0x90 } else if r == 2 { 0xF0 } else if r == 3 { 0x90 } else { 0x90 },
        0xB => if r == 0 { 0xE0 } else if r == 1 { 0x90 } else if r == 2 { 0xE0 } else if r == 3 { 0x90 } else { 0xE0 },
        0xC => if r == 0 { 0xF0 } else if r == 1 { 0x80 } else if r == 2 { 0x80 } else if r == 3 { 0x80 } else { 0xF0 },
        0xD => if r == 0 { 0xE0 } else if r == 1 { 0x90 } else if r == 2 { 0x90 } else if r == 3 { 0x90 } else { 0xE0 },
        0xE => if r == 0 { 0xF0 } else if r == 1 { 0x80 } else if r == 2 { 0xF0 } else if r == 3 { 0x80 } else { 0xF0 },
        _ => if r == 0 { 0xF0 } else if r == 1 { 0x80 } else if r == 2 { 0xF0 } else if r == 3 { 0x80 } else { 0x80 },
    }
}

impl Chip8 {
    /// Well-formedness of the machine state; see [`wf_state`].
    pub open spec fn wf(&self) -> bool {
        wf_state(self@)
    }

    /// A fresh machine: memory, registers and display zeroed, the glyph
    /// table written into its reserved range, the program counter at the
    /// program load area.
    pub fn new() -> (m: Chip8)
        ensures
            m.wf(),
            m@ == initial_state(),
    {
        let mut ram: Vec<u8> = Vec::new();
        while ram.len() < MEMORY_SIZE
            invariant
                ram@.len() <= MEMORY_SIZE,
                forall|a: int| 0 <= a < ram@.len() ==> ram@[a] == 0u8,
            decreases MEMORY_SIZE - ram@.len(),
        {
            ram.push(0u8);
        }
        let mut display_buffer: Vec<u32> = Vec::new();
        while display_buffer.len() < DISPLAY_SIZE
            invariant
                display_buffer@.len() <= DISPLAY_SIZE,
                forall|k: int| 0 <= k < display_buffer@.len() ==> display_buffer@[k] == PIXEL_OFF,
            decreases DISPLAY_SIZE - display_buffer@.len(),
        {
            display_buffer.push(PIXEL_OFF);
        }
        let mut v: Vec<u8> = Vec::new();
        while v.len() < 16
            invariant
                v@.len() <= 16,
                forall|r: int| 0 <= r < v@.len() ==> v@[r] == 0u8,
            decreases 16 - v@.len(),
        {
            v.push(0u8);
        }
        let mut m = Chip8 {
            ram,
            stack: Stack::new(),
            display_buffer,
            update_window: false,
            v,
            keys: [false; 16],
            delay: 0,
            sound: 0,
            i: 0,
            pc: PROGRAM_START,
            waiting_key: None,
        };
        m.load_font();
        proof {
            assert(m@.ram =~= initial_state().ram);
            assert(m@.display =~= initial_state().display);
            assert(m@.v =~= initial_state().v);
            assert(m@.keys =~= initial_state().keys);
            assert(m@.stack =~= initial_state().stack);
            assert(m@ =~= initial_state());
        }
        m
    }

    /// Writes the fixed glyph table into its reserved memory range; the
    /// rest of the state is untouched.
    pub fn load_font(&mut self)
        requires
            old(self).wf(),
        ensures
            final(self).wf(),
            final(self)@ == with_font(old(self)@),
    {
        let ghost s0 = self@;
        let mut j: usize = 0;
        while j < 80
            invariant
                j <= 80,
                s0.ram.len() == MEMORY_SIZE,
                self.ram@.len() == MEMORY_SIZE,
                self@ == (MState { ram: self.ram@, ..s0 }),
                forall|a: int| 0 <= a < MEMORY_SIZE ==> self.ram@[a] == (
                    if FONT_START <= a < FONT_START + j {
                        font_sel(a - FONT_START)
                    } else {
                        s0.ram[a]
                    }
                ),
            decreases 80 - j,
        {
            let b = font_byte(j);
            self.ram.set(FONT_START + j, b);
            j += 1;
        }
        proof {
            assert(self@.ram =~= with_font(s0).ram);
            assert(self@ =~= with_font(s0));
        }
    }

    /// Copies a program image into memory at the program start address.
    /// An image larger than the load area is rejected and nothing is
    /// written.
    pub fn load_rom(&mut self, rom: &[u8]) -> (r: Result<(), LoadRomError>)
        requires
            old(self).wf(),
        ensures
            final(self).wf(),
            rom@.len() <= MAX_PROGRAM_SIZE ==> r == Ok::<(), LoadRomError>(())
                && final(self)@ == (MState {
                    ram: load_overlay(old(self)@.ram, rom@),
                    ..old(self)@
                }),
            rom@.len() > MAX_PROGRAM_SIZE ==> r == Err::<(), LoadRomError>(
                LoadRomError::ProgramTooLarge,
            ) && final(self)@ == old(self)@,
    {
        let ghost s0 = self@;
        if rom.len() > MAX_PROGRAM_SIZE {
            return Err(LoadRomError::ProgramTooLarge);
        }
        let mut j: usize = 0;
        while j < rom.len()
            invariant
                j <= rom@.len(),
                rom@.len() <= MAX_PROGRAM_SIZE,
                s0.ram.len() == MEMORY_SIZE,
                self.ram@.len() == MEMORY_SIZE,
                self@ == (MState { ram: self.ram@, ..s0 }),
                forall|a: int| 0 <= a < MEMORY_SIZE ==> self.ram@[a] == (
                    if PROGRAM_START <= a < PROGRAM_START + j {
                        rom@[a - PROGRAM_START]
                    } else {
                        s0.ram[a]
                    }
                ),
            decreases rom@.len() - j,
        {
            let b = rom[j];
            self.ram.set(PROGRAM_START + j, b);
            j += 1;
        }
        proof {
            assert(self@.ram =~= load_overlay(s0.ram, rom@));
            assert(self@ =~= (MState { ram: load_overlay(s0.ram, rom@), ..s0 }));
        }
        Ok(())
    }

    /// A read-only view of the display grid; the dirty flag is the public
    /// `update_window` field, cleared by the consumer, never here.
    pub fn get_display_buffer(&self) -> (r: &[u32])
        ensures
            r@ == self@.display,
    {
        self.display_buffer.as_slice()
    }

    /// Replaces the sixteen logical button states wholesale.
    pub fn set_keys(&mut self, new_keys: [bool; 16])
        requires
            old(self).wf(),
        ensures
            final(self).wf(),
            final(self)@ == (MState { keys: new_keys@, ..old(self)@ }),
    {
        self.keys = new_keys;
    }

    /// One 60 Hz tick: both timers count down, saturating at 0.
    pub fn decrement_timers(&mut self)
        requires
            old(self).wf(),
        ensures
            final(self).wf(),
            final(self)@ == eff_tick(old(self)@),
    {
        if self.delay > 0 {
            self.delay = self.delay - 1;
        }
        if self.sound > 0 {
            self.sound = self.sound - 1;
        }
    }

    /// The 16-bit opcode at the program counter, big-endian.
    fn fetch_next_instruction(&self) -> (op: u16)
        requires
            self.wf(),
            self.pc + 1 < MEMORY_SIZE,
        ensures
            op == opcode_at(self@.ram, self@.pc),
    {
        let high_byte = self.ram[self.pc] as u16;
        let low_byte = self.ram[self.pc + 1] as u16;
        (high_byte << 8u16) | low_byte
    }

    /// Clears the screen: every cell to the background colour, marked dirty.
    pub fn op_00e0(&mut self)
        requires
            old(self).wf(),
            old(self).pc + 2 <= usize::MAX,
        ensures
            final(self).wf(),
            final(self)@ == eff_00e0(old(self)@),
    {
        let ghost s0 = self@;
        let mut k: usize = 0;
        while k < DISPLAY_SIZE
            invariant
                k <= DISPLAY_SIZE,
                self.display_buffer@.len() == DISPLAY_SIZE,
                self@ == (MState { display: self.display_buffer@, ..s0 }),
                forall|c: int| 0 <= c < k ==> self.display_buffer@[c] == PIXEL_OFF,
            decreases DISPLAY_SIZE - k,
        {
            self.display_buffer.set(k, PIXEL_OFF);
            k += 1;
        }
        self.update_window = true;
        self.pc = self.pc + 2;
        proof {
            assert(self@.display =~= eff_00e0(s0).display);
            assert(self@ =~= eff_00e0(s0));
        }
    }

    /// Returns from a subroutine: pops the call stack into the program
    /// counter; an empty stack is a recoverable condition that falls back
    /// to address 0.
    pub fn op_00ee(&mut self)
        requires
            old(self).wf(),
        ensures
            final(self).wf(),
            final(self)@ == eff_00ee(old(self)@),
    {
        let addr = self.stack.pop();
        self.pc = addr;
    }

    /// Jumps to memory location `nnn`.
    pub fn op_1nnn(&mut self, nnn: u16)
        requires
            old(self).wf(),
        ensures
            final(self).wf(),
            final(self)@ == eff_1nnn(old(self)@, nnn),
    {
        self.pc = nnn as usize;
    }

    /// Calls the subroutine at memory location `nnn`.
    pub fn op_2nnn(&mut self, nnn: u16)
        requires
            old(self).wf(),
            old(self).pc + 2 <= usize::MAX,
        ensures
            final(self).wf(),
            final(self)@ == eff_2nnn(old(self)@, nnn),
    {
        let ret = self.pc + 2;
        self.stack.push(ret);
        self.pc = nnn as usize;
    }

    /// Skips the next instruction if `VX == nn`.
    pub fn op_3xnn(&mut self, x: usize, nn: u8)
        requires
            old(self).wf(),
            x < 16,
            old(self).pc + 4 <= usize::MAX,
        ensures
            final(self).wf(),
            final(self)@ == eff_3xnn(old(self)@, x as int, nn),
    {
        if self.v[x] == nn {
            self.pc = self.pc + 4;
        } else {
            self.pc = self.pc + 2;
        }
    }

    /// Skips the next instruction if `VX != nn`.
    pub fn op_4xnn(&mut self, x: usize, nn: u8)
        requires
            old(self).wf(),
            x < 16,
            old(self).pc + 4 <= usize::MAX,
        ensures
            final(self).wf(),
            final(self)@ == eff_4xnn(old(self)@, x as int, nn),
    {
        if self.v[x] != nn {
            self.pc = self.pc + 4;
        } else {
            self.pc = self.pc + 2;
        }
    }

    /// Skips the next instruction if `VX == VY`.
    pub fn op_5xy0(&mut self, x: usize, y: usize)
        requires
            old(self).wf(),
            x < 16,
            y < 16,
            old(self).pc + 4 <= usize::MAX,
        ensures
            final(self).wf(),
            final(self)@ == eff_5xy0(old(self)@, x as int, y as int),
    {
        if self.v[x] == self.v[y] {
            self.pc = self.pc + 4;
        } else {
            self.pc = self.pc + 2;
        }
    }

    /// Sets `VX` to `nn`.
    pub fn op_6xnn(&mut self, x: usize, nn: u8)
        requires
            old(self).wf(),
            x < 16,
            old(self).pc + 2 <= usize::MAX,
        ensures
            final(self).wf(),
            final(self)@ == eff_6xnn(old(self)@, x as int, nn),
    {
        self.v.set(x, nn);
        self.pc = self.pc + 2;
    }

    /// Adds `nn` to `VX`, wrapping; the flag register is not touched.
    pub fn op_7xnn(&mut self, x: usize, nn: u8)
        requires
            old(self).wf(),
            x < 16,
            old(self).pc + 2 <= usize::MAX,
        ensures
            final(self).wf(),
            final(self)@ == eff_7xnn(old(self)@, x as int, nn),
    {
        let sum = ((self.v[x] as u16 + nn as u16) % 256) as u8;
        self.v.set(x, sum);
        self.pc = self.pc + 2;
    }

    /// Sets `VX` to `VY`.
    pub fn op_8xy0(&mut self, x: usize, y: usize)
        requires
            old(self).wf(),
            x < 16,
            y < 16,
            old(self).pc + 2 <= usize::MAX,
        ensures
            final(self).wf(),
            final(self)@ == eff_8xy0(old(self)@, x as int, y as int),
    {
        let val = self.v[y];
        self.v.set(x, val);
        self.pc = self.pc + 2;
    }

    /// Sets `VX` to `VX OR VY`.
    pub fn op_8xy1(&mut self, x: usize, y: usize)
        requires
            old(self).wf(),
            x < 16,
            y < 16,
            old(self).pc + 2 <= usize::MAX,
        ensures
            final(self).wf(),
            final(self)@ == eff_8xy1(old(self)@, x as int, y as int),
    {
        let val = self.v[x] | self.v[y];
        self.v.set(x, val);
        self.pc = self.pc + 2;
    }

    /// Sets `VX` to `VX AND VY`.
    pub fn op_8xy2(&mut self, x: usize, y: usize)
        requires
            old(self).wf(),
            x < 16,
            y < 16,
            old(self).pc + 2 <= usize::MAX,
        ensures
            final(self).wf(),
            final(self)@ == eff_8xy2(old(self)@, x as int, y as int),
    {
        let val = self.v[x] & self.v[y];
        self.v.set(x, val);
        self.pc = self.pc + 2;
    }

    /// Sets `VX` to `VX XOR VY`.
    pub fn op_8xy3(&mut self, x: usize, y: usize)
        requires
            old(self).wf(),
            x < 16,
            y < 16,
            old(self).pc + 2 <= usize::MAX,
        ensures
            final(self).wf(),
            final(self)@ == eff_8xy3(old(self)@, x as int, y as int),
    {
        let val = self.v[x] ^ self.v[y];
        self.v.set(x, val);
        self.pc = self.pc + 2;
    }

    /// Sets `VX` to `VX + VY`, wrapping; the flag register is 1 exactly
    /// when the unsigned sum exceeds 255.
    pub fn op_8xy4(&mut self, x: usize, y: usize)
        requires
            old(self).wf(),
            x < 16,
            y < 16,
            old(self).pc + 2 <= usize::MAX,
        ensures
            final(self).wf(),
            final(self)@ == eff_8xy4(old(self)@, x as int, y as int),
    {
        let wide = self.v[x] as u16 + self.v[y] as u16;
        let carry: u8 = if wide > 255 { 1 } else { 0 };
        self.v.set(x, (wide % 256) as u8);
        self.v.set(15, carry);
        self.pc = self.pc + 2;
    }

    /// Sets `VX` to `VX - VY`, wrapping; the flag register is 1 exactly
    /// when no borrow occurred, that is when `VX >= VY`.
    pub fn op_8xy5(&mut self, x: usize, y: usize)
        requires
            old(self).wf(),
            x < 16,
            y < 16,
            old(self).pc + 2 <= usize::MAX,
        ensures
            final(self).wf(),
            final(self)@ == eff_8xy5(old(self)@, x as int, y as int),
    {
        let a = self.v[x];
        let b = self.v[y];
        let flag: u8 = if a >= b { 1 } else { 0 };
        let diff = ((a as u16 + 256 - b as u16) % 256) as u8;
        self.v.set(x, diff);
        self.v.set(15, flag);
        self.pc = self.pc + 2;
    }

    /// Shifts `VX` right by one; the flag register receives the bit
    /// shifted out.
    pub fn op_8xy6(&mut self, x: usize)
        requires
            old(self).wf(),
            x < 16,
            old(self).pc + 2 <= usize::MAX,
        ensures
            final(self).wf(),
            final(self)@ == eff_8xy6(old(self)@, x as int),
    {
        let val = self.v[x];
        let carry = val & 1u8;
        self.v.set(x, val >> 1u8);
        self.v.set(15, carry);
        self.pc = self.pc + 2;
    }

    /// Sets `VX` to `VY - VX`, wrapping; the flag register is 1 exactly
    /// when no borrow occurred, that is when `VY >= VX`.
    pub fn op_8xy7(&mut self, x: usize, y: usize)
        requires
            old(self).wf(),
            x < 16,
            y < 16,
            old(self).pc + 2 <= usize::MAX,
        ensures
            final(self).wf(),
            final(self)@ == eff_8xy7(old(self)@, x as int, y as int),
    {
        let a = self.v[x];
        let b = self.v[y];
        let flag: u8 = if b >= a { 1 } else { 0 };
        let diff = ((b as u16 + 256 - a as u16) % 256) as u8;
        self.v.set(x, diff);
        self.v.set(15, flag);
        self.pc = self.pc + 2;
    }

    /// Shifts `VX` left by one, wrapping; the flag register receives the
    /// bit shifted out.
    pub fn op_8xye(&mut self, x: usize)
        requires
            old(self).wf(),
            x < 16,
            old(self).pc + 2 <= usize::MAX,
        ensures
            final(self).wf(),
            final(self)@ == eff_8xye(old(self)@, x as int),
    {
        let val = self.v[x];
        let carry = (val & 0x80u8) >> 7u8;
        self.v.set(x, val << 1u8);
        self.v.set(15, carry);
        self.pc = self.pc + 2;
    }

    /// Skips the next instruction if `VX != VY`.
    pub fn op_9xy0(&mut self, x: usize, y: usize)
        requires
            old(self).wf(),
            x < 16,
            y < 16,
            old(self).pc + 4 <= usize::MAX,
        ensures
            final(self).wf(),
            final(self)@ == eff_9xy0(old(self)@, x as int, y as int),
    {
        if self.v[x] != self.v[y] {
            self.pc = self.pc + 4;
        } else {
            self.pc = self.pc + 2;
        }
    }

    /// Sets the address register to `nnn`.
    pub fn op_annn(&mut self, nnn: u16)
        requires
            old(self).wf(),
            old(self).pc + 2 <= usize::MAX,
        ensures
            final(self).wf(),
            final(self)@ == eff_annn(old(self)@, nnn),
    {
        self.i = nnn as usize;
        self.pc = self.pc + 2;
    }

    /// Jumps to memory location `nnn + V0`; only register 0 participates.
    pub fn op_bnnn(&mut self, nnn: u16)
        requires
            old(self).wf(),
            nnn <= 0xFFF,
        ensures
            final(self).wf(),
            final(self)@ == eff_bnnn(old(self)@, nnn),
    {
        let v0 = self.v[0] as u16;
        self.pc = (nnn + v0) as usize;
    }

    /// Sets `VX` to a random byte masked by `nn`. The drawn byte is not
    /// promised anything; the effect holds for whatever byte came back.
    pub fn op_cxnn(&mut self, x: usize, nn: u8)
        requires
            old(self).wf(),
            x < 16,
            old(self).pc + 2 <= usize::MAX,
        ensures
            final(self).wf(),
            exists|rnd: u8| final(self)@ == eff_cxnn(old(self)@, x as int, nn, rnd),
    {
        let ghost s0 = self@;
        let rnd = random_byte();
        self.v.set(x, rnd & nn);
        self.pc = self.pc + 2;
        proof {
            assert(self@ == eff_cxnn(s0, x as int, nn, rnd));
        }
    }

    /// Draws the `n`-row sprite at the address register to the screen at
    /// the coordinates in `VX` and `VY`, wrapped once into the grid; set
    /// bits toggle cells, the flag register reports whether any cell that
    /// was on was toggled off, and rows past the bottom edge, columns past
    /// the right edge and sprite bytes past the end of memory are clipped.
    pub fn op_dxyn(&mut self, x: usize, y: usize, n: usize)
        requires
            old(self).wf(),
            x < 16,
            y < 16,
            n <= 15,
            old(self).pc + 2 <= usize::MAX,
        ensures
            final(self).wf(),
            final(self)@ == eff_dxyn(old(self)@, x as int, y as int, n as int),
    {
        let ghost s0 = self@;
        let vx = self.v[x];
        let vy = self.v[y];
        let xc = (vx & 63) as usize;
        let yc = (vy & 31) as usize;
        proof {
            assert(vx & 63u8 < 64 && vy & 31u8 < 32) by (bit_vector);
        }
        self.v.set(15, 0);
        let mut row: usize = 0;
        while row < n && yc + row < 32 && self.i < MEMORY_SIZE && row < MEMORY_SIZE - self.i
            invariant
                row <= n,
                n <= 15,
                x < 16,
                y < 16,
                s0 == old(self)@,
                wf_state(s0),
                xc == (s0.v[x as int] & 63u8) as usize,
                yc == (s0.v[y as int] & 31u8) as usize,
                xc < 64,
                yc < 32,
                self.display_buffer@.len() == DISPLAY_SIZE,
                self.v@ == s0.v.update(15, self.v@[15 as int]),
                self.v@[15 as int] == 0 || self.v@[15 as int] == 1,
                self@ == (MState { display: self.display_buffer@, v: self.v@, ..s0 }),
                forall|k: int| 0 <= k < DISPLAY_SIZE
                    ==> self.display_buffer@[k] == PIXEL_ON || self.display_buffer@[k] == PIXEL_OFF,
                draw_rows(
                    s0.ram,
                    self.display_buffer@,
                    self.v@[15 as int] == 1,
                    s0.i,
                    xc as int,
                    yc as int,
                    row as int,
                    n as int,
                ) == draw_rows(s0.ram, s0.display, false, s0.i, xc as int, yc as int, 0, n as int),
            decreases n - row,
        {
            let sprite_byte = self.ram[self.i + row];
            let yr = yc + row;
            let ghost d_row = self.display_buffer@;
            let ghost f_row = self.v@[15 as int] == 1;
            let mut col: usize = 0;
            while col < 8 && xc + col < 64
                invariant
                    col <= 8,
                    xc < 64,
                    yr < 32,
                    self.display_buffer@.len() == DISPLAY_SIZE,
                    self.v@.len() == 16,
                    s0.v.len() == 16,
                    self.v@ == s0.v.update(15, self.v@[15 as int]),
                    self.v@[15 as int] == 0 || self.v@[15 as int] == 1,
                    self@ == (MState { display: self.display_buffer@, v: self.v@, ..s0 }),
                    forall|k: int| 0 <= k < DISPLAY_SIZE
                        ==> self.display_buffer@[k] == PIXEL_ON
                            || self.display_buffer@[k] == PIXEL_OFF,
                    draw_cols(
                        self.display_buffer@,
                        self.v@[15 as int] == 1,
                        sprite_byte,
                        xc as int,
                        yr as int,
                        col as int,
                    ) == draw_cols(d_row, f_row, sprite_byte, xc as int, yr as int, 0),
                decreases 8 - col,
            {
                let shift: u8 = (7 - col) as u8;
                let sprite_pixel = (sprite_byte >> shift) & 1;
                let ghost d_before = self.display_buffer@;
                let ghost f_before = self.v@[15 as int] == 1;
                if sprite_pixel == 1 {
                    let screen_index = yr * 64 + (xc + col);
                    if self.display_buffer[screen_index] == PIXEL_ON {
                        self.display_buffer.set(screen_index, PIXEL_OFF);
                        self.v.set(15, 1);
                    } else {
                        self.display_buffer.set(screen_index, PIXEL_ON);
                    }
                }
                proof {
                    assert(draw_cols(
                        self.display_buffer@,
                        self.v@[15 as int] == 1,
                        sprite_byte,
                        xc as int,
                        yr as int,
                        col + 1,
                    ) == draw_cols(d_before, f_before, sprite_byte, xc as int, yr as int, col as int));
                }
                col += 1;
            }
            proof {
                assert(draw_cols(
                    self.display_buffer@,
                    self.v@[15 as int] == 1,
                    sprite_byte,
                    xc as int,
                    yr as int,
                    col as int,
                ) == (self.display_buffer@, self.v@[15 as int] == 1));
                assert(draw_rows(
                    s0.ram,
                    d_row,
                    f_row,
                    s0.i,
                    xc as int,
                    yc as int,
                    row as int,
                    n as int,
                ) == draw_rows(
                    s0.ram,
                    self.display_buffer@,
                    self.v@[15 as int] == 1,
                    s0.i,
                    xc as int,
                    yc as int,
                    row + 1,
                    n as int,
                ));
            }
            row += 1;
        }
        proof {
            assert(draw_rows(
                s0.ram,
                self.display_buffer@,
                self.v@[15 as int] == 1,
                s0.i,
                xc as int,
                yc as int,
                row as int,
                n as int,
            ) == (self.display_buffer@, self.v@[15 as int] == 1));
        }
        self.update_window = true;
        self.pc = self.pc + 2;
        proof {
            assert(self@.v =~= eff_dxyn(s0, x as int, y as int, n as int).v);
            assert(self@ =~= eff_dxyn(s0, x as int, y as int, n as int));
        }
    }

    /// Skips the next instruction if the key named by the low nibble of
    /// `VX` is down.
    pub fn op_ex9e(&mut self, x: usize)
        requires
            old(self).wf(),
            x < 16,
            old(self).pc + 4 <= usize::MAX,
        ensures
            final(self).wf(),
            final(self)@ == eff_ex9e(old(self)@, x as int),
    {
        let vx = self.v[x];
        let key = vx & 0x0F;
        proof {
            assert(vx & 0x0Fu8 < 16) by (bit_vector);
        }
        if self.keys[key as usize] {
            self.pc = self.pc + 4;
        } else {
            self.pc = self.pc + 2;
        }
    }

    /// Skips the next instruction if the key named by the low nibble of
    /// `VX` is up.
    pub fn op_exa1(&mut self, x: usize)
        requires
            old(self).wf(),
            x < 16,
            old(self).pc + 4 <= usize::MAX,
        ensures
            final(self).wf(),
            final(self)@ == eff_exa1(old(self)@, x as int),
    {
        let vx = self.v[x];
        let key = vx & 0x0F;
        proof {
            assert(vx & 0x0Fu8 < 16) by (bit_vector);
        }
        if !self.keys[key as usize] {
            self.pc = self.pc + 4;
        } else {
            self.pc = self.pc + 2;
        }
    }

    /// Sets `VX` to the delay timer.
    pub fn op_fx07(&mut self, x: usize)
        requires
            old(self).wf(),
            x < 16,
            old(self).pc + 2 <= usize::MAX,
        ensures
            final(self).wf(),
            final(self)@ == eff_fx07(old(self)@, x as int),
    {
        let d = self.delay;
        self.v.set(x, d);
        self.pc = self.pc + 2;
    }

    /// Waits for a key release. While idle, a key that is down is latched
    /// without advancing; once the latched key is released its index is
    /// written to `VX` and the program counter advances. Otherwise the
    /// instruction repeats on the next step.
    pub fn op_fx0a(&mut self, x: usize)
        requires
            old(self).wf(),
            x < 16,
            old(self).pc + 2 <= usize::MAX,
        ensures
            final(self).wf(),
            final(self)@ == eff_fx0a(old(self)@, x as int),
    {
        let ghost s0 = self@;
        let wk = self.waiting_key;
        match wk {
            Some(key) => {
                if !self.keys[key as usize] {
                    self.v.set(x, key);
                    self.waiting_key = None;
                    self.pc = self.pc + 2;
                }
            },
            None => {
                let mut j: usize = 0;
                while j < 16
                    invariant
                        j <= 16,
                        x < 16,
                        s0 == old(self)@,
                        wf_state(s0),
                        old(self).pc + 2 <= usize::MAX,
                        self@ == s0,
                        s0.waiting_key == None::<u8>,
                        forall|c: int| 0 <= c < j ==> !s0.keys[c],
                    decreases 16 - j,
                {
                    if self.keys[j] {
                        self.waiting_key = Some(j as u8);
                        proof {
                            lemma_scan_prefix(s0.keys, j as int);
                            assert(scan_key(s0.keys, j as int) == Some(j as u8));
                        }
                        return ;
                    }
                    j += 1;
                }
                proof {
                    lemma_scan_prefix(s0.keys, 16);
                    assert(scan_key(s0.keys, 0) == None::<u8>);
                }
            },
        }
    }

    /// Sets the delay timer to `VX`.
    pub fn op_fx15(&mut self, x: usize)
        requires
            old(self).wf(),
            x < 16,
            old(self).pc + 2 <= usize::MAX,
        ensures
            final(self).wf(),
            final(self)@ == eff_fx15(old(self)@, x as int),
    {
        self.delay = self.v[x];
        self.pc = self.pc + 2;
    }

    /// Sets the sound timer to `VX`.
    pub fn op_fx18(&mut self, x: usize)
        requires
            old(self).wf(),
            x < 16,
            old(self).pc + 2 <= usize::MAX,
        ensures
            final(self).wf(),
            final(self)@ == eff_fx18(old(self)@, x as int),
    {
        self.sound = self.v[x];
        self.pc = self.pc + 2;
    }

    /// Adds `VX` to the address register, unmasked; at the machine-width
    /// ceiling (never reached by real programs) it saturates.
    pub fn op_fx1e(&mut self, x: usize)
        requires
            old(self).wf(),
            x < 16,
            old(self).pc + 2 <= usize::MAX,
        ensures
            final(self).wf(),
            final(self)@ == eff_fx1e(old(self)@, x as int),
    {
        let add = self.v[x] as usize;
        if add <= usize::MAX - self.i {
            self.i = self.i + add;
        } else {
            self.i = usize::MAX;
        }
        self.pc = self.pc + 2;
    }

    /// Points the address register at the glyph for the low nibble of `VX`.
    pub fn op_fx29(&mut self, x: usize)
        requires
            old(self).wf(),
            x < 16,
            old(self).pc + 2 <= usize::MAX,
        ensures
            final(self).wf(),
            final(self)@ == eff_fx29(old(self)@, x as int),
    {
        let vx = self.v[x];
        let digit = vx & 0x0F;
        proof {
            assert(vx & 0x0Fu8 < 16) by (bit_vector);
        }
        self.i = FONT_START + (digit as usize) * 5;
        self.pc = self.pc + 2;
    }

    /// Stores the decimal digits of `VX` at the address register and the
    /// two following cells; an access that would exceed memory is a
    /// defined failure that writes nothing.
    pub fn op_fx33(&mut self, x: usize)
        requires
            old(self).wf(),
            x < 16,
            old(self).pc + 2 <= usize::MAX,
        ensures
            final(self).wf(),
            final(self)@ == eff_fx33(old(self)@, x as int),
    {
        if self.i < MEMORY_SIZE - 2 {
            let val = self.v[x];
            let base = self.i;
            self.ram.set(base, val / 100);
            self.ram.set(base + 1, (val % 100) / 10);
            self.ram.set(base + 2, val % 10);
        }
        self.pc = self.pc + 2;
    }

    /// Stores registers 0 through `x` into memory at the address
    /// register, stopping at the end of memory; the address register
    /// itself is unchanged.
    pub fn op_fx55(&mut self, x: usize)
        requires
            old(self).wf(),
            x < 16,
            old(self).pc + 2 <= usize::MAX,
        ensures
            final(self).wf(),
            final(self)@ == eff_fx55(old(self)@, x as int),
    {
        let ghost s0 = self@;
        let mut j: usize = 0;
        while j <= x && self.i < MEMORY_SIZE && j < MEMORY_SIZE - self.i
            invariant
                j <= x + 1,
                x < 16,
                j == 0 || s0.i + j <= MEMORY_SIZE,
                s0.ram.len() == MEMORY_SIZE,
                s0.v.len() == 16,
                self.ram@.len() == MEMORY_SIZE,
                self@ == (MState { ram: self.ram@, ..s0 }),
                forall|a: int| 0 <= a < MEMORY_SIZE ==> self.ram@[a] == (
                    if s0.i <= a < s0.i + j {
                        s0.v[a - s0.i]
                    } else {
                        s0.ram[a]
                    }
                ),
            decreases x + 1 - j,
        {
            let val = self.v[j];
            self.ram.set(self.i + j, val);
            j += 1;
        }
        self.pc = self.pc + 2;
        proof {
            assert(self@.ram =~= eff_fx55(s0, x as int).ram);
            assert(self@ =~= eff_fx55(s0, x as int));
        }
    }

    /// Loads memory at the address register into registers 0 through `x`,
    /// stopping at the end of memory.
    pub fn op_fx65(&mut self, x: usize)
        requires
            old(self).wf(),
            x < 16,
            old(self).pc + 2 <= usize::MAX,
        ensures
            final(self).wf(),
            final(self)@ == eff_fx65(old(self)@, x as int),
    {
        let ghost s0 = self@;
        let mut j: usize = 0;
        while j <= x && self.i < MEMORY_SIZE && j < MEMORY_SIZE - self.i
            invariant
                j <= x + 1,
                x < 16,
                j == 0 || s0.i + j <= MEMORY_SIZE,
                s0.ram.len() == MEMORY_SIZE,
                self.v@.len() == 16,
                self@ == (MState { v: self.v@, ..s0 }),
                forall|r: int| 0 <= r < 16 ==> self.v@[r] == (
                    if 0 <= r < j {
                        s0.ram[s0.i + r]
                    } else {
                        s0.v[r]
                    }
                ),
            decreases x + 1 - j,
        {
            let val = self.ram[self.i + j];
            self.v.set(j, val);
            j += 1;
        }
        self.pc = self.pc + 2;
        proof {
            assert(self@.v =~= eff_fx65(s0, x as int).v);
            assert(self@ =~= eff_fx65(s0, x as int));
        }
    }

    /// Unknown opcode: a recoverable condition; it is skipped.
    pub fn op_unknown(&mut self)
        requires
            old(self).wf(),
            old(self).pc + 2 <= usize::MAX,
        ensures
            final(self).wf(),
            final(self)@ == eff_unknown(old(self)@),
    {
        self.pc = self.pc + 2;
    }

    /// Fetches, decodes and executes exactly one instruction: the machine
    /// makes one [`spec_step`] transition. The step is deterministic but
    /// for the byte the random instruction draws, hence the existential.
    /// A program counter too close to the end of memory to fetch from is
    /// a defined failure that changes nothing.
    #[verifier::rlimit(50)]
    pub fn cycle(&mut self)
        requires
            old(self).wf(),
        ensures
            final(self).wf(),
            exists|rnd: u8| final(self)@ == spec_step(old(self)@, rnd),
    {
        let ghost s0 = self@;
        if self.pc >= MEMORY_SIZE - 1 {
            proof {
                assert(self@ == spec_step(s0, 0u8));
            }
            return ;
        }
        let opcode = self.fetch_next_instruction();
        let first = (opcode & 0xF000) >> 12u16;
        let x = ((opcode & 0x0F00) >> 8u16) as usize;
        let y = ((opcode & 0x00F0) >> 4u16) as usize;
        let n = (opcode & 0x000F) as usize;
        let nn = (opcode & 0x00FF) as u8;
        let nnn = opcode & 0x0FFF;
        proof {
            assert((opcode & 0x0F00u16) >> 8u16 < 16 && (opcode & 0x00F0u16) >> 4u16 < 16
                && (opcode & 0x000Fu16) < 16 && (opcode & 0x0FFFu16) <= 0xFFF
                && (opcode & 0xF000u16) >> 12u16 <= 0xF) by (bit_vector);
        }
        match first {
            0x0 => {
                if opcode == 0x00E0 {
                    self.op_00e0();
                } else if opcode == 0x00EE {
                    self.op_00ee();
                } else {
                    self.op_unknown();
                }
            },
            0x1 => self.op_1nnn(nnn),
            0x2 => self.op_2nnn(nnn),
            0x3 => self.op_3xnn(x, nn),
            0x4 => self.op_4xnn(x, nn),
            0x5 => self.op_5xy0(x, y),
            0x6 => self.op_6xnn(x, nn),
            0x7 => self.op_7xnn(x, nn),
            0x8 => match n {
                0x0 => self.op_8xy0(x, y),
                0x1 => self.op_8xy1(x, y),
                0x2 => self.op_8xy2(x, y),
                0x3 => self.op_8xy3(x, y),
                0x4 => self.op_8xy4(x, y),
                0x5 => self.op_8xy5(x, y),
                0x6 => self.op_8xy6(x),
                0x7 => self.op_8xy7(x, y),
                0xE => self.op_8xye(x),
                _ => self.op_unknown(),
            },
            0x9 => self.op_9xy0(x, y),
            0xA => self.op_annn(nnn),
            0xB => self.op_bnnn(nnn),
            0xC => self.op_cxnn(x, nn),
            0xD => self.op_dxyn(x, y, n),
            0xE => match nn {
                0x9E => self.op_ex9e(x),
                0xA1 => self.op_exa1(x),
                _ => self.op_unknown(),
            },
            0xF => match nn {
                0x07 => self.op_fx07(x),
                0x0A => self.op_fx0a(x),
                0x15 => self.op_fx15(x),
                0x18 => self.op_fx18(x),
                0x1E => self.op_fx1e(x),
                0x29 => self.op_fx29(x),
                0x33 => self.op_fx33(x),
                0x55 => self.op_fx55(x),
                0x65 => self.op_fx65(x),
                _ => self.op_unknown(),
            },
            _ => self.op_unknown(),
        }
        proof {
            if first == 0xC {
                let rnd = choose|rnd: u8| self@ == eff_cxnn(s0, x as int, nn, rnd);
                assert(self@ == spec_step(s0, rnd));
            } else {
                assert(self@ == spec_step(s0, 0u8));
            }
        }
    }
}

} // verus!
