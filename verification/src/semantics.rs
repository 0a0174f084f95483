//! The mathematical model of the machine.
//!
//! [`MState`] is the ghost image of the whole machine state. Every
//! instruction's semantics is a spec function from state to state, and
//! [`spec_step`] is the fetch-decode-execute relation that the executable
//! interpreter is proved to follow.

use vstd::prelude::*;

verus! {

pub const MEMORY_SIZE: usize = 4096;
pub const PROGRAM_START: usize = 0x200;
pub const MAX_PROGRAM_SIZE: usize = 3584;
pub const FONT_START: usize = 0x50;
pub const DISPLAY_WIDTH: usize = 64;
pub const DISPLAY_HEIGHT: usize = 32;
pub const DISPLAY_SIZE: usize = 2048;

/// The "on" colour of a display cell.
pub const PIXEL_ON: u32 = 0x0000FF;
/// The background ("off") colour of a display cell.
pub const PIXEL_OFF: u32 = 0x000000;

/// The ghost image of the machine: memory, call stack, display, registers,
/// input and the keyboard-wait latch.
#[verifier::ext_equal]
pub ghost struct MState {
    pub ram: Seq<u8>,
    pub stack: Seq<usize>,
    pub display: Seq<u32>,
    pub update_window: bool,
    pub v: Seq<u8>,
    pub keys: Seq<bool>,
    pub delay: u8,
    pub sound: u8,
    pub i: usize,
    pub pc: usize,
    pub waiting_key: Option<u8>,
}

/// Well-formedness: the fixed extents of memory, display, registers and
/// input; every display cell holds one of the two defined colours; a
/// latched wait key is a valid button index.
pub open spec fn wf_state(s: MState) -> bool {
    &&& s.ram.len() == MEMORY_SIZE
    &&& s.display.len() == DISPLAY_SIZE
    &&& s.v.len() == 16
    &&& s.keys.len() == 16
    &&& forall|k: int| 0 <= k < DISPLAY_SIZE
        ==> s.display[k] == PIXEL_ON || s.display[k] == PIXEL_OFF
    &&& match s.waiting_key {
        Some(k) => k < 16,
        None => true,
    }
}

/// The built-in glyph table, byte `j` of 80: 16 glyphs of 5 bytes each,
/// the bitmap patterns of the hex digits 0-F.
pub open spec fn font_sel(j: int) -> u8 {
    let r = j % 5;
    let g = j / 5;
    if g == 0x0 {
        if r == 0 { 0xF0 } else if r == 1 { 0x90 } else if r == 2 { 0x90 } else if r == 3 { 0x90 } else { 0xF0 }
    } else if g == 0x1 {
        if r == 0 { 0x20 } else if r == 1 { 0x60 } else if r == 2 { 0x20 } else if r == 3 { 0x20 } else { 0x70 }
    } else if g == 0x2 {
        if r == 0 { 0xF0 } else if r == 1 { 0x10 } else if r == 2 { 0xF0 } else if r == 3 { 0x80 } else { 0xF0 }
    } else if g == 0x3 {
        if r == 0 { 0xF0 } else if r == 1 { 0x10 } else if r == 2 { 0xF0 } else if r == 3 { 0x10 } else { 0xF0 }
    } else if g == 0x4 {
        if r == 0 { 0x90 } else if r == 1 { 0x90 } else if r == 2 { 0xF0 } else if r == 3 { 0x10 } else { 0x10 }
    } else if g == 0x5 {
        if r == 0 { 0xF0 } else if r == 1 { 0x80 } else if r == 2 { 0xF0 } else if r == 3 { 0x10 } else { 0xF0 }
    } else if g == 0x6 {
        if r == 0 { 0xF0 } else if r == 1 { 0x80 } else if r == 2 { 0xF0 } else if r == 3 { 0x90 } else { 0xF0 }
    } else if g == 0x7 {
        if r == 0 { 0xF0 } else if r == 1 { 0x10 } else if r == 2 { 0x20 } else if r == 3 { 0x40 } else { 0x40 }
    } else if g == 0x8 {
        if r == 0 { 0xF0 } else if r == 1 { 0x90 } else if r == 2 { 0xF0 } else if r == 3 { 0x90 } else { 0xF0 }
    } else if g == 0x9 {
        if r == 0 { 0xF0 } else if r == 1 { 0x90 } else if r == 2 { 0xF0 } else if r == 3 { 0x10 } else { 0xF0 }
    } else if g == 0xA {
        if r == 0 { 0xF0 } else if r == 1 { 0x90 } else if r == 2 { 0xF0 } else if r == 3 { 0x90 } else { 0x90 }
    } else if g == 0xB {
        if r == 0 { 0xE0 } else if r == 1 { 0x90 } else if r == 2 { 0xE0 } else if r == 3 { 0x90 } else { 0xE0 }
    } else if g == 0xC {
        if r == 0 { 0xF0 } else if r == 1 { 0x80 } else if r == 2 { 0x80 } else if r == 3 { 0x80 } else { 0xF0 }
    } else if g == 0xD {
        if r == 0 { 0xE0 } else if r == 1 { 0x90 } else if r == 2 { 0x90 } else if r == 3 { 0x90 } else { 0xE0 }
    } else if g == 0xE {
        if r == 0 { 0xF0 } else if r == 1 { 0x80 } else if r == 2 { 0xF0 } else if r == 3 { 0x80 } else { 0xF0 }
    } else {
        if r == 0 { 0xF0 } else if r == 1 { 0x80 } else if r == 2 { 0xF0 } else if r == 3 { 0x80 } else { 0x80 }
    }
}

/// The state with the glyph table written over its reserved range.
pub open spec fn with_font(s: MState) -> MState {
    MState {
        ram: Seq::new(MEMORY_SIZE as nat, |a: int| {
            if FONT_START <= a < FONT_START + 80 {
                font_sel(a - FONT_START)
            } else {
                s.ram[a]
            }
        }),
        ..s
    }
}

/// The machine as `new` leaves it: everything zeroed, the glyph table in
/// place, the program counter at the program load area.
pub open spec fn initial_state() -> MState {
    with_font(
        MState {
            ram: Seq::new(MEMORY_SIZE as nat, |a: int| 0u8),
            stack: Seq::empty(),
            display: Seq::new(DISPLAY_SIZE as nat, |k: int| PIXEL_OFF),
            update_window: false,
            v: Seq::new(16, |r: int| 0u8),
            keys: Seq::new(16, |k: int| false),
            delay: 0,
            sound: 0,
            i: 0,
            pc: PROGRAM_START,
            waiting_key: None,
        },
    )
}

/// Memory after a program image is copied into the load area.
pub open spec fn load_overlay(ram: Seq<u8>, rom: Seq<u8>) -> Seq<u8> {
    Seq::new(MEMORY_SIZE as nat, |a: int| {
        if PROGRAM_START <= a < PROGRAM_START + rom.len() {
            rom[a - PROGRAM_START]
        } else {
            ram[a]
        }
    })
}

/// One 60 Hz timer tick: both timers count down, saturating at 0.
pub open spec fn eff_tick(s: MState) -> MState {
    MState {
        delay: if s.delay > 0 { (s.delay - 1) as u8 } else { 0u8 },
        sound: if s.sound > 0 { (s.sound - 1) as u8 } else { 0u8 },
        ..s
    }
}

/// The 16-bit opcode fetched big-endian from two consecutive memory bytes.
pub open spec fn opcode_at(ram: Seq<u8>, pc: usize) -> u16 {
    ((ram[pc as int] as u16) << 8u16) | (ram[pc + 1] as u16)
}

/// Clear display: every cell to the background colour; mark dirty.
pub open spec fn eff_00e0(s: MState) -> MState {
    MState {
        display: Seq::new(DISPLAY_SIZE as nat, |k: int| PIXEL_OFF),
        update_window: true,
        pc: (s.pc + 2) as usize,
        ..s
    }
}

/// Return from subroutine: pop the call stack into the program counter;
/// on an empty stack, fall back to address 0.
pub open spec fn eff_00ee(s: MState) -> MState {
    if s.stack.len() > 0 {
        MState { pc: s.stack.last(), stack: s.stack.drop_last(), ..s }
    } else {
        MState { pc: 0, ..s }
    }
}

/// Jump to `nnn`.
pub open spec fn eff_1nnn(s: MState, nnn: u16) -> MState {
    MState { pc: nnn as usize, ..s }
}

/// Call subroutine at `nnn`: push the return address, then jump.
pub open spec fn eff_2nnn(s: MState, nnn: u16) -> MState {
    MState { stack: s.stack.push((s.pc + 2) as usize), pc: nnn as usize, ..s }
}

/// Skip next instruction if `VX == nn`.
pub open spec fn eff_3xnn(s: MState, x: int, nn: u8) -> MState {
    MState { pc: if s.v[x] == nn { (s.pc + 4) as usize } else { (s.pc + 2) as usize }, ..s }
}

/// Skip next instruction if `VX != nn`.
pub open spec fn eff_4xnn(s: MState, x: int, nn: u8) -> MState {
    MState { pc: if s.v[x] != nn { (s.pc + 4) as usize } else { (s.pc + 2) as usize }, ..s }
}

/// Skip next instruction if `VX == VY`.
pub open spec fn eff_5xy0(s: MState, x: int, y: int) -> MState {
    MState { pc: if s.v[x] == s.v[y] { (s.pc + 4) as usize } else { (s.pc + 2) as usize }, ..s }
}

/// Load immediate: `VX` is set to `nn`.
pub open spec fn eff_6xnn(s: MState, x: int, nn: u8) -> MState {
    MState { v: s.v.update(x, nn), pc: (s.pc + 2) as usize, ..s }
}

/// Add immediate: wrapping addition, no flag effect.
pub open spec fn eff_7xnn(s: MState, x: int, nn: u8) -> MState {
    MState { v: s.v.update(x, ((s.v[x] + nn) % 256) as u8), pc: (s.pc + 2) as usize, ..s }
}

/// Copy: `VX` is set to `VY`.
pub open spec fn eff_8xy0(s: MState, x: int, y: int) -> MState {
    MState { v: s.v.update(x, s.v[y]), pc: (s.pc + 2) as usize, ..s }
}

/// Bitwise OR.
pub open spec fn eff_8xy1(s: MState, x: int, y: int) -> MState {
    MState { v: s.v.update(x, s.v[x] | s.v[y]), pc: (s.pc + 2) as usize, ..s }
}

/// Bitwise AND.
pub open spec fn eff_8xy2(s: MState, x: int, y: int) -> MState {
    MState { v: s.v.update(x, s.v[x] & s.v[y]), pc: (s.pc + 2) as usize, ..s }
}

/// Bitwise XOR.
pub open spec fn eff_8xy3(s: MState, x: int, y: int) -> MState {
    MState { v: s.v.update(x, s.v[x] ^ s.v[y]), pc: (s.pc + 2) as usize, ..s }
}

/// Register add: wrapping sum into `VX`; the flag register is 1 exactly
/// when the unsigned sum exceeds 255.
pub open spec fn eff_8xy4(s: MState, x: int, y: int) -> MState {
    MState {
        v: s.v.update(x, ((s.v[x] + s.v[y]) % 256) as u8).update(
            15,
            if s.v[x] + s.v[y] > 255 { 1u8 } else { 0u8 },
        ),
        pc: (s.pc + 2) as usize,
        ..s
    }
}

/// Register subtract `VX - VY`; the flag register is 1 exactly when no
/// borrow occurred, that is when `VX >= VY`.
pub open spec fn eff_8xy5(s: MState, x: int, y: int) -> MState {
    MState {
        v: s.v.update(x, ((s.v[x] - s.v[y] + 256) % 256) as u8).update(
            15,
            if s.v[x] >= s.v[y] { 1u8 } else { 0u8 },
        ),
        pc: (s.pc + 2) as usize,
        ..s
    }
}

/// Shift right: the flag register receives the least-significant bit of
/// the source before the shift.
pub open spec fn eff_8xy6(s: MState, x: int) -> MState {
    MState {
        v: s.v.update(x, s.v[x] >> 1u8).update(15, s.v[x] & 1u8),
        pc: (s.pc + 2) as usize,
        ..s
    }
}

/// Register subtract `VY - VX` into `VX`; the flag register is 1 exactly
/// when `VY >= VX`.
pub open spec fn eff_8xy7(s: MState, x: int, y: int) -> MState {
    MState {
        v: s.v.update(x, ((s.v[y] - s.v[x] + 256) % 256) as u8).update(
            15,
            if s.v[y] >= s.v[x] { 1u8 } else { 0u8 },
        ),
        pc: (s.pc + 2) as usize,
        ..s
    }
}

/// Shift left: the flag register receives the most-significant bit of the
/// source before the shift; the shifted value wraps.
pub open spec fn eff_8xye(s: MState, x: int) -> MState {
    MState {
        v: s.v.update(x, s.v[x] << 1u8).update(15, (s.v[x] & 0x80u8) >> 7u8),
        pc: (s.pc + 2) as usize,
        ..s
    }
}

/// Skip next instruction if `VX != VY`.
pub open spec fn eff_9xy0(s: MState, x: int, y: int) -> MState {
    MState { pc: if s.v[x] != s.v[y] { (s.pc + 4) as usize } else { (s.pc + 2) as usize }, ..s }
}

/// Set the address register to `nnn`.
pub open spec fn eff_annn(s: MState, nnn: u16) -> MState {
    MState { i: nnn as usize, pc: (s.pc + 2) as usize, ..s }
}

/// Jump with offset: the program counter is set to `nnn + V0`.
pub open spec fn eff_bnnn(s: MState, nnn: u16) -> MState {
    MState { pc: (nnn + s.v[0]) as usize, ..s }
}

/// Random AND immediate: `VX` is set to a random byte masked by `nn`.
pub open spec fn eff_cxnn(s: MState, x: int, nn: u8, rnd: u8) -> MState {
    MState { v: s.v.update(x, rnd & nn), pc: (s.pc + 2) as usize, ..s }
}

/// One of the two defined colours flipped to the other.
pub open spec fn toggle(p: u32) -> u32 {
    if p == PIXEL_ON {
        PIXEL_OFF
    } else {
        PIXEL_ON
    }
}

/// One sprite row, bits processed most-significant first from `col` on,
/// stopping at the right display edge. Returns the display and whether a
/// collision (a cell already on being toggled off) has occurred so far.
pub open spec fn draw_cols(
    display: Seq<u32>,
    collided: bool,
    byte: u8,
    xc: int,
    yr: int,
    col: int,
) -> (Seq<u32>, bool)
    decreases 8 - col,
{
    if col < 0 || col >= 8 || xc + col >= 64 {
        (display, collided)
    } else {
        let bit = (byte >> ((7 - col) as u8)) & 1u8;
        let idx = yr * 64 + xc + col;
        if bit == 1 {
            if display[idx] == PIXEL_ON {
                draw_cols(display.update(idx, PIXEL_OFF), true, byte, xc, yr, col + 1)
            } else {
                draw_cols(display.update(idx, PIXEL_ON), collided, byte, xc, yr, col + 1)
            }
        } else {
            draw_cols(display, collided, byte, xc, yr, col + 1)
        }
    }
}

/// Sprite rows from `row` on, stopping at the bottom display edge or the
/// end of memory.
pub open spec fn draw_rows(
    ram: Seq<u8>,
    display: Seq<u32>,
    collided: bool,
    i: usize,
    xc: int,
    yc: int,
    row: int,
    n: int,
) -> (Seq<u32>, bool)
    decreases n - row,
{
    if row < 0 || row >= n || yc + row >= 32 || i + row >= MEMORY_SIZE {
        (display, collided)
    } else {
        let rowres = draw_cols(display, collided, ram[i + row], xc, yc + row, 0);
        draw_rows(ram, rowres.0, rowres.1, i, xc, yc, row + 1, n)
    }
}

/// Draw sprite: start coordinates wrapped once into the grid, the flag
/// register reset and then set to 1 exactly when a collision occurs, the
/// display marked dirty.
pub open spec fn eff_dxyn(s: MState, x: int, y: int, n: int) -> MState {
    let xc = (s.v[x] & 63u8) as int;
    let yc = (s.v[y] & 31u8) as int;
    let res = draw_rows(s.ram, s.display, false, s.i, xc, yc, 0, n);
    MState {
        display: res.0,
        v: s.v.update(15, if res.1 { 1u8 } else { 0u8 }),
        update_window: true,
        pc: (s.pc + 2) as usize,
        ..s
    }
}

/// Skip next instruction if the key named by the low nibble of `VX` is down.
pub open spec fn eff_ex9e(s: MState, x: int) -> MState {
    MState {
        pc: if s.keys[(s.v[x] & 0xFu8) as int] { (s.pc + 4) as usize } else { (s.pc + 2) as usize },
        ..s
    }
}

/// Skip next instruction if the key named by the low nibble of `VX` is up.
pub open spec fn eff_exa1(s: MState, x: int) -> MState {
    MState {
        pc: if !s.keys[(s.v[x] & 0xFu8) as int] { (s.pc + 4) as usize } else { (s.pc + 2) as usize },
        ..s
    }
}

/// `VX` is set to the delay timer.
pub open spec fn eff_fx07(s: MState, x: int) -> MState {
    MState { v: s.v.update(x, s.delay), pc: (s.pc + 2) as usize, ..s }
}

/// The lowest button index that is currently down, if any.
pub open spec fn scan_key(keys: Seq<bool>, j: int) -> Option<u8>
    decreases 16 - j,
{
    if j < 0 || j >= 16 {
        None
    } else if keys[j] {
        Some(j as u8)
    } else {
        scan_key(keys, j + 1)
    }
}

/// A scan that has passed only released buttons has not decided yet:
/// scanning from the start and scanning from `j` agree.
pub proof fn lemma_scan_prefix(keys: Seq<bool>, j: int)
    requires
        0 <= j <= 16,
        forall|c: int| 0 <= c < j ==> !keys[c],
    ensures
        scan_key(keys, 0) == scan_key(keys, j),
    decreases j,
{
    if j > 0 {
        lemma_scan_prefix(keys, j - 1);
    }
}

/// Wait for key release. Idle with a key down: latch it, do not advance.
/// Armed and the latched key released: write its index to `VX`, unlatch,
/// advance. Otherwise: no change, the instruction repeats.
pub open spec fn eff_fx0a(s: MState, x: int) -> MState {
    match s.waiting_key {
        Some(k) => {
            if !s.keys[k as int] {
                MState {
                    v: s.v.update(x, k),
                    waiting_key: None,
                    pc: (s.pc + 2) as usize,
                    ..s
                }
            } else {
                s
            }
        },
        None => {
            match scan_key(s.keys, 0) {
                Some(k) => MState { waiting_key: Some(k), ..s },
                None => s,
            }
        },
    }
}

/// The delay timer is set to `VX`.
pub open spec fn eff_fx15(s: MState, x: int) -> MState {
    MState { delay: s.v[x], pc: (s.pc + 2) as usize, ..s }
}

/// The sound timer is set to `VX`.
pub open spec fn eff_fx18(s: MState, x: int) -> MState {
    MState { sound: s.v[x], pc: (s.pc + 2) as usize, ..s }
}

/// Add `VX` to the address register, unmasked; the machine-width ceiling
/// (never reached by real programs) saturates rather than wraps.
pub open spec fn eff_fx1e(s: MState, x: int) -> MState {
    MState {
        i: if s.i + s.v[x] <= usize::MAX { (s.i + s.v[x]) as usize } else { usize::MAX },
        pc: (s.pc + 2) as usize,
        ..s
    }
}

/// The address register points at the glyph for the low nibble of `VX`.
pub open spec fn eff_fx29(s: MState, x: int) -> MState {
    MState {
        i: (FONT_START + 5 * (s.v[x] & 0xFu8)) as usize,
        pc: (s.pc + 2) as usize,
        ..s
    }
}

/// Binary-coded-decimal store: hundreds, tens and units digits of `VX` at
/// the address register and the two following cells; an access that would
/// exceed memory is a defined failure and writes nothing.
pub open spec fn eff_fx33(s: MState, x: int) -> MState {
    MState {
        ram: if s.i + 2 < MEMORY_SIZE {
            s.ram.update(s.i as int, (s.v[x] / 100) as u8).update(
                s.i + 1,
                ((s.v[x] % 100) / 10) as u8,
            ).update(s.i + 2, (s.v[x] % 10) as u8)
        } else {
            s.ram
        },
        pc: (s.pc + 2) as usize,
        ..s
    }
}

/// Register range store: registers 0 through `x` into memory at the
/// address register, stopping at the end of memory.
pub open spec fn eff_fx55(s: MState, x: int) -> MState {
    MState {
        ram: Seq::new(MEMORY_SIZE as nat, |a: int| {
            if s.i <= a <= s.i + x {
                s.v[a - s.i]
            } else {
                s.ram[a]
            }
        }),
        pc: (s.pc + 2) as usize,
        ..s
    }
}

/// Register range load: memory at the address register into registers 0
/// through `x`, stopping at the end of memory.
pub open spec fn eff_fx65(s: MState, x: int) -> MState {
    MState {
        v: Seq::new(16, |r: int| {
            if r <= x && s.i + r < MEMORY_SIZE {
                s.ram[s.i + r]
            } else {
                s.v[r]
            }
        }),
        pc: (s.pc + 2) as usize,
        ..s
    }
}

/// Unknown opcode: a recoverable condition; skip it.
pub open spec fn eff_unknown(s: MState) -> MState {
    MState { pc: (s.pc + 2) as usize, ..s }
}

/// One fetch-decode-execute step. A program counter too close to the end
/// of memory to fetch from is a defined failure that changes nothing.
/// `rnd` is the byte the random instruction draws; every other
/// instruction ignores it.
pub open spec fn spec_step(s: MState, rnd: u8) -> MState {
    if s.pc + 1 >= MEMORY_SIZE {
        s
    } else {
        let op = opcode_at(s.ram, s.pc);
        let first = (op & 0xF000u16) >> 12u16;
        let x = ((op & 0x0F00u16) >> 8u16) as int;
        let y = ((op & 0x00F0u16) >> 4u16) as int;
        let n = (op & 0x000Fu16) as int;
        let nn = (op & 0x00FFu16) as u8;
        let nnn = op & 0x0FFFu16;
        if first == 0x0 {
            if op == 0x00E0 {
                eff_00e0(s)
            } else if op == 0x00EE {
                eff_00ee(s)
            } else {
                eff_unknown(s)
            }
        } else if first == 0x1 {
            eff_1nnn(s, nnn)
        } else if first == 0x2 {
            eff_2nnn(s, nnn)
        } else if first == 0x3 {
            eff_3xnn(s, x, nn)
        } else if first == 0x4 {
            eff_4xnn(s, x, nn)
        } else if first == 0x5 {
            eff_5xy0(s, x, y)
        } else if first == 0x6 {
            eff_6xnn(s, x, nn)
        } else if first == 0x7 {
            eff_7xnn(s, x, nn)
        } else if first == 0x8 {
            if n == 0x0 {
                eff_8xy0(s, x, y)
            } else if n == 0x1 {
                eff_8xy1(s, x, y)
            } else if n == 0x2 {
                eff_8xy2(s, x, y)
            } else if n == 0x3 {
                eff_8xy3(s, x, y)
            } else if n == 0x4 {
                eff_8xy4(s, x, y)
            } else if n == 0x5 {
                eff_8xy5(s, x, y)
            } else if n == 0x6 {
                eff_8xy6(s, x)
            } else if n == 0x7 {
                eff_8xy7(s, x, y)
            } else if n == 0xE {
                eff_8xye(s, x)
            } else {
                eff_unknown(s)
            }
        } else if first == 0x9 {
            eff_9xy0(s, x, y)
        } else if first == 0xA {
            eff_annn(s, nnn)
        } else if first == 0xB {
            eff_bnnn(s, nnn)
        } else if first == 0xC {
            eff_cxnn(s, x, nn, rnd)
        } else if first == 0xD {
            eff_dxyn(s, x, y, n)
        } else if first == 0xE {
            if nn == 0x9E {
                eff_ex9e(s, x)
            } else if nn == 0xA1 {
                eff_exa1(s, x)
            } else {
                eff_unknown(s)
            }
        } else {
            if nn == 0x07 {
                eff_fx07(s, x)
            } else if nn == 0x0A {
                eff_fx0a(s, x)
            } else if nn == 0x15 {
                eff_fx15(s, x)
            } else if nn == 0x18 {
                eff_fx18(s, x)
            } else if nn == 0x1E {
                eff_fx1e(s, x)
            } else if nn == 0x29 {
                eff_fx29(s, x)
            } else if nn == 0x33 {
                eff_fx33(s, x)
            } else if nn == 0x55 {
                eff_fx55(s, x)
            } else if nn == 0x65 {
                eff_fx65(s, x)
            } else {
                eff_unknown(s)
            }
        }
    }
}

} // verus!
