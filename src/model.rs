//! The mathematical model of the machine and the meaning of each instruction.

use vstd::prelude::*;
use crate::error::Chip8Error;

verus! {

pub const RAM_SIZE: usize = 4096;
pub const SCREEN_WIDTH: usize = 64;
pub const SCREEN_HEIGHT: usize = 32;
pub const DISPLAY_SIZE: usize = 2048;
pub const NUM_REGS: usize = 16;
pub const STACK_SIZE: usize = 16;
pub const NUM_KEYS: usize = 16;
pub const START_ADDRESS: u16 = 0x200;
pub const FONTSET_SIZE: usize = 80;

/// Glyphs for the hexadecimal digits 0 to F, five bytes each.
pub const FONTSET: [u8; 80] = [
    0xF0, 0x90, 0x90, 0x90, 0xF0,
    0x20, 0x60, 0x20, 0x20, 0x70,
    0xF0, 0x10, 0xF0, 0x80, 0xF0,
    0xF0, 0x10, 0xF0, 0x10, 0xF0,
    0x90, 0x90, 0xF0, 0x10, 0x10,
    0xF0, 0x80, 0xF0, 0x10, 0xF0,
    0xF0, 0x80, 0xF0, 0x90, 0xF0,
    0xF0, 0x10, 0x20, 0x40, 0x40,
    0xF0, 0x90, 0xF0, 0x90, 0xF0,
    0xF0, 0x90, 0xF0, 0x10, 0xF0,
    0xF0, 0x90, 0xF0, 0x90, 0x90,
    0xE0, 0x90, 0xE0, 0x90, 0xE0,
    0xF0, 0x80, 0x80, 0x80, 0xF0,
    0xE0, 0x90, 0x90, 0x90, 0xE0,
    0xF0, 0x80, 0xF0, 0x80, 0xF0,
    0xF0, 0x80, 0xF0, 0x80, 0x80,
];

/// The whole observable state of the machine.
#[verifier::ext_equal]
pub struct MachineModel {
    pub pc: u16,
    pub ram: Seq<u8>,
    pub v: Seq<u8>,
    pub i: u16,
    pub display: Seq<bool>,
    pub stack: Seq<u16>,
    pub sp: u16,
    pub delay: u8,
    pub sound: u8,
    pub keys: Seq<bool>,
}

impl MachineModel {
    /// Sizes of the memory, register file, display, stack and keypad,
    /// and a stack pointer within the stack.
    pub open spec fn wf(self) -> bool {
        &&& self.ram.len() == RAM_SIZE
        &&& self.v.len() == NUM_REGS
        &&& self.display.len() == DISPLAY_SIZE
        &&& self.stack.len() == STACK_SIZE
        &&& self.sp <= STACK_SIZE
        &&& self.keys.len() == NUM_KEYS
    }
}

/// Memory as it is at construction: the font table, then zeros.
pub open spec fn initial_ram() -> Seq<u8> {
    Seq::new(RAM_SIZE as nat, |a: int| if a < FONTSET_SIZE { FONTSET@[a] } else { 0u8 })
}

/// The state at construction, and after a reset.
pub open spec fn initial_model() -> MachineModel {
    MachineModel {
        pc: START_ADDRESS,
        ram: initial_ram(),
        v: Seq::new(NUM_REGS as nat, |k: int| 0u8),
        i: 0,
        display: Seq::new(DISPLAY_SIZE as nat, |k: int| false),
        stack: Seq::new(STACK_SIZE as nat, |k: int| 0u16),
        sp: 0,
        delay: 0,
        sound: 0,
        keys: Seq::new(NUM_KEYS as nat, |k: int| false),
    }
}

/// A timer after one tick: one less, but never below zero.
pub open spec fn tick_timer(t: u8) -> u8 {
    if t > 0 { (t - 1) as u8 } else { 0 }
}

} // verus!

verus! {

/// Memory after a program image is copied in at the start address.
pub open spec fn loaded_ram(ram: Seq<u8>, data: Seq<u8>) -> Seq<u8> {
    Seq::new(ram.len(), |a: int|
        if START_ADDRESS <= a < START_ADDRESS + data.len() { data[a - START_ADDRESS] } else { ram[a] })
}

/// Whether a program image of this length fits in memory above the start address.
pub open spec fn image_fits(len: nat) -> bool {
    START_ADDRESS + len <= RAM_SIZE
}

} // verus!

verus! {

/// The big-endian instruction word stored at `pc`.
pub open spec fn opcode_at(ram: Seq<u8>, pc: int) -> u16 {
    (ram[pc] as int * 256 + ram[pc + 1] as int) as u16
}

/// The four nibbles of an opcode, highest first, and its literal fields.
pub open spec fn d1(op: u16) -> int { op as int / 4096 }
pub open spec fn d2(op: u16) -> int { (op as int / 256) % 16 }
pub open spec fn d3(op: u16) -> int { (op as int / 16) % 16 }
pub open spec fn d4(op: u16) -> int { op as int % 16 }
pub open spec fn nnn(op: u16) -> u16 { (op as int % 4096) as u16 }
pub open spec fn nn(op: u16) -> u8 { (op as int % 256) as u8 }

/// Moves the program counter past the next instruction when `cond` holds.
pub open spec fn skip_if(m: MachineModel, cond: bool) -> MachineModel {
    if cond { MachineModel { pc: (m.pc + 2) as u16, ..m } } else { m }
}

/// Writes register `x`.
pub open spec fn set_v(m: MachineModel, x: int, val: u8) -> MachineModel {
    MachineModel { v: m.v.update(x, val), ..m }
}

/// Writes register `x`, then the flag register VF.
pub open spec fn set_v_flag(m: MachineModel, x: int, val: u8, flag: u8) -> MachineModel {
    MachineModel { v: m.v.update(x, val).update(15, flag), ..m }
}

/// The 8XYn arithmetic and logic instructions.
pub open spec fn alu_model(m: MachineModel, op: u16) -> Result<MachineModel, Chip8Error> {
    let x = d2(op);
    let y = d3(op);
    let a = m.v[x];
    let b = m.v[y];
    let n = d4(op);
    if n == 0 {
        Ok(set_v(m, x, b))
    } else if n == 1 {
        Ok(set_v(m, x, a | b))
    } else if n == 2 {
        Ok(set_v(m, x, a & b))
    } else if n == 3 {
        Ok(set_v(m, x, a ^ b))
    } else if n == 4 {
        Ok(set_v_flag(m, x, ((a + b) % 256) as u8, if a + b > 255 { 1 } else { 0 }))
    } else if n == 5 {
        Ok(set_v_flag(m, x, ((a - b) % 256) as u8, if a < b { 0 } else { 1 }))
    } else if n == 6 {
        Ok(set_v_flag(m, x, a / 2, a % 2))
    } else if n == 7 {
        Ok(set_v_flag(m, x, ((b - a) % 256) as u8, if b < a { 0 } else { 1 }))
    } else if n == 0xE {
        Ok(set_v_flag(m, x, ((a * 2) % 256) as u8, a / 128))
    } else {
        Err(Chip8Error::UnknownOpcode(op))
    }
}

/// Whether column `c` (0 at the left) of a sprite row is set.
pub open spec fn sprite_bit(row: u8, c: int) -> bool {
    row & (0x80u8 >> (c as u8)) != 0
}

/// Whether a sprite of `n` rows read at `i`, drawn at (`vx`, `vy`) with
/// wraparound, has a set bit on display cell `p`.
pub open spec fn sprite_covers(ram: Seq<u8>, i: u16, vx: u8, vy: u8, n: int, p: int) -> bool {
    let c = sprite_col(vx, p);
    let r = sprite_row(vy, p);
    c < 8 && r < n && sprite_bit(ram[i + r], c)
}

/// The sprite column that lands on display cell `p` when drawn at column `vx`.
pub open spec fn sprite_col(vx: u8, p: int) -> int {
    (p % 64 - vx) % 64
}

/// The sprite row that lands on display cell `p` when drawn at row `vy`.
pub open spec fn sprite_row(vy: u8, p: int) -> int {
    (p / 64 - vy) % 32
}

/// Whether, drawing row by row and column by column, the sprite cell that
/// lands on `p` comes before column `col` of row `row`.
pub open spec fn done_cell(vx: u8, vy: u8, row: int, col: int, p: int) -> bool {
    sprite_row(vy, p) < row || (sprite_row(vy, p) == row && sprite_col(vx, p) < col)
}

/// The display after the sprite is XOR-ed onto it.
pub open spec fn drawn_display(m: MachineModel, vx: u8, vy: u8, n: int) -> Seq<bool> {
    Seq::new(DISPLAY_SIZE as nat, |p: int| m.display[p] != sprite_covers(m.ram, m.i, vx, vy, n, p))
}

/// Whether drawing the sprite turns off a cell that was on.
pub open spec fn draw_collides(m: MachineModel, vx: u8, vy: u8, n: int) -> bool {
    exists|p: int| 0 <= p < DISPLAY_SIZE && #[trigger] sprite_covers(m.ram, m.i, vx, vy, n, p) && m.display[p]
}

/// Whether the `n` sprite rows read at `i` lie in memory.
pub open spec fn sprite_in_ram(i: u16, n: int) -> bool {
    n == 0 || i + n <= RAM_SIZE
}

/// The DXYN instruction.
pub open spec fn draw_model(m: MachineModel, op: u16) -> Result<MachineModel, Chip8Error> {
    let vx = m.v[d2(op)];
    let vy = m.v[d3(op)];
    let n = d4(op);
    if !sprite_in_ram(m.i, n) {
        Err(Chip8Error::MemoryOutOfRange)
    } else {
        Ok(MachineModel {
            display: drawn_display(m, vx, vy, n),
            v: m.v.update(15, if draw_collides(m, vx, vy, n) { 1u8 } else { 0u8 }),
            ..m
        })
    }
}

/// The lowest-numbered pressed key, when a key is pressed.
pub open spec fn first_pressed(keys: Seq<bool>) -> int {
    choose|k: int| 0 <= k < keys.len() && keys[k] && forall|j: int| 0 <= j < k ==> !keys[j]
}

/// Whether any key is pressed.
pub open spec fn any_pressed(keys: Seq<bool>) -> bool {
    exists|k: int| 0 <= k < keys.len() && keys[k]
}

/// The EX9E and EXA1 instructions.
pub open spec fn key_model(m: MachineModel, op: u16) -> Result<MachineModel, Chip8Error> {
    let vx = m.v[d2(op)];
    let low = op as int % 256;
    if low != 0x9E && low != 0xA1 {
        Err(Chip8Error::UnknownOpcode(op))
    } else if vx >= NUM_KEYS {
        Err(Chip8Error::InvalidKey)
    } else if low == 0x9E {
        Ok(skip_if(m, m.keys[vx as int]))
    } else {
        Ok(skip_if(m, !m.keys[vx as int]))
    }
}

/// Memory with the three decimal digits of `val` written at `i`.
pub open spec fn bcd_ram(ram: Seq<u8>, i: int, val: u8) -> Seq<u8> {
    ram.update(i, val / 100).update(i + 1, (val / 10) % 10).update(i + 2, val % 10)
}

/// Memory with V0..=VX written at `i`.
pub open spec fn stored_ram(m: MachineModel, x: int) -> Seq<u8> {
    Seq::new(m.ram.len(), |a: int| if m.i <= a <= m.i + x { m.v[a - m.i] } else { m.ram[a] })
}

/// Registers V0..=VX read from memory at `i`.
pub open spec fn loaded_regs(m: MachineModel, x: int) -> Seq<u8> {
    Seq::new(m.v.len(), |k: int| if k <= x { m.ram[m.i + k] } else { m.v[k] })
}

/// The FXnn instructions.
pub open spec fn misc_model(m: MachineModel, op: u16) -> Result<MachineModel, Chip8Error> {
    let x = d2(op);
    let vx = m.v[x];
    let low = op as int % 256;
    if low == 0x07 {
        Ok(set_v(m, x, m.delay))
    } else if low == 0x0A {
        if any_pressed(m.keys) {
            Ok(set_v(m, x, first_pressed(m.keys) as u8))
        } else {
            Ok(MachineModel { pc: (m.pc - 2) as u16, ..m })
        }
    } else if low == 0x15 {
        Ok(MachineModel { delay: vx, ..m })
    } else if low == 0x18 {
        Ok(MachineModel { sound: vx, ..m })
    } else if low == 0x1E {
        Ok(MachineModel { i: ((m.i + vx) % 65536) as u16, ..m })
    } else if low == 0x29 {
        Ok(MachineModel { i: (vx * 5) as u16, ..m })
    } else if low == 0x33 {
        if m.i + 2 < RAM_SIZE {
            Ok(MachineModel { ram: bcd_ram(m.ram, m.i as int, vx), ..m })
        } else {
            Err(Chip8Error::MemoryOutOfRange)
        }
    } else if low == 0x55 {
        if m.i + x < RAM_SIZE {
            Ok(MachineModel { ram: stored_ram(m, x), ..m })
        } else {
            Err(Chip8Error::MemoryOutOfRange)
        }
    } else if low == 0x65 {
        if m.i + x < RAM_SIZE {
            Ok(MachineModel { v: loaded_regs(m, x), ..m })
        } else {
            Err(Chip8Error::MemoryOutOfRange)
        }
    } else {
        Err(Chip8Error::UnknownOpcode(op))
    }
}

/// One instruction, on a state whose program counter is already past it;
/// `rnd` is the random byte that CXNN masks.
pub open spec fn execute_model(m: MachineModel, op: u16, rnd: u8) -> Result<MachineModel, Chip8Error> {
    let x = d2(op);
    let y = d3(op);
    let h = d1(op);
    if op == 0x0000 {
        Ok(m)
    } else if op == 0x00E0 {
        Ok(MachineModel { display: Seq::new(DISPLAY_SIZE as nat, |p: int| false), ..m })
    } else if op == 0x00EE {
        if m.sp == 0 {
            Err(Chip8Error::StackUnderflow)
        } else {
            Ok(MachineModel { pc: m.stack[m.sp - 1], sp: (m.sp - 1) as u16, ..m })
        }
    } else if h == 1 {
        Ok(MachineModel { pc: nnn(op), ..m })
    } else if h == 2 {
        if m.sp >= STACK_SIZE {
            Err(Chip8Error::StackOverflow)
        } else {
            Ok(MachineModel { stack: m.stack.update(m.sp as int, m.pc), sp: (m.sp + 1) as u16, pc: nnn(op), ..m })
        }
    } else if h == 3 {
        Ok(skip_if(m, m.v[x] == nn(op)))
    } else if h == 4 {
        Ok(skip_if(m, m.v[x] != nn(op)))
    } else if h == 5 && d4(op) == 0 {
        Ok(skip_if(m, m.v[x] == m.v[y]))
    } else if h == 6 {
        Ok(set_v(m, x, nn(op)))
    } else if h == 7 {
        Ok(set_v(m, x, ((m.v[x] + nn(op)) % 256) as u8))
    } else if h == 8 {
        alu_model(m, op)
    } else if h == 9 && d4(op) == 0 {
        Ok(skip_if(m, m.v[x] != m.v[y]))
    } else if h == 0xA {
        Ok(MachineModel { i: nnn(op), ..m })
    } else if h == 0xB {
        Ok(MachineModel { pc: (m.v[0] + nnn(op)) as u16, ..m })
    } else if h == 0xC {
        Ok(set_v(m, x, rnd & nn(op)))
    } else if h == 0xD {
        draw_model(m, op)
    } else if h == 0xE {
        key_model(m, op)
    } else if h == 0xF {
        misc_model(m, op)
    } else {
        Err(Chip8Error::UnknownOpcode(op))
    }
}

/// `r` reports the outcome `expected`: on success the machine went from
/// `before` to `after`, on a fault it was left as it was.
pub open spec fn follows(
    r: Result<(), Chip8Error>,
    before: MachineModel,
    after: MachineModel,
    expected: Result<MachineModel, Chip8Error>,
) -> bool {
    match r {
        Ok(_) => expected == Ok::<MachineModel, Chip8Error>(after),
        Err(e) => expected == Err::<MachineModel, Chip8Error>(e) && after == before,
    }
}

/// One fetch-decode-execute cycle.
pub open spec fn step_model(m: MachineModel, rnd: u8) -> Result<MachineModel, Chip8Error> {
    if m.pc + 1 >= RAM_SIZE {
        Err(Chip8Error::MemoryOutOfRange)
    } else {
        execute_model(MachineModel { pc: (m.pc + 2) as u16, ..m }, opcode_at(m.ram, m.pc as int), rnd)
    }
}

} // verus!
