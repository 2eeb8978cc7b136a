//! The fetch-decode-execute engine.

use vstd::prelude::*;
use rand::Rng;
use crate::error::Chip8Error;
use crate::laws::lemma_sprite_wraps;
use crate::machine::Chip8;
use crate::model::{
    MachineModel, alu_model, d1, d2, d3, d4, done_cell, draw_model, sprite_covers,
    sprite_bit, key_model, misc_model, set_v, any_pressed, first_pressed,
    RAM_SIZE, SCREEN_HEIGHT, SCREEN_WIDTH, NUM_KEYS, STACK_SIZE, follows, opcode_at,
    execute_model, step_model,
};

verus! {

/// Relies on rand's `thread_rng().gen::<u8>()`: a uniformly drawn byte. Any
/// byte may come back.
#[verifier::external_body]
fn random_byte() -> (r: u8) {
    rand::thread_rng().gen::<u8>()
}

impl Chip8 {
    /// Draws sprite rows from memory at I onto the display (DXYN).
    fn exec_draw(&mut self, opcode: u16) -> (r: Result<(), Chip8Error>)
        requires
            old(self).wf(),
            d1(opcode) == 0xD,
        ensures
            final(self).wf(),
            follows(r, old(self)@, final(self)@, draw_model(old(self)@, opcode)),
    {
        let x: usize = ((opcode / 256) % 16) as usize;
        let y: usize = ((opcode / 16) % 16) as usize;
        let vx: u8 = self.v_regi[x];
        let vy: u8 = self.v_regi[y];
        let num_rows: u16 = opcode % 16;
        if num_rows > 0 && self.i_regi as usize + num_rows as usize > RAM_SIZE {
            return Err(Chip8Error::MemoryOutOfRange);
        }
        let ghost m = self@;
        let ghost n = num_rows as int;
        let mut flipped: bool = false;
        let mut y_line: u16 = 0;
        while y_line < num_rows
            invariant
                self@ == (MachineModel { display: self@.display, ..m }),
                m.wf(),
                vx == m.v[d2(opcode)],
                vy == m.v[d3(opcode)],
                n == d4(opcode),
                num_rows == n,
                n < 16,
                n == 0 || m.i + n <= RAM_SIZE,
                y_line <= num_rows,
                self@.display.len() == 2048,
                forall|p: int| 0 <= p < 2048 ==> #[trigger] self@.display[p] == (m.display[p]
                    != (sprite_covers(m.ram, m.i, vx, vy, n, p) && done_cell(vx, vy, y_line as int, 0, p))),
                flipped == exists|p: int| 0 <= p < 2048 && #[trigger] sprite_covers(m.ram, m.i, vx, vy, n, p)
                    && done_cell(vx, vy, y_line as int, 0, p) && m.display[p],
            decreases num_rows - y_line,
        {
            let addr: u16 = self.i_regi + y_line;
            let pixels: u8 = self.ram[addr as usize];
            let mut x_line: u16 = 0;
            while x_line < 8
                invariant
                    self@ == (MachineModel { display: self@.display, ..m }),
                    m.wf(),
                    n < 16,
                    0 <= y_line < n,
                    pixels == m.ram[m.i + y_line],
                    x_line <= 8,
                    self@.display.len() == 2048,
                    forall|p: int| 0 <= p < 2048 ==> #[trigger] self@.display[p] == (m.display[p]
                        != (sprite_covers(m.ram, m.i, vx, vy, n, p) && done_cell(vx, vy, y_line as int, x_line as int, p))),
                    flipped == exists|p: int| 0 <= p < 2048 && #[trigger] sprite_covers(m.ram, m.i, vx, vy, n, p)
                        && done_cell(vx, vy, y_line as int, x_line as int, p) && m.display[p],
                decreases 8 - x_line,
            {
                let ghost before = self@.display;
                let ghost was_flipped = flipped;
                if (pixels & (0x80u8 >> x_line)) != 0 {
                    let px: usize = (vx as usize + x_line as usize) % SCREEN_WIDTH;
                    let py: usize = (vy as usize + y_line as usize) % SCREEN_HEIGHT;
                    let idx: usize = px + SCREEN_WIDTH * py;
                    proof {
                        lemma_sprite_wraps(vx, vy, x_line as int, y_line as int, 0);
                        assert(sprite_covers(m.ram, m.i, vx, vy, n, idx as int));
                    }
                    flipped = flipped || self.display[idx];
                    self.display[idx] = !self.display[idx];
                    proof {
                        assert forall|p: int| 0 <= p < 2048 implies #[trigger] self@.display[p] == (m.display[p]
                            != (sprite_covers(m.ram, m.i, vx, vy, n, p) && done_cell(vx, vy, y_line as int, x_line + 1, p))) by {
                            lemma_sprite_wraps(vx, vy, x_line as int, y_line as int, p);
                        }
                        if flipped {
                            if !was_flipped {
                                assert(sprite_covers(m.ram, m.i, vx, vy, n, idx as int)
                                    && done_cell(vx, vy, y_line as int, x_line + 1, idx as int) && m.display[idx as int]);
                            }
                        } else {
                            assert forall|p: int| 0 <= p < 2048 && #[trigger] sprite_covers(m.ram, m.i, vx, vy, n, p)
                                && done_cell(vx, vy, y_line as int, x_line + 1, p) implies !m.display[p] by {
                                lemma_sprite_wraps(vx, vy, x_line as int, y_line as int, p);
                            }
                        }
                    }
                } else {
                    proof {
                        assert forall|p: int| 0 <= p < 2048 && #[trigger] sprite_covers(m.ram, m.i, vx, vy, n, p)
                            implies (done_cell(vx, vy, y_line as int, x_line + 1, p)
                                == done_cell(vx, vy, y_line as int, x_line as int, p)) by {
                            lemma_sprite_wraps(vx, vy, x_line as int, y_line as int, p);
                            let t = (vx + x_line) % 64 + 64 * ((vy + y_line) % 32);
                            if p == t {
                                assert(!sprite_bit(pixels, x_line as int));
                            }
                        }
                    }
                }
                x_line = x_line + 1;
            }
            y_line = y_line + 1;
        }
        if flipped {
            self.v_regi[15] = 1;
        } else {
            self.v_regi[15] = 0;
        }
        proof {
            assert forall|p: int| 0 <= p < 2048 && #[trigger] sprite_covers(m.ram, m.i, vx, vy, n, p)
                implies done_cell(vx, vy, n, 0, p) by {}
            assert(self@.display =~= crate::model::drawn_display(m, vx, vy, n));
            assert(self@ =~= draw_model(m, opcode)->Ok_0);
        }
        Ok(())
    }

    /// Runs an 8XYn arithmetic or logic instruction.
    fn exec_alu(&mut self, opcode: u16) -> (r: Result<(), Chip8Error>)
        requires
            old(self).wf(),
            d1(opcode) == 8,
        ensures
            final(self).wf(),
            follows(r, old(self)@, final(self)@, alu_model(old(self)@, opcode)),
    {
        let x: usize = ((opcode / 256) % 16) as usize;
        let y: usize = ((opcode / 16) % 16) as usize;
        let a: u8 = self.v_regi[x];
        let b: u8 = self.v_regi[y];
        let kind: u16 = opcode % 16;
        if kind == 0 {
            self.v_regi[x] = b;
        } else if kind == 1 {
            self.v_regi[x] = a | b;
        } else if kind == 2 {
            self.v_regi[x] = a & b;
        } else if kind == 3 {
            self.v_regi[x] = a ^ b;
        } else if kind == 4 {
            let carry: bool = a as u16 + b as u16 > 255;
            self.v_regi[x] = a.wrapping_add(b);
            self.v_regi[15] = if carry { 1 } else { 0 };
        } else if kind == 5 {
            let borrow: bool = a < b;
            self.v_regi[x] = a.wrapping_sub(b);
            self.v_regi[15] = if borrow { 0 } else { 1 };
        } else if kind == 6 {
            let lsb: u8 = a & 1;
            self.v_regi[x] = a >> 1;
            self.v_regi[15] = lsb;
            assert(a & 1 == a % 2 && a >> 1 == a / 2) by (bit_vector);
        } else if kind == 7 {
            let borrow: bool = b < a;
            self.v_regi[x] = b.wrapping_sub(a);
            self.v_regi[15] = if borrow { 0 } else { 1 };
        } else if kind == 0xE {
            let msb: u8 = (a >> 7) & 1;
            self.v_regi[x] = a << 1;
            self.v_regi[15] = msb;
            assert((a >> 7) & 1 == a / 128 && a << 1 == (a * 2) % 256) by (bit_vector);
        } else {
            return Err(Chip8Error::UnknownOpcode(opcode));
        }
        assert(self@ =~= alu_model(old(self)@, opcode)->Ok_0);
        Ok(())
    }

    /// Runs EX9E or EXA1: skips the next instruction on the state of key VX.
    fn exec_key(&mut self, opcode: u16) -> (r: Result<(), Chip8Error>)
        requires
            old(self).wf(),
            old(self).pc <= 4096,
            d1(opcode) == 0xE,
        ensures
            final(self).wf(),
            follows(r, old(self)@, final(self)@, key_model(old(self)@, opcode)),
    {
        let x: usize = ((opcode / 256) % 16) as usize;
        let low: u16 = opcode % 256;
        if low != 0x9E && low != 0xA1 {
            return Err(Chip8Error::UnknownOpcode(opcode));
        }
        let vx: u8 = self.v_regi[x];
        if vx as usize >= NUM_KEYS {
            return Err(Chip8Error::InvalidKey);
        }
        let key: bool = self.keys[vx as usize];
        if (low == 0x9E && key) || (low == 0xA1 && !key) {
            self.pc = self.pc + 2;
        }
        assert(self@ =~= key_model(old(self)@, opcode)->Ok_0);
        Ok(())
    }

    /// Runs FX0A: puts the lowest pressed key in VX, or, with no key
    /// pressed, moves the program counter back so that it runs again.
    fn exec_wait_key(&mut self, x: usize)
        requires
            old(self).wf(),
            old(self).pc >= 2,
            x < 16,
        ensures
            final(self).wf(),
            final(self)@ == (if any_pressed(old(self)@.keys) {
                set_v(old(self)@, x as int, first_pressed(old(self)@.keys) as u8)
            } else {
                MachineModel { pc: (old(self)@.pc - 2) as u16, ..old(self)@ }
            }),
    {
        let mut k: usize = 0;
        while k < NUM_KEYS
            invariant
                k <= NUM_KEYS,
                x < 16,
                self == old(self),
                self.wf(),
                forall|j: int| 0 <= j < k ==> !self.keys@[j],
            decreases NUM_KEYS - k,
        {
            if self.keys[k] {
                proof {
                    let keys = self.keys@;
                    assert(0 <= k < keys.len() && keys[k as int] && forall|j: int| 0 <= j < k ==> !keys[j]);
                    let f = first_pressed(keys);
                    assert(f == k) by {
                        if f < k {
                            assert(!keys[f]);
                        } else if f > k {
                            assert(!keys[k as int]);
                        }
                    }
                }
                self.v_regi[x] = k as u8;
                assert(self@ =~= set_v(old(self)@, x as int, first_pressed(old(self)@.keys) as u8));
                return;
            }
            k = k + 1;
        }
        self.pc = self.pc - 2;
    }

    /// Runs the FXnn instructions.
    fn exec_misc(&mut self, opcode: u16) -> (r: Result<(), Chip8Error>)
        requires
            old(self).wf(),
            old(self).pc >= 2,
            d1(opcode) == 0xF,
        ensures
            final(self).wf(),
            follows(r, old(self)@, final(self)@, misc_model(old(self)@, opcode)),
    {
        let x: usize = ((opcode / 256) % 16) as usize;
        let vx: u8 = self.v_regi[x];
        let low: u16 = opcode % 256;
        if low == 0x07 {
            self.v_regi[x] = self.delay_t;
        } else if low == 0x0A {
            self.exec_wait_key(x);
        } else if low == 0x15 {
            self.delay_t = vx;
        } else if low == 0x18 {
            self.sound_t = vx;
        } else if low == 0x1E {
            self.i_regi = self.i_regi.wrapping_add(vx as u16);
        } else if low == 0x29 {
            self.i_regi = vx as u16 * 5;
        } else if low == 0x33 {
            let i: usize = self.i_regi as usize;
            if i + 2 >= RAM_SIZE {
                return Err(Chip8Error::MemoryOutOfRange);
            }
            self.ram[i] = vx / 100;
            self.ram[i + 1] = (vx / 10) % 10;
            self.ram[i + 2] = vx % 10;
        } else if low == 0x55 {
            let i: usize = self.i_regi as usize;
            if i + x >= RAM_SIZE {
                return Err(Chip8Error::MemoryOutOfRange);
            }
            let mut idx: usize = 0;
            while idx <= x
                invariant
                    idx <= x + 1,
                    x < 16,
                    i + x < RAM_SIZE,
                    i == old(self)@.i,
                    self@ == (MachineModel { ram: self@.ram, ..old(self)@ }),
                    self@.ram.len() == RAM_SIZE,
                    forall|a: int| 0 <= a < RAM_SIZE ==> #[trigger] self@.ram[a] == (if i <= a < i + idx {
                        old(self)@.v[a - i]
                    } else {
                        old(self)@.ram[a]
                    }),
                decreases x + 1 - idx,
            {
                self.ram[i + idx] = self.v_regi[idx];
                idx = idx + 1;
            }
        } else if low == 0x65 {
            let i: usize = self.i_regi as usize;
            if i + x >= RAM_SIZE {
                return Err(Chip8Error::MemoryOutOfRange);
            }
            let mut idx: usize = 0;
            while idx <= x
                invariant
                    idx <= x + 1,
                    x < 16,
                    i + x < RAM_SIZE,
                    i == old(self)@.i,
                    self@ == (MachineModel { v: self@.v, ..old(self)@ }),
                    self@.v.len() == 16,
                    forall|k: int| 0 <= k < 16 ==> #[trigger] self@.v[k] == (if k < idx {
                        old(self)@.ram[i + k]
                    } else {
                        old(self)@.v[k]
                    }),
                decreases x + 1 - idx,
            {
                self.v_regi[idx] = self.ram[i + idx];
                idx = idx + 1;
            }
        } else {
            return Err(Chip8Error::UnknownOpcode(opcode));
        }
        assert(self@ =~= misc_model(old(self)@, opcode)->Ok_0);
        Ok(())
    }

    /// Pushes a return address.
    fn push(&mut self, data: u16)
        requires
            old(self).wf(),
            old(self).stkp < STACK_SIZE,
        ensures
            final(self)@ == (MachineModel {
                stack: old(self)@.stack.update(old(self)@.sp as int, data),
                sp: (old(self)@.sp + 1) as u16,
                ..old(self)@
            }),
    {
        self.stack[self.stkp as usize] = data;
        self.stkp = self.stkp + 1;
    }

    /// Pops the most recent return address.
    fn pop(&mut self) -> (r: u16)
        requires
            old(self).wf(),
            old(self).stkp > 0,
        ensures
            r == old(self)@.stack[old(self)@.sp - 1],
            final(self)@ == (MachineModel { sp: (old(self)@.sp - 1) as u16, ..old(self)@ }),
    {
        self.stkp = self.stkp - 1;
        self.stack[self.stkp as usize]
    }

    /// Reads the instruction word at the program counter and moves the
    /// program counter past it.
    fn fetch(&mut self) -> (r: Result<u16, Chip8Error>)
        requires
            old(self).wf(),
        ensures
            final(self).wf(),
            match r {
                Ok(op) => old(self).pc + 1 < RAM_SIZE && op == opcode_at(old(self)@.ram, old(self).pc as int)
                    && final(self)@ == (MachineModel { pc: (old(self).pc + 2) as u16, ..old(self)@ }),
                Err(e) => old(self).pc + 1 >= RAM_SIZE && e == Chip8Error::MemoryOutOfRange
                    && *final(self) == *old(self),
            },
    {
        if self.pc as usize + 1 >= RAM_SIZE {
            return Err(Chip8Error::MemoryOutOfRange);
        }
        let high: u16 = self.ram[self.pc as usize] as u16;
        let low: u16 = self.ram[self.pc as usize + 1] as u16;
        let opcode: u16 = (high << 8) | low;
        assert(high < 256 && low < 256 ==> (high << 8) | low == high * 256 + low) by (bit_vector);
        self.pc = self.pc + 2;
        Ok(opcode)
    }

    /// Runs one decoded instruction; `random` is the byte that CXNN masks.
    /// The program counter is already past the instruction.
    fn execute(&mut self, opcode: u16, random: u8) -> (r: Result<(), Chip8Error>)
        requires
            old(self).wf(),
            2 <= old(self).pc <= RAM_SIZE,
        ensures
            final(self).wf(),
            follows(r, old(self)@, final(self)@, execute_model(old(self)@, opcode, random)),
    {
        let d1: u16 = opcode / 0x1000;
        let x: usize = ((opcode / 256) % 16) as usize;
        let y: usize = ((opcode / 16) % 16) as usize;
        let d4: u16 = opcode % 16;
        let nnn: u16 = opcode % 0x1000;
        let nn: u8 = (opcode % 256) as u8;
        if opcode == 0x0000 {
            return Ok(());
        } else if opcode == 0x00E0 {
            self.display = [false; 2048];
        } else if opcode == 0x00EE {
            if self.stkp == 0 {
                return Err(Chip8Error::StackUnderflow);
            }
            self.pc = self.pop();
        } else if d1 == 1 {
            self.pc = nnn;
        } else if d1 == 2 {
            if self.stkp as usize >= STACK_SIZE {
                return Err(Chip8Error::StackOverflow);
            }
            self.push(self.pc);
            self.pc = nnn;
        } else if d1 == 3 {
            if self.v_regi[x] == nn {
                self.pc = self.pc + 2;
            }
        } else if d1 == 4 {
            if self.v_regi[x] != nn {
                self.pc = self.pc + 2;
            }
        } else if d1 == 5 && d4 == 0 {
            if self.v_regi[x] == self.v_regi[y] {
                self.pc = self.pc + 2;
            }
        } else if d1 == 6 {
            self.v_regi[x] = nn;
        } else if d1 == 7 {
            self.v_regi[x] = self.v_regi[x].wrapping_add(nn);
        } else if d1 == 8 {
            return self.exec_alu(opcode);
        } else if d1 == 9 && d4 == 0 {
            if self.v_regi[x] != self.v_regi[y] {
                self.pc = self.pc + 2;
            }
        } else if d1 == 0xA {
            self.i_regi = nnn;
        } else if d1 == 0xB {
            self.pc = self.v_regi[0] as u16 + nnn;
        } else if d1 == 0xC {
            self.v_regi[x] = random & nn;
        } else if d1 == 0xD {
            return self.exec_draw(opcode);
        } else if d1 == 0xE {
            return self.exec_key(opcode);
        } else if d1 == 0xF {
            return self.exec_misc(opcode);
        } else {
            return Err(Chip8Error::UnknownOpcode(opcode));
        }
        assert(self@ =~= execute_model(old(self)@, opcode, random)->Ok_0);
        Ok(())
    }

    /// Runs one fetch-decode-execute cycle, with `random` as the byte that
    /// CXNN masks. On a fault the machine is left exactly as it was.
    pub fn step_with(&mut self, random: u8) -> (r: Result<(), Chip8Error>)
        requires
            old(self).wf(),
        ensures
            final(self).wf(),
            follows(r, old(self)@, final(self)@, step_model(old(self)@, random)),
    {
        let saved_pc: u16 = self.pc;
        let opcode: u16 = match self.fetch() {
            Ok(op) => op,
            Err(e) => return Err(e),
        };
        match self.execute(opcode, random) {
            Ok(()) => Ok(()),
            Err(e) => {
                self.pc = saved_pc;
                assert(self@ =~= old(self)@);
                Err(e)
            },
        }
    }

    /// Runs one fetch-decode-execute cycle, drawing a random byte for CXNN.
    /// The outcome is that of `step_with` for some byte; on a fault the
    /// machine is left exactly as it was.
    pub fn clock(&mut self) -> (r: Result<(), Chip8Error>)
        requires
            old(self).wf(),
        ensures
            final(self).wf(),
            exists|random: u8| follows(r, old(self)@, final(self)@, #[trigger] step_model(old(self)@, random)),
    {
        let random: u8 = random_byte();
        self.step_with(random)
    }
}

} // verus!
