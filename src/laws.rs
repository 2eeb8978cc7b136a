//! Properties of the instruction set that hold of every machine state.

use vstd::prelude::*;
use crate::error::Chip8Error;
use crate::model::{
    MachineModel, DISPLAY_SIZE, FONTSET, RAM_SIZE, START_ADDRESS, draw_collides, execute_model,
    initial_model, opcode_at, set_v, sprite_bit, sprite_covers, step_model, tick_timer, d1, d2,
    d3, d4, sprite_col, sprite_row, sprite_in_ram,
};

verus! {

/// The machine after the program counter moves past the current instruction.
pub open spec fn advanced(m: MachineModel) -> MachineModel {
    MachineModel { pc: (m.pc + 2) as u16, ..m }
}

/// `6XNN` loads NN into VX, whatever VX held.
pub proof fn lemma_load_immediate(m: MachineModel, x: int, nn: u8, random: u8)
    requires
        m.wf(),
        0 <= x < 16,
        m.pc + 1 < RAM_SIZE,
        opcode_at(m.ram, m.pc as int) == 0x6000 + 256 * x + nn,
    ensures
        step_model(m, random) == Ok::<MachineModel, Chip8Error>(set_v(advanced(m), x, nn)),
        step_model(m, random)->Ok_0.v[x] == nn,
{
}

/// `7XNN` adds NN to VX modulo 256 and leaves every other register,
/// VF included, as it was.
pub proof fn lemma_add_immediate(m: MachineModel, x: int, nn: u8, random: u8)
    requires
        m.wf(),
        0 <= x < 16,
        m.pc + 1 < RAM_SIZE,
        opcode_at(m.ram, m.pc as int) == 0x7000 + 256 * x + nn,
    ensures
        step_model(m, random) is Ok,
        step_model(m, random)->Ok_0.v == m.v.update(x, ((m.v[x] + nn) % 256) as u8),
{
}

/// `8XY4` leaves (VX + VY) mod 256 in VX and sets VF to 1 exactly when the
/// sum exceeds 255. For X = F the flag overwrites the sum.
pub proof fn lemma_add_with_carry(m: MachineModel, x: int, y: int, random: u8)
    requires
        m.wf(),
        0 <= x < 15,
        0 <= y < 16,
        m.pc + 1 < RAM_SIZE,
        opcode_at(m.ram, m.pc as int) == 0x8004 + 256 * x + 16 * y,
    ensures
        step_model(m, random) is Ok,
        step_model(m, random)->Ok_0.v[x] == (m.v[x] + m.v[y]) % 256,
        step_model(m, random)->Ok_0.v[15] == (if m.v[x] + m.v[y] > 255 { 1u8 } else { 0u8 }),
{
}

/// `8XY5` with VX < VY borrows: VF becomes 0 and VX becomes (VX - VY) mod 256.
/// For X = F the flag overwrites the difference.
pub proof fn lemma_subtract_with_borrow(m: MachineModel, x: int, y: int, random: u8)
    requires
        m.wf(),
        0 <= x < 15,
        0 <= y < 16,
        m.v[x] < m.v[y],
        m.pc + 1 < RAM_SIZE,
        opcode_at(m.ram, m.pc as int) == 0x8005 + 256 * x + 16 * y,
    ensures
        step_model(m, random) is Ok,
        step_model(m, random)->Ok_0.v[x] == (m.v[x] - m.v[y]) % 256,
        step_model(m, random)->Ok_0.v[15] == 0,
{
}

/// Sprite cells wrap around the display: column `c` of sprite row `r`,
/// drawn at (`vx`, `vy`), lands on column (vx + c) mod 64 of row
/// (vy + r) mod 32, and on no other cell.
pub proof fn lemma_sprite_wraps(vx: u8, vy: u8, c: int, r: int, p: int)
    requires
        0 <= c < 8,
        0 <= r < 16,
    ensures
        ({
            let t = (vx + c) % 64 + 64 * ((vy + r) % 32);
            &&& 0 <= t < 2048
            &&& sprite_col(vx, t) == c
            &&& sprite_row(vy, t) == r
            &&& (0 <= p < 2048 && sprite_col(vx, p) == c && sprite_row(vy, p) == r ==> p == t)
        }),
{
    let t = (vx + c) % 64 + 64 * ((vy + r) % 32);
    assert(t % 64 == (vx + c) % 64 && t / 64 == (vy + r) % 32);
    assert(0 <= p < 2048 && sprite_col(vx, p) == c && sprite_row(vy, p) == r ==> p == t) by {
        if 0 <= p < 2048 && sprite_col(vx, p) == c && sprite_row(vy, p) == r {
            assert(p % 64 == (vx + c) % 64);
            assert(p / 64 == (vy + r) % 32);
        }
    }
}

/// A sprite drawn at (63, 31) wraps to column 0 and row 0: the top-left
/// cell (index 0) takes bit 1 of sprite row 1, the bottom-right cell (index
/// 2047) bit 0 of row 0.
pub proof fn lemma_sprite_wraps_at_corner(ram: Seq<u8>, i: u16, n: int)
    requires
        2 <= n < 16,
    ensures
        sprite_covers(ram, i, 63, 31, n, 0) == sprite_bit(ram[i + 1], 1),
        sprite_covers(ram, i, 63, 31, n, 2047) == sprite_bit(ram[i as int], 0),
{
    lemma_sprite_wraps(63, 31, 1, 1, 0);
    lemma_sprite_wraps(63, 31, 0, 0, 0);
}

/// Drawing the same sprite at the same place twice restores the display,
/// and the second draw reports a collision whenever the first turned a
/// cell on. (With X or Y equal to F the first draw's flag would move the sprite.)
pub proof fn lemma_draw_twice(m: MachineModel, op: u16, random: u8)
    requires
        m.wf(),
        d1(op) == 0xD,
        d2(op) != 15,
        d3(op) != 15,
        sprite_in_ram(m.i, d4(op)),
    ensures
        ({
            let once = execute_model(m, op, random);
            let twice = execute_model(once->Ok_0, op, random);
            &&& once is Ok
            &&& twice is Ok
            &&& twice->Ok_0.display == m.display
            &&& (exists|p: int| 0 <= p < DISPLAY_SIZE && !m.display[p]
                && #[trigger] sprite_covers(m.ram, m.i, m.v[d2(op)], m.v[d3(op)], d4(op), p))
                ==> twice->Ok_0.v[15] == 1
        }),
{
    let vx = m.v[d2(op)];
    let vy = m.v[d3(op)];
    let n = d4(op);
    let m1 = execute_model(m, op, random)->Ok_0;
    assert(m1.v[d2(op)] == vx && m1.v[d3(op)] == vy);
    let m2 = execute_model(m1, op, random)->Ok_0;
    assert(m2.display =~= m.display);
    if exists|p: int| 0 <= p < DISPLAY_SIZE && !m.display[p]
        && #[trigger] sprite_covers(m.ram, m.i, vx, vy, n, p) {
        let p = choose|p: int| 0 <= p < DISPLAY_SIZE && !m.display[p]
            && #[trigger] sprite_covers(m.ram, m.i, vx, vy, n, p);
        assert(m1.display[p]);
        assert(draw_collides(m1, vx, vy, n));
    }
}

/// `FX55` with X = 3 stores exactly V0, V1, V2 and V3, at I..I+4, and no
/// other byte of memory changes.
pub proof fn lemma_store_four_registers(m: MachineModel, random: u8)
    requires
        m.wf(),
        m.i + 3 < RAM_SIZE,
        m.pc + 1 < RAM_SIZE,
        opcode_at(m.ram, m.pc as int) == 0xF355,
    ensures
        step_model(m, random) is Ok,
        forall|k: int| 0 <= k < 4 ==> #[trigger] step_model(m, random)->Ok_0.ram[m.i + k] == m.v[k],
        forall|a: int| 0 <= a < RAM_SIZE && !(m.i <= a < m.i + 4) ==>
            #[trigger] step_model(m, random)->Ok_0.ram[a] == m.ram[a],
        step_model(m, random)->Ok_0.v == m.v,
{
}

/// `FX65` with X = 3 loads exactly V0, V1, V2 and V3 from I..I+4, and no
/// other register changes.
pub proof fn lemma_load_four_registers(m: MachineModel, random: u8)
    requires
        m.wf(),
        m.i + 3 < RAM_SIZE,
        m.pc + 1 < RAM_SIZE,
        opcode_at(m.ram, m.pc as int) == 0xF365,
    ensures
        step_model(m, random) is Ok,
        forall|k: int| 0 <= k < 4 ==> #[trigger] step_model(m, random)->Ok_0.v[k] == m.ram[m.i + k],
        forall|k: int| 4 <= k < 16 ==> #[trigger] step_model(m, random)->Ok_0.v[k] == m.v[k],
        step_model(m, random)->Ok_0.ram == m.ram,
{
}

/// A timer after `k` ticks.
pub open spec fn ticks(t: u8, k: nat) -> u8
    decreases k,
{
    if k == 0 { t } else { tick_timer(ticks(t, (k - 1) as nat)) }
}

/// Each tick takes exactly one off a nonzero timer, and any number of ticks
/// stops at zero: after `k` ticks a timer holds max(t - k, 0).
pub proof fn lemma_timer_floor(t: u8, k: nat)
    ensures
        t > 0 ==> tick_timer(t) == t - 1,
        t == 0 ==> tick_timer(t) == 0,
        ticks(t, k) == (if t >= k { t - k } else { 0 }),
    decreases k,
{
    if k > 0 {
        lemma_timer_floor(t, (k - 1) as nat);
    }
}

/// The state that construction and reset give: the program counter at 0x200,
/// registers, timers, stack pointer and keys at zero, the display blank, and
/// the font table in the first 80 bytes of memory.
pub proof fn lemma_initial_state()
    ensures
        initial_model().wf(),
        initial_model().pc == START_ADDRESS,
        initial_model().i == 0,
        initial_model().sp == 0,
        initial_model().delay == 0,
        initial_model().sound == 0,
        forall|k: int| 0 <= k < 16 ==> #[trigger] initial_model().v[k] == 0,
        forall|k: int| 0 <= k < 16 ==> !#[trigger] initial_model().keys[k],
        forall|p: int| 0 <= p < DISPLAY_SIZE ==> !#[trigger] initial_model().display[p],
        forall|a: int| 0 <= a < 80 ==> #[trigger] initial_model().ram[a] == FONTSET@[a],
{
}

} // verus!
