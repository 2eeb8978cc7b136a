//! The machine's state and the operations the host calls between steps.

use vstd::prelude::*;
use crate::error::Chip8Error;
use crate::model::{
    MachineModel, initial_model, initial_ram, image_fits, loaded_ram, tick_timer, FONTSET,
    FONTSET_SIZE, NUM_KEYS, RAM_SIZE, START_ADDRESS,
};

verus! {

/// A CHIP-8 machine.
pub struct Chip8 {
    pub(crate) pc: u16,
    pub(crate) ram: [u8; 4096],
    pub(crate) v_regi: [u8; 16],
    pub(crate) i_regi: u16,
    pub(crate) display: [bool; 2048],
    pub(crate) stack: [u16; 16],
    pub(crate) stkp: u16,
    pub(crate) delay_t: u8,
    pub(crate) sound_t: u8,
    pub(crate) keys: [bool; 16],
}

impl View for Chip8 {
    type V = MachineModel;

    open(crate) spec fn view(&self) -> MachineModel {
        MachineModel {
            pc: self.pc,
            ram: self.ram@,
            v: self.v_regi@,
            i: self.i_regi,
            display: self.display@,
            stack: self.stack@,
            sp: self.stkp,
            delay: self.delay_t,
            sound: self.sound_t,
            keys: self.keys@,
        }
    }
}

impl Chip8 {
    /// The model is well formed: in particular the stack pointer stays within the stack.
    pub open spec fn wf(&self) -> bool {
        self@.wf()
    }

    /// A machine in its initial state: the program counter at 0x200, the font
    /// table at the start of memory, and everything else zero.
    pub fn init() -> (r: Self)
        ensures
            r.wf(),
            r@ == initial_model(),
    {
        let mut chip8_emu = Chip8 {
            pc: START_ADDRESS,
            ram: [0u8; 4096],
            v_regi: [0u8; 16],
            i_regi: 0,
            display: [false; 2048],
            stack: [0u16; 16],
            stkp: 0,
            delay_t: 0,
            sound_t: 0,
            keys: [false; 16],
        };
        chip8_emu.seed_font();
        proof {
            assert(chip8_emu.v_regi@ =~= initial_model().v);
            assert(chip8_emu.display@ =~= initial_model().display);
            assert(chip8_emu.stack@ =~= initial_model().stack);
            assert(chip8_emu.keys@ =~= initial_model().keys);
        }
        chip8_emu
    }

    /// Copies the font table into the first bytes of a zeroed memory.
    fn seed_font(&mut self)
        requires
            forall|a: int| 0 <= a < RAM_SIZE ==> old(self).ram@[a] == 0,
        ensures
            final(self)@ == (MachineModel { ram: initial_ram(), ..old(self)@ }),
    {
        let mut k: usize = 0;
        while k < FONTSET_SIZE
            invariant
                k <= FONTSET_SIZE,
                self.ram@.len() == RAM_SIZE,
                forall|a: int| 0 <= a < k ==> self.ram@[a] == FONTSET@[a],
                forall|a: int| k <= a < RAM_SIZE ==> self.ram@[a] == 0,
                self@ == (MachineModel { ram: self.ram@, ..old(self)@ }),
            decreases FONTSET_SIZE - k,
        {
            self.ram[k] = FONTSET[k];
            k = k + 1;
        }
        assert(self.ram@ =~= initial_ram());
    }

    /// The display, row by row: cell (x, y) is at index x + 64 * y.
    pub fn get_display(&self) -> (r: &[bool])
        ensures
            r@ == self@.display,
    {
        &self.display
    }

    /// Sets whether key `idx` is pressed; an index outside 0..16 is refused
    /// and leaves the machine unchanged.
    pub fn keypress(&mut self, idx: usize, pressed: bool) -> (r: Result<(), Chip8Error>)
        requires
            old(self).wf(),
        ensures
            final(self).wf(),
            idx < NUM_KEYS ==> r is Ok && final(self)@ == (MachineModel {
                keys: old(self)@.keys.update(idx as int, pressed),
                ..old(self)@
            }),
            idx >= NUM_KEYS ==> r == Err::<(), Chip8Error>(Chip8Error::InvalidKey) && *final(self) == *old(self),
    {
        if idx >= NUM_KEYS {
            return Err(Chip8Error::InvalidKey);
        }
        self.keys[idx] = pressed;
        Ok(())
    }

    /// Copies a program image into memory from address 0x200 on, leaving the
    /// rest of memory and every register as they were. An image that does not
    /// fit is refused and leaves the machine unchanged.
    pub fn load(&mut self, data: &[u8]) -> (r: Result<(), Chip8Error>)
        requires
            old(self).wf(),
        ensures
            final(self).wf(),
            image_fits(data@.len()) ==> r is Ok && final(self)@ == (MachineModel {
                ram: loaded_ram(old(self)@.ram, data@),
                ..old(self)@
            }),
            !image_fits(data@.len()) ==> r == Err::<(), Chip8Error>(Chip8Error::MemoryOutOfRange)
                && *final(self) == *old(self),
    {
        let start: usize = START_ADDRESS as usize;
        if data.len() > RAM_SIZE - start {
            return Err(Chip8Error::MemoryOutOfRange);
        }
        let mut k: usize = 0;
        while k < data.len()
            invariant
                k <= data@.len(),
                start + data@.len() <= RAM_SIZE,
                start == START_ADDRESS,
                self@ == (MachineModel { ram: self@.ram, ..old(self)@ }),
                self@.ram.len() == RAM_SIZE,
                forall|a: int| 0 <= a < RAM_SIZE ==> #[trigger] self@.ram[a] == (if start <= a < start + k {
                    data@[a - start]
                } else {
                    old(self)@.ram[a]
                }),
            decreases data@.len() - k,
        {
            self.ram[start + k] = data[k];
            k = k + 1;
        }
        assert(self@.ram =~= loaded_ram(old(self)@.ram, data@));
        Ok(())
    }

    /// Puts the machine back in its initial state, as `init` builds it.
    pub fn reset(&mut self)
        ensures
            final(self).wf(),
            final(self)@ == initial_model(),
    {
        self.pc = START_ADDRESS;
        self.ram = [0u8; 4096];
        self.display = [false; 2048];
        self.v_regi = [0u8; 16];
        self.i_regi = 0;
        self.stkp = 0;
        self.stack = [0u16; 16];
        self.keys = [false; 16];
        self.delay_t = 0;
        self.sound_t = 0;
        self.seed_font();
        proof {
            assert(self.v_regi@ =~= initial_model().v);
            assert(self.display@ =~= initial_model().display);
            assert(self.stack@ =~= initial_model().stack);
            assert(self.keys@ =~= initial_model().keys);
        }
    }

    /// One tick of the 60 Hz timers: each of the delay and sound timers goes
    /// down by one unless it is already zero.
    pub fn clock_timers(&mut self)
        ensures
            final(self)@ == (MachineModel {
                delay: tick_timer(old(self)@.delay),
                sound: tick_timer(old(self)@.sound),
                ..old(self)@
            }),
    {
        if self.delay_t > 0 {
            self.delay_t = self.delay_t - 1;
        }
        if self.sound_t > 0 {
            self.sound_t = self.sound_t - 1;
        }
    }

    /// The program counter.
    pub fn pc(&self) -> (r: u16)
        ensures
            r == self@.pc,
    {
        self.pc
    }

    /// The index register I.
    pub fn index_register(&self) -> (r: u16)
        ensures
            r == self@.i,
    {
        self.i_regi
    }

    /// Register Vx.
    pub fn register(&self, x: usize) -> (r: u8)
        requires
            x < 16,
        ensures
            r == self@.v[x as int],
    {
        self.v_regi[x]
    }

    /// The byte at memory address `addr`.
    pub fn memory(&self, addr: usize) -> (r: u8)
        requires
            addr < RAM_SIZE,
        ensures
            r == self@.ram[addr as int],
    {
        self.ram[addr]
    }

    /// The delay timer.
    pub fn delay_timer(&self) -> (r: u8)
        ensures
            r == self@.delay,
    {
        self.delay_t
    }

    /// The sound timer.
    pub fn sound_timer(&self) -> (r: u8)
        ensures
            r == self@.sound,
    {
        self.sound_t
    }

    /// Whether key `idx` is pressed.
    pub fn key(&self, idx: usize) -> (r: bool)
        requires
            idx < NUM_KEYS,
        ensures
            r == self@.keys[idx as int],
    {
        self.keys[idx]
    }
}

} // verus!
