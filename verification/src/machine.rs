//! The interpreter itself: its state in memory and the cycle that fetches,
//! decodes and executes one instruction.

use crate::display::{blank_screen, draw_sprite, screen_view};
use crate::model::{
    alu, alu_op, call_op, draw_op, draws_random, execute, font, highest_pressed, initial_state,
    key_op, loaded, misc_op, skip_if, step, stored, system_op, tick, Fault, State,
};
use crate::rng::{random_byte, thread_generator};
use vstd::prelude::*;

verus! {

/// Rows of the display.
pub const CHIP8_HEIGHT: usize = 32;

/// Columns of the display.
pub const CHIP8_WIDTH: usize = 64;

/// A CHIP-8 machine. The driver writes `key` before a cycle, reads `gfx`
/// after it and clears `draw_flag` once it has shown the display.
pub struct Chip8 {
    pub sound_timer: u8,
    pub delay_timer: u8,
    pub draw_flag: bool,
    pub memory: [u8; 4096],
    pub stack: [u16; 16],
    pub i_reg: u16,
    pub key: [bool; 16],
    pub rng: rand::rngs::ThreadRng,
    pub gfx: [[u8; 64]; 32],
    pub pc: u16,
    pub sp: u16,
    pub v: [u8; 16],
}

impl View for Chip8 {
    type V = State;

    /// Everything but the generator of random bytes.
    open spec fn view(&self) -> State {
        State {
            memory: self.memory@,
            v: self.v@,
            stack: self.stack@,
            keys: self.key@,
            gfx: screen_view(self.gfx),
            i_reg: self.i_reg,
            pc: self.pc,
            sp: self.sp,
            delay_timer: self.delay_timer,
            sound_timer: self.sound_timer,
            draw_flag: self.draw_flag,
        }
    }
}

/// The model of a machine has the sizes that the machine fixes, whatever its
/// fields hold.
pub proof fn lemma_view_is_wf(c: Chip8)
    ensures
        c@.wf(),
{
}

/// Whether an instruction that was to turn `before` into `want` did so, or
/// reported the fault in `want` and left the state alone.
pub open spec fn carried_out(
    before: State,
    after: State,
    r: Result<(), Fault>,
    want: Result<State, Fault>,
) -> bool {
    match want {
        Ok(t) => r is Ok && after == t,
        Err(f) => r == Err::<(), Fault>(f) && after == before,
    }
}

/// The font table.
fn font_table() -> (t: [u8; 80])
    ensures
        t@ == font(),
{
    let t: [u8; 80] = [
        0xF0, 0x90, 0x90, 0x90, 0xF0,
        0x20, 0x60, 0x20, 0x20, 0x70,
        0xF0, 0x10, 0xF0, 0x80, 0xF0,
        0xF0, 0x10, 0xF0, 0x10, 0xF0,
        0x90, 0x90, 0xF0, 0x10, 0x10,
        0xF0, 0x80, 0xF0, 0x10, 0xF0,
        0xF0, 0x80, 0xF0, 0x90, 0xF0,
        0xF0, 0x10, 0x20, 0x40, 0x40,
        0xF0, 0x90, 0xF0, 0x90, 0xF0,
        0xF0, 0x90, 0xF0, 0x10, 0xF0,
        0xF0, 0x90, 0xF0, 0x90, 0x90,
        0xE0, 0x90, 0xE0, 0x90, 0xE0,
        0xF0, 0x80, 0x80, 0x80, 0xF0,
        0xE0, 0x90, 0x90, 0x90, 0xE0,
        0xF0, 0x80, 0xF0, 0x80, 0xF0,
        0xF0, 0x80, 0xF0, 0x80, 0x80,
    ];
    assert(t@ =~= font());
    t
}

impl Chip8 {
    /// A machine with `data` loaded at `0x200`, or `ProgramTooLarge` where
    /// `data` does not fit below the end of the memory.
    pub fn new(data: Vec<u8>) -> (r: Result<Chip8, Fault>)
        ensures
            match r {
                Ok(c) => data@.len() <= 3584 && c@ == initial_state(data@),
                Err(f) => data@.len() > 3584 && f == Fault::ProgramTooLarge,
            },
    {
        if data.len() > 3584 {
            return Err(Fault::ProgramTooLarge);
        }
        let mut mem = [0u8; 4096];
        let glyphs = font_table();
        let mut i: usize = 0;
        while i < 80
            invariant
                i <= 80,
                glyphs@ == font(),
                forall|k: int| 0 <= k < i ==> mem@[k] == font()[k],
                forall|k: int| i <= k < 4096 ==> mem@[k] == 0,
            decreases 80 - i,
        {
            mem[i] = glyphs[i];
            i += 1;
        }
        let mut j: usize = 0;
        while j < data.len()
            invariant
                j <= data@.len() <= 3584,
                forall|k: int| 0 <= k < 80 ==> mem@[k] == font()[k],
                forall|k: int| 0x200 <= k < 0x200 + j ==> mem@[k] == data@[k - 0x200],
                forall|k: int| 80 <= k < 0x200 || 0x200 + j <= k < 4096 ==> mem@[k] == 0,
            decreases data@.len() - j,
        {
            mem[0x200 + j] = data[j];
            j += 1;
        }
        let c = Chip8 {
            sound_timer: 0,
            delay_timer: 0,
            draw_flag: false,
            memory: mem,
            stack: [0u16; 16],
            i_reg: 0,
            key: [false; 16],
            rng: thread_generator(),
            gfx: [[0u8; 64]; 32],
            pc: 0x200,
            sp: 0,
            v: [0u8; 16],
        };
        assert(c@.memory =~= initial_state(data@).memory);
        assert(c@.v =~= initial_state(data@).v);
        assert(c@.stack =~= initial_state(data@).stack);
        assert(c@.keys =~= initial_state(data@).keys);
        assert(c@.gfx =~~= initial_state(data@).gfx);
        Ok(c)
    }

    /// The highest pressed key, found by a scan from key 0 to key F that keeps
    /// the last one seen.
    pub fn last_pressed(&self) -> (k: Option<u8>)
        ensures
            match k {
                Some(k) => k as int == highest_pressed(self@.keys, 16),
                None => highest_pressed(self@.keys, 16) < 0,
            },
    {
        let mut found: Option<u8> = None;
        let mut i: u8 = 0;
        while i < 16
            invariant
                i <= 16,
                match found {
                    Some(k) => k as int == highest_pressed(self.key@, i as int),
                    None => highest_pressed(self.key@, i as int) < 0,
                },
            decreases 16 - i,
        {
            if self.key[i as usize] {
                found = Some(i);
            }
            i += 1;
        }
        found
    }

    /// One tick of both timers.
    fn tick_timers(&mut self)
        ensures
            final(self)@ == tick(old(self)@),
    {
        if self.delay_timer > 0 {
            self.delay_timer -= 1;
        }
        if self.sound_timer > 0 {
            self.sound_timer -= 1;
        }
    }

    /// Skips the next instruction where `cond` holds.
    fn skip_when(&mut self, cond: bool)
        requires
            old(self).pc <= 4096,
        ensures
            final(self)@ == skip_if(old(self)@, cond),
    {
        if cond {
            self.pc += 2;
        }
    }

    /// `00E0` and `00EE`.
    fn run_system(&mut self, instr: u16) -> (r: Result<(), Fault>)
        ensures
            carried_out(old(self)@, final(self)@, r, system_op(old(self)@, instr)),
    {
        if instr == 0x00E0 {
            self.gfx = [[0u8; 64]; 32];
            self.draw_flag = true;
            assert(self@.gfx =~~= blank_screen());
            Ok(())
        } else if instr == 0x00EE {
            if self.sp == 0 {
                return Err(Fault::StackUnderflow);
            }
            if self.sp > 16 {
                return Err(Fault::StackOverflow);
            }
            let target = self.stack[(self.sp - 1) as usize];
            if target > 0xFFFD {
                return Err(Fault::PcOutOfBounds);
            }
            self.sp -= 1;
            self.pc = target + 2;
            Ok(())
        } else {
            Err(Fault::InvalidOpcode(instr))
        }
    }

    /// `2NNN`.
    fn run_call(&mut self, nnn: u16) -> (r: Result<(), Fault>)
        ensures
            carried_out(old(self)@, final(self)@, r, call_op(old(self)@, nnn)),
    {
        if self.sp >= 16 {
            return Err(Fault::StackOverflow);
        }
        self.stack[self.sp as usize] = self.pc;
        self.sp += 1;
        self.pc = nnn;
        Ok(())
    }

    /// `8XYN`.
    fn run_alu(&mut self, instr: u16) -> (r: Result<(), Fault>)
        ensures
            carried_out(old(self)@, final(self)@, r, alu_op(old(self)@, instr)),
    {
        let x: usize = ((instr / 256) % 16) as usize;
        let y: usize = ((instr / 16) % 16) as usize;
        let n: u16 = instr % 16;
        let vx: u8 = self.v[x];
        let vy: u8 = self.v[y];
        if n == 0 {
            self.v[x] = vy;
        } else if n == 1 {
            self.v[x] = vx | vy;
        } else if n == 2 {
            self.v[x] = vx & vy;
        } else if n == 3 {
            self.v[x] = vx ^ vy;
        } else if n == 4 {
            let sum: u16 = vx as u16 + vy as u16;
            self.v[x] = (sum % 256) as u8;
            self.v[15] = if sum > 255 { 1 } else { 0 };
        } else if n == 5 {
            self.v[x] = if vx >= vy { vx - vy } else { (256 + vx as u16 - vy as u16) as u8 };
            self.v[15] = if vx >= vy { 1 } else { 0 };
        } else if n == 6 {
            self.v[15] = vx & 1;
            let now: u8 = self.v[x];
            self.v[x] = now >> 1;
        } else if n == 7 {
            self.v[x] = if vy >= vx { vy - vx } else { (256 + vy as u16 - vx as u16) as u8 };
            self.v[15] = if vy >= vx { 1 } else { 0 };
        } else if n == 14 {
            self.v[15] = vx >> 7;
            let now: u8 = self.v[x];
            self.v[x] = now << 1;
        } else {
            return Err(Fault::InvalidOpcode(instr));
        }
        assert(self.v@ =~= alu(old(self).v@, x as int, y as int, n as int)->Some_0);
        Ok(())
    }

    /// `DXYN`.
    fn run_draw(&mut self, instr: u16) -> (r: Result<(), Fault>)
        ensures
            carried_out(old(self)@, final(self)@, r, draw_op(old(self)@, instr)),
    {
        let x: usize = ((instr / 256) % 16) as usize;
        let y: usize = ((instr / 16) % 16) as usize;
        let n: u8 = (instr % 16) as u8;
        if n > 0 && self.i_reg as usize + n as usize > 4096 {
            return Err(Fault::MemoryOutOfBounds);
        }
        self.draw_flag = true;
        self.v[15] = 0;
        let left: u8 = self.v[x];
        let top: u8 = self.v[y];
        let hit = draw_sprite(&mut self.gfx, &self.memory, self.i_reg, n, left, top);
        self.v[15] = if hit { 1 } else { 0 };
        assert(self@ =~~= draw_op(old(self)@, instr)->Ok_0);
        Ok(())
    }

    /// `EX9E` and `EXA1`.
    fn run_key(&mut self, instr: u16) -> (r: Result<(), Fault>)
        requires
            old(self).pc <= 4096,
        ensures
            carried_out(old(self)@, final(self)@, r, key_op(old(self)@, instr)),
    {
        let x: usize = ((instr / 256) % 16) as usize;
        let nn: u16 = instr % 256;
        let vx: u8 = self.v[x];
        if nn != 0x9E && nn != 0xA1 {
            return Err(Fault::InvalidOpcode(instr));
        }
        if vx >= 16 {
            return Err(Fault::InvalidKey);
        }
        let pressed: bool = self.key[vx as usize];
        self.skip_when(pressed == (nn == 0x9E));
        Ok(())
    }

    /// `FXNN`.
    fn run_misc(&mut self, instr: u16) -> (r: Result<(), Fault>)
        ensures
            carried_out(old(self)@, final(self)@, r, misc_op(old(self)@, instr)),
    {
        let x: usize = ((instr / 256) % 16) as usize;
        let nn: u16 = instr % 256;
        let vx: u8 = self.v[x];
        let i: usize = self.i_reg as usize;
        if nn == 0x07 {
            self.v[x] = self.delay_timer;
        } else if nn == 0x0A {
            match self.last_pressed() {
                Some(k) => {
                    self.v[x] = k;
                },
                None => {},
            }
        } else if nn == 0x15 {
            self.delay_timer = vx;
        } else if nn == 0x18 {
            self.sound_timer = vx;
        } else if nn == 0x1E {
            let sum: u32 = self.i_reg as u32 + vx as u32;
            self.i_reg = (sum % 65536) as u16;
            self.v[15] = if sum > 0xFFF { 1 } else { 0 };
        } else if nn == 0x29 {
            self.i_reg = (vx as u16) * 5;
        } else if nn == 0x33 {
            if i + 2 > 4095 {
                return Err(Fault::MemoryOutOfBounds);
            }
            self.memory[i] = vx / 100;
            self.memory[i + 1] = (vx / 10) % 10;
            self.memory[i + 2] = vx % 10;
        } else if nn == 0x55 {
            if i + x > 4095 {
                return Err(Fault::MemoryOutOfBounds);
            }
            let mut k: usize = 0;
            while k <= x
                invariant
                    x < 16,
                    i + x <= 4095,
                    k <= x + 1,
                    i == old(self).i_reg,
                    self.memory@ == stored(old(self).memory@, old(self).v@, i as int, k as int - 1),
                    self@ == (State { memory: self.memory@, ..old(self)@ }),
                decreases x + 1 - k,
            {
                self.memory[i + k] = self.v[k];
                assert(self.memory@ =~= stored(
                    old(self).memory@,
                    old(self).v@,
                    i as int,
                    k as int,
                ));
                k += 1;
            }
            self.i_reg = (i + x + 1) as u16;
        } else if nn == 0x65 {
            if i + x > 4095 {
                return Err(Fault::MemoryOutOfBounds);
            }
            let mut k: usize = 0;
            while k <= x
                invariant
                    x < 16,
                    i + x <= 4095,
                    k <= x + 1,
                    i == old(self).i_reg,
                    self.v@ == loaded(old(self).memory@, old(self).v@, i as int, k as int - 1),
                    self@ == (State { v: self.v@, ..old(self)@ }),
                decreases x + 1 - k,
            {
                self.v[k] = self.memory[i + k];
                assert(self.v@ =~= loaded(old(self).memory@, old(self).v@, i as int, k as int));
                k += 1;
            }
            self.i_reg = (i + x + 1) as u16;
        } else {
            return Err(Fault::InvalidOpcode(instr));
        }
        assert(self@ =~~= misc_op(old(self)@, instr)->Ok_0);
        Ok(())
    }

    /// One cycle with `random` as the byte that `CXNN` would draw: fetch,
    /// decode, execute, tick. `Ok(true)` asks for a beep.
    pub fn step_with(&mut self, random: u8) -> (r: Result<bool, Fault>)
        ensures
            (final(self)@, r) == step(old(self)@, random),
    {
        if self.pc > 4094 {
            return Err(Fault::PcOutOfBounds);
        }
        let start: u16 = self.pc;
        let instr: u16 = (self.memory[start as usize] as u16) * 256 + (self.memory[start as usize
            + 1] as u16);
        let f: u16 = instr / 4096;
        let x: usize = ((instr / 256) % 16) as usize;
        let y: usize = ((instr / 16) % 16) as usize;
        let n: u16 = instr % 16;
        let nn: u8 = (instr % 256) as u8;
        let nnn: u16 = instr % 4096;
        if f == 15 && nn == 0x0A && self.last_pressed().is_none() {
            return Ok(false);
        }
        self.pc = start + 2;
        let ghost a = self@;
        let done: Result<(), Fault> = if f == 0 {
            self.run_system(instr)
        } else if f == 1 {
            self.pc = nnn;
            Ok(())
        } else if f == 2 {
            self.run_call(nnn)
        } else if f == 3 {
            self.skip_when(self.v[x] == nn);
            Ok(())
        } else if f == 4 {
            self.skip_when(self.v[x] != nn);
            Ok(())
        } else if f == 5 {
            if n == 0 {
                self.skip_when(self.v[x] == self.v[y]);
                Ok(())
            } else {
                Err(Fault::InvalidOpcode(instr))
            }
        } else if f == 6 {
            self.v[x] = nn;
            Ok(())
        } else if f == 7 {
            self.v[x] = ((self.v[x] as u16 + nn as u16) % 256) as u8;
            Ok(())
        } else if f == 8 {
            self.run_alu(instr)
        } else if f == 9 {
            if n == 0 {
                self.skip_when(self.v[x] != self.v[y]);
                Ok(())
            } else {
                Err(Fault::InvalidOpcode(instr))
            }
        } else if f == 10 {
            self.i_reg = nnn;
            Ok(())
        } else if f == 11 {
            self.pc = nnn + self.v[0] as u16;
            Ok(())
        } else if f == 12 {
            self.v[x] = random & nn;
            Ok(())
        } else if f == 13 {
            self.run_draw(instr)
        } else if f == 14 {
            self.run_key(instr)
        } else {
            self.run_misc(instr)
        };
        assert(carried_out(a, self@, done, execute(a, instr, random)));
        match done {
            Ok(()) => {
                let beep = self.sound_timer == 1;
                self.tick_timers();
                Ok(beep)
            },
            Err(fault) => {
                self.pc = start;
                assert(self@ =~~= old(self)@);
                Err(fault)
            },
        }
    }

    /// One cycle of the machine. Where the next instruction is `CXNN`, one
    /// byte is drawn from the generator; the cycle is then `step_with` on
    /// that byte, so the outcome is that of `step` for some byte. Any other
    /// instruction does not read the byte.
    pub fn emulate_cycle(&mut self) -> (r: Result<bool, Fault>)
        ensures
            exists|random: u8| #[trigger] step(old(self)@, random) == (final(self)@, r),
            !draws_random(old(self)@) ==> step(old(self)@, 0) == (final(self)@, r),
    {
        let random: u8 = if self.reads_random() {
            random_byte(&mut self.rng)
        } else {
            0
        };
        self.step_with(random)
    }

    /// Whether the instruction at the program counter is `CXNN`.
    pub fn reads_random(&self) -> (b: bool)
        ensures
            b == draws_random(self@),
    {
        if self.pc > 4094 {
            return false;
        }
        let hi: u8 = self.memory[self.pc as usize];
        hi / 16 == 12
    }
}

} // verus!
