//! The mathematical model of the interpreter: its state as sequences and
//! integers, the decoding of an instruction word, and the transition that one
//! cycle performs.

use crate::display::{blank_screen, collides, drawn, sprite_of};
use vstd::prelude::*;

verus! {

/// Why a cycle, or the loading of a program, was refused.
#[derive(Clone, Copy, Debug, PartialEq, Eq, Structural)]
pub enum Fault {
    /// The program image is longer than the 3584 bytes above `0x200`.
    ProgramTooLarge,
    /// The program counter does not leave room for a two-byte fetch, or a
    /// return address cannot be represented.
    PcOutOfBounds,
    /// The fetched word is no instruction of the machine.
    InvalidOpcode(u16),
    /// A return with no call outstanding.
    StackUnderflow,
    /// A call with all sixteen stack slots in use, or a return with the stack
    /// pointer beyond them.
    StackOverflow,
    /// An access through the index register that leaves the memory.
    MemoryOutOfBounds,
    /// A key test on a register that holds no key index.
    InvalidKey,
}

/// The interpreter's state as plain mathematical values.
pub struct State {
    pub memory: Seq<u8>,
    pub v: Seq<u8>,
    pub stack: Seq<u16>,
    pub keys: Seq<bool>,
    pub gfx: Seq<Seq<u8>>,
    pub i_reg: u16,
    pub pc: u16,
    pub sp: u16,
    pub delay_timer: u8,
    pub sound_timer: u8,
    pub draw_flag: bool,
}

impl State {
    /// Every part has the size that the machine fixes.
    pub open spec fn wf(self) -> bool {
        &&& self.memory.len() == 4096
        &&& self.v.len() == 16
        &&& self.stack.len() == 16
        &&& self.keys.len() == 16
        &&& self.gfx.len() == 32
        &&& forall|r: int| 0 <= r < 32 ==> (#[trigger] self.gfx[r]).len() == 64
    }
}

/// The sixteen glyphs for the hexadecimal digits, five bytes each.
pub open spec fn font() -> Seq<u8> {
    seq![
        0xF0u8, 0x90, 0x90, 0x90, 0xF0,
        0x20, 0x60, 0x20, 0x20, 0x70,
        0xF0, 0x10, 0xF0, 0x80, 0xF0,
        0xF0, 0x10, 0xF0, 0x10, 0xF0,
        0x90, 0x90, 0xF0, 0x10, 0x10,
        0xF0, 0x80, 0xF0, 0x10, 0xF0,
        0xF0, 0x80, 0xF0, 0x90, 0xF0,
        0xF0, 0x10, 0x20, 0x40, 0x40,
        0xF0, 0x90, 0xF0, 0x90, 0xF0,
        0xF0, 0x90, 0xF0, 0x10, 0xF0,
        0xF0, 0x90, 0xF0, 0x90, 0x90,
        0xE0, 0x90, 0xE0, 0x90, 0xE0,
        0xF0, 0x80, 0x80, 0x80, 0xF0,
        0xE0, 0x90, 0x90, 0x90, 0xE0,
        0xF0, 0x80, 0xF0, 0x80, 0xF0,
        0xF0, 0x80, 0xF0, 0x80, 0x80,
    ]
}

/// The state right after `program` was loaded: the font at the bottom of the
/// memory, the program from `0x200` on, everything else zero.
pub open spec fn initial_state(program: Seq<u8>) -> State {
    State {
        memory: Seq::new(
            4096,
            |k: int|
                if k < 80 {
                    font()[k]
                } else if 0x200 <= k < 0x200 + program.len() {
                    program[k - 0x200]
                } else {
                    0u8
                },
        ),
        v: Seq::new(16, |k: int| 0u8),
        stack: Seq::new(16, |k: int| 0u16),
        keys: Seq::new(16, |k: int| false),
        gfx: blank_screen(),
        i_reg: 0,
        pc: 0x200,
        sp: 0,
        delay_timer: 0,
        sound_timer: 0,
        draw_flag: false,
    }
}

// ---------------------------------------------------------------------------
// Decoding
// ---------------------------------------------------------------------------

/// The top nibble: the opcode family.
pub open spec fn family(instr: u16) -> int {
    instr as int / 4096
}

/// The second nibble: the register index X.
pub open spec fn reg_x(instr: u16) -> int {
    (instr as int / 256) % 16
}

/// The third nibble: the register index Y.
pub open spec fn reg_y(instr: u16) -> int {
    (instr as int / 16) % 16
}

/// The bottom nibble: the immediate N.
pub open spec fn low_nibble(instr: u16) -> int {
    instr as int % 16
}

/// The bottom byte: the immediate NN.
pub open spec fn low_byte(instr: u16) -> u8 {
    (instr as int % 256) as u8
}

/// The bottom twelve bits: the address NNN.
pub open spec fn address(instr: u16) -> u16 {
    (instr as int % 4096) as u16
}

/// The instruction word at the program counter, high byte first.
pub open spec fn fetch(s: State) -> u16 {
    (s.memory[s.pc as int] as int * 256 + s.memory[s.pc as int + 1] as int) as u16
}

// ---------------------------------------------------------------------------
// Pieces of the transition
// ---------------------------------------------------------------------------

/// A flag as a register value.
pub open spec fn flag(b: bool) -> u8 {
    if b {
        1
    } else {
        0
    }
}

/// The state with the next instruction skipped where `cond` holds.
pub open spec fn skip_if(s: State, cond: bool) -> State {
    State { pc: if cond { (s.pc + 2) as u16 } else { s.pc }, ..s }
}

/// The state with register `x` set to `val`.
pub open spec fn set_reg(s: State, x: int, val: u8) -> State {
    State { v: s.v.update(x, val), ..s }
}

/// The register file after the arithmetic instruction `8XYN`, or `None` where
/// `n` selects none. Sums and differences write the result and then the flag;
/// the shifts write the flag and then shift what register X then holds.
pub open spec fn alu(v: Seq<u8>, x: int, y: int, n: int) -> Option<Seq<u8>> {
    let vx = v[x];
    let vy = v[y];
    if n == 0 {
        Some(v.update(x, vy))
    } else if n == 1 {
        Some(v.update(x, vx | vy))
    } else if n == 2 {
        Some(v.update(x, vx & vy))
    } else if n == 3 {
        Some(v.update(x, vx ^ vy))
    } else if n == 4 {
        Some(v.update(x, ((vx + vy) % 256) as u8).update(15, flag(vx + vy > 255)))
    } else if n == 5 {
        Some(v.update(x, ((vx - vy) % 256) as u8).update(15, flag(vx >= vy)))
    } else if n == 6 {
        let w = v.update(15, vx & 1);
        Some(w.update(x, w[x] >> 1))
    } else if n == 7 {
        Some(v.update(x, ((vy - vx) % 256) as u8).update(15, flag(vy >= vx)))
    } else if n == 14 {
        let w = v.update(15, vx >> 7);
        Some(w.update(x, w[x] << 1))
    } else {
        None
    }
}

/// The highest index below `n` of a pressed key, or -1 where none is pressed.
pub open spec fn highest_pressed(keys: Seq<bool>, n: int) -> int
    decreases n,
{
    if n <= 0 {
        -1
    } else if keys[n - 1] {
        n - 1
    } else {
        highest_pressed(keys, n - 1)
    }
}

/// The memory after registers V0 to VX were stored from `i` on.
pub open spec fn stored(memory: Seq<u8>, v: Seq<u8>, i: int, x: int) -> Seq<u8> {
    Seq::new(
        memory.len(),
        |k: int|
            if i <= k <= i + x {
                v[k - i]
            } else {
                memory[k]
            },
    )
}

/// The registers after V0 to VX were loaded from `i` on.
pub open spec fn loaded(memory: Seq<u8>, v: Seq<u8>, i: int, x: int) -> Seq<u8> {
    Seq::new(
        v.len(),
        |k: int|
            if k <= x {
                memory[i + k]
            } else {
                v[k]
            },
    )
}

/// Both timers one tick later: each one less, unless it is zero already.
pub open spec fn tick(s: State) -> State {
    State {
        delay_timer: if s.delay_timer > 0 { (s.delay_timer - 1) as u8 } else { 0 },
        sound_timer: if s.sound_timer > 0 { (s.sound_timer - 1) as u8 } else { 0 },
        ..s
    }
}

// ---------------------------------------------------------------------------
// The instructions, each on the state whose program counter already points
// behind the instruction
// ---------------------------------------------------------------------------

/// `00E0` clears the display; `00EE` returns to two bytes behind the address
/// on top of the stack.
pub open spec fn system_op(a: State, instr: u16) -> Result<State, Fault> {
    if instr == 0x00E0 {
        Ok(State { gfx: blank_screen(), draw_flag: true, ..a })
    } else if instr == 0x00EE {
        if a.sp == 0 {
            Err(Fault::StackUnderflow)
        } else if a.sp > 16 {
            Err(Fault::StackOverflow)
        } else if a.stack[a.sp - 1] > 0xFFFD {
            Err(Fault::PcOutOfBounds)
        } else {
            Ok(State { pc: (a.stack[a.sp - 1] + 2) as u16, sp: (a.sp - 1) as u16, ..a })
        }
    } else {
        Err(Fault::InvalidOpcode(instr))
    }
}

/// `2NNN` pushes the program counter and jumps to `nnn`.
pub open spec fn call_op(a: State, nnn: u16) -> Result<State, Fault> {
    if a.sp >= 16 {
        Err(Fault::StackOverflow)
    } else {
        Ok(State { stack: a.stack.update(a.sp as int, a.pc), sp: (a.sp + 1) as u16, pc: nnn, ..a })
    }
}

/// `8XYN`, the arithmetic between two registers.
pub open spec fn alu_op(a: State, instr: u16) -> Result<State, Fault> {
    match alu(a.v, reg_x(instr), reg_y(instr), low_nibble(instr)) {
        Some(v) => Ok(State { v, ..a }),
        None => Err(Fault::InvalidOpcode(instr)),
    }
}

/// `DXYN` draws the `n` bytes at I as a sprite at (VX, VY), both read once VF
/// is cleared, and leaves in VF whether the draw collided.
pub open spec fn draw_op(a: State, instr: u16) -> Result<State, Fault> {
    let n = low_nibble(instr);
    let cleared = a.v.update(15, 0u8);
    let sprite = sprite_of(a.memory, a.i_reg as int, n, cleared[reg_x(instr)], cleared[reg_y(instr)]);
    if n > 0 && a.i_reg + n > 4096 {
        Err(Fault::MemoryOutOfBounds)
    } else {
        Ok(
            State {
                gfx: drawn(a.gfx, sprite),
                v: cleared.update(15, flag(collides(a.gfx, sprite))),
                draw_flag: true,
                ..a
            },
        )
    }
}

/// `EX9E` skips where key VX is pressed, `EXA1` where it is not.
pub open spec fn key_op(a: State, instr: u16) -> Result<State, Fault> {
    let vx = a.v[reg_x(instr)];
    let nn = low_byte(instr);
    if nn != 0x9E && nn != 0xA1 {
        Err(Fault::InvalidOpcode(instr))
    } else if vx >= 16 {
        Err(Fault::InvalidKey)
    } else {
        Ok(skip_if(a, a.keys[vx as int] == (nn == 0x9E)))
    }
}

/// The instructions `FXNN`: timers, the key wait once a key is pressed, the
/// index register, decimal digits, and storing and loading registers.
pub open spec fn misc_op(a: State, instr: u16) -> Result<State, Fault> {
    let x = reg_x(instr);
    let vx = a.v[x];
    let nn = low_byte(instr);
    let i = a.i_reg as int;
    if nn == 0x07 {
        Ok(set_reg(a, x, a.delay_timer))
    } else if nn == 0x0A {
        let k = highest_pressed(a.keys, 16);
        if k < 0 {
            Ok(a)
        } else {
            Ok(set_reg(a, x, k as u8))
        }
    } else if nn == 0x15 {
        Ok(State { delay_timer: vx, ..a })
    } else if nn == 0x18 {
        Ok(State { sound_timer: vx, ..a })
    } else if nn == 0x1E {
        Ok(
            State {
                i_reg: ((i + vx) % 65536) as u16,
                v: a.v.update(15, flag(i + vx > 0xFFF)),
                ..a
            },
        )
    } else if nn == 0x29 {
        Ok(State { i_reg: (vx * 5) as u16, ..a })
    } else if nn == 0x33 {
        if i + 2 > 4095 {
            Err(Fault::MemoryOutOfBounds)
        } else {
            Ok(
                State {
                    memory: a.memory.update(i, vx / 100).update(i + 1, (vx / 10) % 10).update(
                        i + 2,
                        vx % 10,
                    ),
                    ..a
                },
            )
        }
    } else if nn == 0x55 {
        if i + x > 4095 {
            Err(Fault::MemoryOutOfBounds)
        } else {
            Ok(State { memory: stored(a.memory, a.v, i, x), i_reg: (i + x + 1) as u16, ..a })
        }
    } else if nn == 0x65 {
        if i + x > 4095 {
            Err(Fault::MemoryOutOfBounds)
        } else {
            Ok(State { v: loaded(a.memory, a.v, i, x), i_reg: (i + x + 1) as u16, ..a })
        }
    } else {
        Err(Fault::InvalidOpcode(instr))
    }
}

/// What the instruction `instr` makes of the state `a`, whose program counter
/// already points behind it. `random` is the byte that `CXNN` masks.
pub open spec fn execute(a: State, instr: u16, random: u8) -> Result<State, Fault> {
    let f = family(instr);
    let x = reg_x(instr);
    let y = reg_y(instr);
    let n = low_nibble(instr);
    let nn = low_byte(instr);
    let nnn = address(instr);
    if f == 0 {
        system_op(a, instr)
    } else if f == 1 {
        Ok(State { pc: nnn, ..a })
    } else if f == 2 {
        call_op(a, nnn)
    } else if f == 3 {
        Ok(skip_if(a, a.v[x] == nn))
    } else if f == 4 {
        Ok(skip_if(a, a.v[x] != nn))
    } else if f == 5 {
        if n == 0 {
            Ok(skip_if(a, a.v[x] == a.v[y]))
        } else {
            Err(Fault::InvalidOpcode(instr))
        }
    } else if f == 6 {
        Ok(set_reg(a, x, nn))
    } else if f == 7 {
        Ok(set_reg(a, x, ((a.v[x] + nn) % 256) as u8))
    } else if f == 8 {
        alu_op(a, instr)
    } else if f == 9 {
        if n == 0 {
            Ok(skip_if(a, a.v[x] != a.v[y]))
        } else {
            Err(Fault::InvalidOpcode(instr))
        }
    } else if f == 10 {
        Ok(State { i_reg: nnn, ..a })
    } else if f == 11 {
        Ok(State { pc: (nnn + a.v[0]) as u16, ..a })
    } else if f == 12 {
        Ok(set_reg(a, x, random & nn))
    } else if f == 13 {
        draw_op(a, instr)
    } else if f == 14 {
        key_op(a, instr)
    } else {
        misc_op(a, instr)
    }
}

// ---------------------------------------------------------------------------
// One cycle
// ---------------------------------------------------------------------------

/// Whether the next instruction is the key wait `FX0A` while no key is
/// pressed.
pub open spec fn waits_for_key(s: State) -> bool {
    &&& s.pc <= 4094
    &&& family(fetch(s)) == 15
    &&& low_byte(fetch(s)) == 0x0A
    &&& highest_pressed(s.keys, 16) < 0
}

/// Whether the next instruction is `CXNN`, the only one that reads the random
/// byte.
pub open spec fn draws_random(s: State) -> bool {
    s.pc <= 4094 && family(fetch(s)) == 12
}

/// One cycle from `s`: the state after it, and either whether a beep is due or
/// the fault that stopped it. A fault leaves the state as it was. A key wait
/// with no key pressed leaves it too, timers included, so that the next cycle
/// fetches the same instruction. Otherwise the instruction at the program
/// counter takes effect on the state whose program counter is two higher,
/// and then both timers tick; a beep is due where the sound timer stood at 1
/// before the tick.
pub open spec fn step(s: State, random: u8) -> (State, Result<bool, Fault>) {
    if s.pc > 4094 {
        (s, Err(Fault::PcOutOfBounds))
    } else if waits_for_key(s) {
        (s, Ok(false))
    } else {
        match execute(State { pc: (s.pc + 2) as u16, ..s }, fetch(s), random) {
            Ok(t) => (tick(t), Ok(t.sound_timer == 1)),
            Err(f) => (s, Err(f)),
        }
    }
}

} // verus!
