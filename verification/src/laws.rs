//! Laws of the instruction set, each proved from the model of one cycle.

use crate::display::{collides, lemma_draw_twice_restores, sprite_of, sprite_pixel};
use crate::model::{
    address, draw_op, draws_random, execute, family, fetch, highest_pressed, low_byte, low_nibble, reg_x,
    reg_y, step, tick, waits_for_key, Fault, State,
};
use vstd::prelude::*;

verus! {

/// Whether the cycle from `s` executes an instruction of the family `f`.
pub open spec fn runs(s: State, f: int) -> bool {
    s.wf() && s.pc <= 4094 && family(fetch(s)) == f
}

/// A cycle on `8XY4` leaves 1 in VF where the sum of VX and VY exceeds 255 and
/// 0 where it does not, whichever registers X and Y are; where X is not F, VX
/// holds the sum modulo 256.
pub proof fn lemma_add_sets_carry(s: State, random: u8)
    requires
        runs(s, 8),
        low_nibble(fetch(s)) == 4,
    ensures
        step(s, random).1 is Ok,
        step(s, random).0.v[15] == (if s.v[reg_x(fetch(s))] + s.v[reg_y(fetch(s))] > 255 {
            1u8
        } else {
            0u8
        }),
        reg_x(fetch(s)) != 15 ==> step(s, random).0.v[reg_x(fetch(s))] == (s.v[reg_x(fetch(s))]
            + s.v[reg_y(fetch(s))]) % 256,
{
}

/// A cycle on `8XY5` leaves 1 in VF where no borrow occurred, that is where VX
/// is at least VY, and 0 otherwise; where X is not F, VX holds VX - VY modulo
/// 256.
pub proof fn lemma_sub_sets_no_borrow(s: State, random: u8)
    requires
        runs(s, 8),
        low_nibble(fetch(s)) == 5,
    ensures
        step(s, random).1 is Ok,
        step(s, random).0.v[15] == (if s.v[reg_x(fetch(s))] >= s.v[reg_y(fetch(s))] {
            1u8
        } else {
            0u8
        }),
        reg_x(fetch(s)) != 15 ==> step(s, random).0.v[reg_x(fetch(s))] == (s.v[reg_x(fetch(s))]
            - s.v[reg_y(fetch(s))]) % 256,
{
}

/// A cycle on `8XY7` leaves 1 in VF where no borrow occurred, that is where VY
/// is at least VX, and 0 otherwise; where X is not F, VX holds VY - VX modulo
/// 256.
pub proof fn lemma_reverse_sub_sets_no_borrow(s: State, random: u8)
    requires
        runs(s, 8),
        low_nibble(fetch(s)) == 7,
    ensures
        step(s, random).1 is Ok,
        step(s, random).0.v[15] == (if s.v[reg_y(fetch(s))] >= s.v[reg_x(fetch(s))] {
            1u8
        } else {
            0u8
        }),
        reg_x(fetch(s)) != 15 ==> step(s, random).0.v[reg_x(fetch(s))] == (s.v[reg_y(fetch(s))]
            - s.v[reg_x(fetch(s))]) % 256,
{
}

/// `FX55` writes V0 to VX, X included, to the memory from I on, changes no
/// other byte, and leaves I higher by X + 1.
pub proof fn lemma_store_range(s: State, instr: u16, random: u8)
    requires
        s.wf(),
        family(instr) == 15,
        low_byte(instr) == 0x55,
        s.i_reg + reg_x(instr) <= 4095,
    ensures
        execute(s, instr, random) is Ok,
        execute(s, instr, random)->Ok_0.i_reg == s.i_reg + reg_x(instr) + 1,
        execute(s, instr, random)->Ok_0.v == s.v,
        forall|k: int|
            0 <= k <= reg_x(instr) ==> execute(s, instr, random)->Ok_0.memory[s.i_reg + k]
                == s.v[k],
        forall|m: int|
            0 <= m < 4096 && !(s.i_reg <= m <= s.i_reg + reg_x(instr)) ==> execute(
                s,
                instr,
                random,
            )->Ok_0.memory[m] == s.memory[m],
{
}

/// `FX65` reads V0 to VX, X included, from the memory from I on, changes no
/// other register, and leaves I higher by X + 1.
pub proof fn lemma_load_range(s: State, instr: u16, random: u8)
    requires
        s.wf(),
        family(instr) == 15,
        low_byte(instr) == 0x65,
        s.i_reg + reg_x(instr) <= 4095,
    ensures
        execute(s, instr, random) is Ok,
        execute(s, instr, random)->Ok_0.i_reg == s.i_reg + reg_x(instr) + 1,
        execute(s, instr, random)->Ok_0.memory == s.memory,
        forall|k: int|
            0 <= k <= reg_x(instr) ==> execute(s, instr, random)->Ok_0.v[k] == s.memory[s.i_reg
                + k],
        forall|k: int|
            reg_x(instr) < k < 16 ==> execute(s, instr, random)->Ok_0.v[k] == s.v[k],
{
}

/// Storing V0 to VX with `FX55` and then, with I set back and the registers
/// replaced by `fresh` ones, loading them with `FX65` gives V0 to VX their
/// values from before the store, and leaves the registers above VX as `fresh`
/// has them.
pub proof fn lemma_store_then_load(s: State, store: u16, load: u16, fresh: Seq<u8>, random: u8)
    requires
        s.wf(),
        fresh.len() == 16,
        family(store) == 15,
        low_byte(store) == 0x55,
        family(load) == 15,
        low_byte(load) == 0x65,
        reg_x(store) == reg_x(load),
        s.i_reg + reg_x(store) <= 4095,
    ensures
        execute(s, store, random) is Ok,
        execute(
            State { v: fresh, i_reg: s.i_reg, ..execute(s, store, random)->Ok_0 },
            load,
            random,
        ) is Ok,
        forall|k: int|
            0 <= k <= reg_x(store) ==> execute(
                State { v: fresh, i_reg: s.i_reg, ..execute(s, store, random)->Ok_0 },
                load,
                random,
            )->Ok_0.v[k] == s.v[k],
        forall|k: int|
            reg_x(store) < k < 16 ==> execute(
                State { v: fresh, i_reg: s.i_reg, ..execute(s, store, random)->Ok_0 },
                load,
                random,
            )->Ok_0.v[k] == fresh[k],
        execute(
            State { v: fresh, i_reg: s.i_reg, ..execute(s, store, random)->Ok_0 },
            load,
            random,
        )->Ok_0.i_reg == s.i_reg + reg_x(store) + 1,
{
    lemma_store_range(s, store, random);
    let t = State { v: fresh, i_reg: s.i_reg, ..execute(s, store, random)->Ok_0 };
    lemma_load_range(t, load, random);
}

/// Two `DXYN` in a row, with the registers and the sprite's bytes untouched in
/// between, leave the display as it was before the first.
pub proof fn lemma_draw_instruction_twice(s: State, instr: u16)
    requires
        s.wf(),
        draw_op(s, instr) is Ok,
    ensures
        draw_op(draw_op(s, instr)->Ok_0, instr) is Ok,
        draw_op(draw_op(s, instr)->Ok_0, instr)->Ok_0.gfx == s.gfx,
{
    let n = low_nibble(instr);
    let cleared = s.v.update(15, 0u8);
    let sprite = sprite_of(s.memory, s.i_reg as int, n, cleared[reg_x(instr)], cleared[reg_y(instr)]);
    let t = draw_op(s, instr)->Ok_0;
    assert(t.v.update(15, 0u8) =~= cleared);
    lemma_draw_twice_restores(s.gfx, sprite);
}

/// After `DXYN`, VF is 1 where some bit `j` of some sprite row `i` is set and
/// lands on a pixel that was set before the draw, and 0 where there is none.
pub proof fn lemma_draw_flag_is_collision(s: State, instr: u16)
    requires
        s.wf(),
        draw_op(s, instr) is Ok,
    ensures
        draw_op(s, instr)->Ok_0.v[15] <= 1,
        draw_op(s, instr)->Ok_0.v[15] == 1 <==> exists|i: int, j: int|
            0 <= i < low_nibble(instr) && 0 <= j < 8 && #[trigger] sprite_pixel(
                s.memory[s.i_reg + i],
                j,
            ) & s.gfx[(s.v.update(15, 0u8)[reg_y(instr)] + i) % 32][(s.v.update(
                15,
                0u8,
            )[reg_x(instr)] + j) % 64] == 1,
{
    let n = low_nibble(instr);
    let cleared = s.v.update(15, 0u8);
    let sprite = sprite_of(s.memory, s.i_reg as int, n, cleared[reg_x(instr)], cleared[reg_y(instr)]);
    if collides(s.gfx, sprite) {
        let (i, j) = choose|i: int, j: int|
            0 <= i < sprite.rows.len() && 0 <= j < 8 && #[trigger] sprite.hits(s.gfx, i, j);
        assert(sprite_pixel(s.memory[s.i_reg + i], j) & s.gfx[(cleared[reg_y(instr)] + i)
            % 32][(cleared[reg_x(instr)] + j) % 64] == 1);
    }
    if exists|i: int, j: int|
        0 <= i < n && 0 <= j < 8 && #[trigger] sprite_pixel(s.memory[s.i_reg + i], j)
            & s.gfx[(cleared[reg_y(instr)] + i) % 32][(cleared[reg_x(instr)] + j) % 64] == 1 {
        let (i, j) = choose|i: int, j: int|
            0 <= i < n && 0 <= j < 8 && #[trigger] sprite_pixel(s.memory[s.i_reg + i], j)
                & s.gfx[(cleared[reg_y(instr)] + i) % 32][(cleared[reg_x(instr)] + j) % 64] == 1;
        assert(sprite.hits(s.gfx, i, j));
    }
}

/// A cycle on a jump to its own address leaves the program counter where it
/// is.
pub proof fn lemma_jump_to_self_holds(s: State, random: u8)
    requires
        runs(s, 1),
        address(fetch(s)) == s.pc,
    ensures
        step(s, random).1 is Ok,
        step(s, random).0.pc == s.pc,
        step(s, random).0 == tick(s),
{
    assert(step(s, random).0 =~~= tick(s));
}

/// A cycle on `3XNN` moves the program counter four ahead where VX equals NN
/// and two ahead where it does not, and writes no register.
pub proof fn lemma_skip_if_equal(s: State, random: u8)
    requires
        runs(s, 3),
    ensures
        step(s, random).1 is Ok,
        step(s, random).0.v == s.v,
        step(s, random).0.pc == (if s.v[reg_x(fetch(s))] == low_byte(fetch(s)) {
            s.pc + 4
        } else {
            s.pc + 2
        }),
{
}

/// A cycle keeps the sizes of the memory, the registers, the stack, the keys
/// and the display.
pub proof fn lemma_step_keeps_sizes(s: State, random: u8)
    requires
        s.wf(),
    ensures
        step(s, random).0.wf(),
{
}

/// A cycle that ends in a fault leaves the state as it was.
pub proof fn lemma_fault_changes_nothing(s: State, random: u8)
    requires
        step(s, random).1 is Err,
    ensures
        step(s, random).0 == s,
{
}

/// Only `CXNN` reads the random byte: a cycle on any other instruction comes
/// out the same for every byte.
pub proof fn lemma_random_only_for_cxnn(s: State, one: u8, other: u8)
    requires
        !draws_random(s),
    ensures
        step(s, one) == step(s, other),
{
}

/// The key that `FX0A` reports is the last one that a scan from key 0 to key
/// F finds pressed: it is pressed and none above it is. Where it reports
/// none, no key is pressed.
pub proof fn lemma_highest_pressed_is_last(keys: Seq<bool>, n: int)
    requires
        0 <= n <= keys.len(),
    ensures
        -1 <= highest_pressed(keys, n) < n,
        highest_pressed(keys, n) >= 0 ==> keys[highest_pressed(keys, n)],
        forall|j: int| highest_pressed(keys, n) < j < n ==> !keys[j],
    decreases n,
{
    if n > 0 && !keys[n - 1] {
        lemma_highest_pressed_is_last(keys, n - 1);
    }
}

/// `FX33` writes three decimal digits that spell VX, hundreds first.
pub proof fn lemma_decimal_digits(s: State, instr: u16, random: u8)
    requires
        s.wf(),
        family(instr) == 15,
        low_byte(instr) == 0x33,
        s.i_reg + 2 <= 4095,
    ensures
        execute(s, instr, random) is Ok,
        execute(s, instr, random)->Ok_0.memory[s.i_reg as int] < 10,
        execute(s, instr, random)->Ok_0.memory[s.i_reg + 1] < 10,
        execute(s, instr, random)->Ok_0.memory[s.i_reg + 2] < 10,
        execute(s, instr, random)->Ok_0.memory[s.i_reg as int] * 100 + execute(
            s,
            instr,
            random,
        )->Ok_0.memory[s.i_reg + 1] * 10 + execute(s, instr, random)->Ok_0.memory[s.i_reg + 2]
            == s.v[reg_x(instr)],
{
}

/// A timer at zero stays at zero over a tick, and one above zero goes down by
/// exactly one: no tick wraps a timer round.
pub proof fn lemma_timers_never_underflow(s: State)
    ensures
        s.delay_timer == 0 ==> tick(s).delay_timer == 0,
        s.sound_timer == 0 ==> tick(s).sound_timer == 0,
        s.delay_timer > 0 ==> tick(s).delay_timer == s.delay_timer - 1,
        s.sound_timer > 0 ==> tick(s).sound_timer == s.sound_timer - 1,
{
}

/// The state after one cycle for each byte of `randoms`, in their order.
pub open spec fn after_cycles(s: State, randoms: Seq<u8>) -> State
    decreases randoms.len(),
{
    if randoms.len() == 0 {
        s
    } else {
        step(after_cycles(s, randoms.drop_last()), randoms.last()).0
    }
}

/// While the machine stands at `FX0A` and no key is pressed, any number of
/// cycles leaves the state, and so the program counter and the timers, as it
/// was, and each of them succeeds without a beep.
pub proof fn lemma_key_wait_holds(s: State, randoms: Seq<u8>)
    requires
        waits_for_key(s),
    ensures
        after_cycles(s, randoms) == s,
        forall|random: u8| step(s, random) == (s, Ok::<bool, Fault>(false)),
    decreases randoms.len(),
{
    if randoms.len() > 0 {
        lemma_key_wait_holds(s, randoms.drop_last());
    }
}

} // verus!
