use vstd::prelude::*;

use crate::model::{
    blank_display, clip, draw, drawn_row, load_regs, row_collides, store_regs, execute_op, first_pressed, op_family, op_n, op_nn, op_x, op_y, sprite_pixel,
    step_machine, tick, Chip8Implementation, MachineState, HEIGHT, LAST_ADDRESS, REGISTER_COUNT,
    WIDTH,
};

verus! {

/// Instructions that set PC themselves: jumps, calls, returns, the
/// conditional skips, and FX0A, which may re-run itself.
pub open spec fn controls_flow(op: u16) -> bool {
    let family = op_family(op);
    ||| family == 0x1
    ||| family == 0x2
    ||| family == 0xB
    ||| op == 0x00EE
    ||| family == 0x3
    ||| family == 0x4
    ||| family == 0x5
    ||| family == 0x9
    ||| family == 0xE
    ||| (family == 0xF && op_nn(op) == 0x0A)
}

/// Instructions that leave a flag in VF: 8XY4, 8XY5, 8XY6, 8XY7, 8XYE and DXYN.
pub open spec fn sets_flag(op: u16) -> bool {
    let family = op_family(op);
    let n = op_n(op);
    ||| (family == 0x8 && (n == 0x4 || n == 0x5 || n == 0x6 || n == 0x7 || n == 0xE))
    ||| family == 0xD
}

/// A machine that is ready to run the instruction at PC.
pub open spec fn runnable(s: MachineState) -> bool {
    &&& s.valid()
    &&& s.fault is None
    &&& s.pc + 1 <= LAST_ADDRESS
}

/// Any instruction that does not set PC itself leaves PC two bytes further on.
pub proof fn lemma_pc_advances(s: MachineState, random: u8)
    requires
        runnable(s),
        !controls_flow(s.fetch()),
        step_machine(s, random).1 is Ok,
    ensures
        step_machine(s, random).0.pc == s.pc + 2,
{
}

/// Whenever VF receives a flag, it receives 0 or 1; FX1E either leaves VF
/// alone or sets it to 1.
pub proof fn lemma_flag_is_a_bit(s: MachineState, random: u8)
    requires
        runnable(s),
        step_machine(s, random).1 is Ok,
    ensures
        sets_flag(s.fetch()) ==> step_machine(s, random).0.v[0xF] <= 1,
        op_family(s.fetch()) == 0xF && op_nn(s.fetch()) == 0x1E ==> {
            let vf = step_machine(s, random).0.v[0xF];
            vf == s.v[0xF] || vf == 1
        },
{
}

/// The 8-bit arithmetic instructions store the exact result modulo 256
/// (for the two-register forms, unless the target is VF itself, which then
/// receives the flag).
pub proof fn lemma_arithmetic_wraps(s: MachineState, random: u8)
    requires
        runnable(s),
        step_machine(s, random).1 is Ok,
    ensures
        ({
            let op = s.fetch();
            let x = op_x(op) as int;
            let y = op_y(op) as int;
            let t = step_machine(s, random).0;
            &&& op_family(op) == 0x7 ==> t.v[x] == (s.v[x] + op_nn(op)) % 256
            &&& op_family(op) == 0x8 && op_n(op) == 0x4 && x != 0xF ==> t.v[x] == (s.v[x]
                + s.v[y]) % 256
            &&& op_family(op) == 0x8 && op_n(op) == 0x5 && x != 0xF ==> t.v[x] == (s.v[x]
                - s.v[y]) % 256
            &&& op_family(op) == 0x8 && op_n(op) == 0x7 && x != 0xF ==> t.v[x] == (s.v[y]
                - s.v[x]) % 256
        }),
{
}

/// 00E0 leaves every pixel dark.
pub proof fn lemma_clear_screen_is_blank(s: MachineState, random: u8)
    requires
        runnable(s),
        s.fetch() == 0x00E0,
    ensures
        step_machine(s, random).1 == Ok::<bool, crate::model::Fault>(true),
        step_machine(s, random).0.display == blank_display(),
        forall|y: int, x: int|
            0 <= y < HEIGHT && 0 <= x < WIDTH ==> !#[trigger] step_machine(s, random).0.display[y][x],
{
}

/// A sprite whose bytes are all zero changes no pixel and reports no collision.
pub proof fn lemma_blank_sprite_changes_nothing(s: MachineState, random: u8)
    requires
        runnable(s),
        op_family(s.fetch()) == 0xD,
        s.i + op_n(s.fetch()) <= LAST_ADDRESS + 1,
        forall|a: int| s.i <= a < s.i + op_n(s.fetch()) ==> #[trigger] s.memory[a] == 0,
    ensures
        step_machine(s, random).1 is Ok,
        step_machine(s, random).0.display == s.display,
        step_machine(s, random).0.v[0xF] == 0,
{
    let op = s.fetch();
    let t = s.with_pc(s.pc + 2);
    let x = op_x(op) as int;
    let y = op_y(op) as int;
    let n = op_n(op) as int;
    let x0 = (t.v[x] % 64) as int;
    let y0 = (t.v[y] % 32) as int;
    assert forall|c: int| 0 <= c < 8 implies !sprite_pixel(0u8, c) by {
        let k = (7 - c) as u8;
        assert((0u8 >> k) & 1u8 == 0u8) by (bit_vector);
    }
    assert(execute_op(t, op, random) == draw(t, x, y, n));
    let cols = clip(x0, 8, WIDTH as int);
    let rows = clip(y0, n, HEIGHT as int);
    assert forall|r: int| 0 <= r < rows implies #[trigger] t.memory[t.i + r] == 0u8 by {}
    assert forall|r: int| 0 <= r < rows implies !#[trigger] row_collides(
        t.display[y0 + r],
        x0,
        cols,
        t.memory[t.i + r],
    ) by {
        assert(t.memory[t.i + r] == 0u8);
    }
    let (u, res) = draw(t, x, y, n);
    assert forall|yy: int| 0 <= yy < HEIGHT implies #[trigger] u.display[yy] == s.display[yy] by {
        if y0 <= yy < y0 + rows {
            assert(t.memory[t.i + (yy - y0)] == 0u8);
            assert(drawn_row(s.display[yy], x0, cols, 0u8) =~= s.display[yy]);
        }
    }
    assert(u.display =~= s.display);
}

/// Storing V0..=VX with FX55 and loading them back with FX65 (same X) from
/// the same I gives back the registers; memory from I to I+X holds their values.
pub proof fn lemma_store_load_round_trip(s: MachineState, store: u16, load: u16, random: u8)
    requires
        s.valid(),
        s.pc >= 2,
        op_family(store) == 0xF,
        op_nn(store) == 0x55,
        op_family(load) == 0xF,
        op_nn(load) == 0x65,
        op_x(load) == op_x(store),
        s.i + op_x(store) <= LAST_ADDRESS,
    ensures
        ({
            let x = op_x(store) as int;
            let (stored, r1) = execute_op(s, store, random);
            let (loaded, r2) = execute_op(stored.with_i(s.i as int), load, random);
            &&& r1 is Ok
            &&& r2 is Ok
            &&& loaded.v == s.v
            &&& forall|k: int| 0 <= k <= x ==> #[trigger] stored.memory[s.i + k] == s.v[k]
        }),
{
    let x = op_x(store) as int;
    assert(execute_op(s, store, random) == store_regs(s, x));
    let (stored, r1) = execute_op(s, store, random);
    let back = stored.with_i(s.i as int);
    assert(execute_op(back, load, random) == load_regs(back, x));
    let (loaded, r2) = execute_op(back, load, random);
    assert forall|k: int| 0 <= k <= x implies #[trigger] stored.memory[s.i + k] == s.v[k] by {}
    assert(loaded.v =~= s.v);
}

/// A timer tick never raises a timer, and a timer at zero stays at zero.
pub proof fn lemma_tick_never_increases(t: u8)
    ensures
        tick(t) <= t,
        t == 0 ==> tick(t) == 0,
{
}

proof fn lemma_no_key_found(keys: Seq<bool>, k: int)
    requires
        0 <= k <= REGISTER_COUNT,
        forall|j: int| k <= j < REGISTER_COUNT ==> !#[trigger] keys[j],
    ensures
        first_pressed(keys, k) == REGISTER_COUNT,
    decreases REGISTER_COUNT - k,
{
    if k < REGISTER_COUNT {
        lemma_no_key_found(keys, k + 1);
    }
}

/// While no key is held, FX0A leaves the whole machine as it was, so every
/// further step repeats it.
pub proof fn lemma_wait_key_is_fixed_point(s: MachineState, random: u8)
    requires
        runnable(s),
        op_family(s.fetch()) == 0xF,
        op_nn(s.fetch()) == 0x0A,
        forall|k: int| 0 <= k < REGISTER_COUNT ==> !#[trigger] s.keys[k],
    ensures
        step_machine(s, random) == (s, Ok::<bool, crate::model::Fault>(false)),
{
    lemma_no_key_found(s.keys, 0);
    assert(step_machine(s, random).0 =~= s);
}

/// DXYN never wraps: pixels left of or above the start, and those past the
/// sprite's eight columns or N rows, keep their value.
pub proof fn lemma_draw_never_wraps(s: MachineState, x: int, y: int, n: int)
    requires
        s.valid(),
        0 <= x < REGISTER_COUNT,
        0 <= y < REGISTER_COUNT,
        0 <= n < 16,
        draw(s, x, y, n).1 is Ok,
    ensures
        forall|yy: int, xx: int|
            0 <= yy < HEIGHT && 0 <= xx < WIDTH && (xx < s.v[x] % 64 || xx >= s.v[x] % 64 + 8
                || yy < s.v[y] % 32 || yy >= s.v[y] % 32 + n) ==> #[trigger] draw(
                s,
                x,
                y,
                n,
            ).0.display[yy][xx] == s.display[yy][xx],
{
}

} // verus!
