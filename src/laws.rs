//! Properties of the machine that relate several steps or hold of every
//! state, proved over the model.
use vstd::prelude::*;
use crate::instr::{Chip8Instr, decode_spec};
use crate::model::{
    MachineView, Request, Fault, cycle_spec, step_spec, proceed, skip, addr_add, word_at, draw_spec, collision,
    covers, on_screen, sprite_pixel, blank_display, DISPLAY_WIDTH, DISPLAY_HEIGHT, RAM_SIZE, NUM_REGS, VF,
};
use crate::timers::{Timers, saturating_dec};

verus! {

/// A call followed at once by a return leaves the machine exactly as it was
/// before the call: same program counter, same stack, nothing else touched.
pub proof fn lemma_call_then_return(m: MachineView, t: Timers, a: u16, r1: u8, r2: u8, at1: u16, at2: u16)
    ensures
        ({
            let first = step_spec(m, t, Chip8Instr::Call(a), r1, at1);
            step_spec(first.machine, first.timers, Chip8Instr::Return, r2, at2) == proceed(m, t)
        }),
{
    let first = step_spec(m, t, Chip8Instr::Call(a), r1, at1);
    assert(first.machine.stack.drop_last() =~= m.stack);
}

/// Over whole cycles: when the word at the program counter is a call whose
/// target holds a return, two cycles bring the program counter to the
/// instruction right after the call (wrapping at the top of the 12-bit
/// address space), and leave everything else as it was.
pub proof fn lemma_call_return_cycles(m: MachineView, t: Timers, r1: u8, r2: u8)
    requires
        m.wf(),
        m.pc + 1 < RAM_SIZE,
        decode_spec(word_at(m.ram, m.pc as int)) is Call,
        ({
            let a = decode_spec(word_at(m.ram, m.pc as int))->Call_0;
            a + 1 < RAM_SIZE && decode_spec(word_at(m.ram, a as int)) is Return
        }),
    ensures
        ({
            let first = cycle_spec(m, t, r1);
            let second = cycle_spec(first.machine, first.timers, r2);
            &&& first.result == Ok::<Request, Fault>(Request::Continue)
            &&& second.result == Ok::<Request, Fault>(Request::Continue)
            &&& second.machine == skip(m)
            &&& second.machine.pc == addr_add(m.pc, 2)
            &&& second.machine.stack == m.stack
            &&& second.timers == t
        }),
{
    let a = decode_spec(word_at(m.ram, m.pc as int))->Call_0;
    let first = cycle_spec(m, t, r1);
    assert(first.machine == (MachineView { pc: a, stack: m.stack.push(addr_add(m.pc, 2)), ..m }));
    assert(first.machine.stack.drop_last() =~= m.stack);
}

/// Drawing the same sprite twice at the same place gives back the display
/// as it was, and the second draw reports a collision exactly when the sprite
/// has a set bit on some pixel of the display that was off before the first.
pub proof fn lemma_draw_twice(d: Seq<Seq<bool>>, ram: Seq<u8>, i: int, x0: int, y0: int, n: int)
    requires
        d.len() == DISPLAY_HEIGHT,
        forall|y: int| 0 <= y < DISPLAY_HEIGHT ==> #[trigger] d[y].len() == DISPLAY_WIDTH,
    ensures
        draw_spec(draw_spec(d, ram, i, x0, y0, n), ram, i, x0, y0, n) == d,
        collision(draw_spec(d, ram, i, x0, y0, n), ram, i, x0, y0, n) == exists|x: int, y: int|
            on_screen(x, y) && covers(x0, y0, n, x, y) && !#[trigger] d[y][x] && sprite_pixel(ram, i, x0, y0, x, y),
{
    let d1 = draw_spec(d, ram, i, x0, y0, n);
    let d2 = draw_spec(d1, ram, i, x0, y0, n);
    assert forall|y: int| 0 <= y < DISPLAY_HEIGHT implies #[trigger] d2[y] =~= d[y] by {}
    assert(d2 =~= d);
    if collision(d1, ram, i, x0, y0, n) {
        let (x, y) = choose|x: int, y: int|
            on_screen(x, y) && covers(x0, y0, n, x, y) && #[trigger] d1[y][x] && sprite_pixel(ram, i, x0, y0, x, y);
        assert(on_screen(x, y) && covers(x0, y0, n, x, y) && !d[y][x] && sprite_pixel(ram, i, x0, y0, x, y));
    }
    if exists|x: int, y: int| on_screen(x, y) && covers(x0, y0, n, x, y) && !#[trigger] d[y][x] && sprite_pixel(ram, i, x0, y0, x, y) {
        let (x, y) = choose|x: int, y: int|
            on_screen(x, y) && covers(x0, y0, n, x, y) && !#[trigger] d[y][x] && sprite_pixel(ram, i, x0, y0, x, y);
        assert(d1[y][x]);
    }
}

/// Drawing a sprite twice on a blank display: the first draw turns off no
/// pixel, the second turns off one exactly when the sprite has a set bit on
/// the display, and the display is blank again.
pub proof fn lemma_draw_twice_on_blank(ram: Seq<u8>, i: int, x0: int, y0: int, n: int)
    ensures
        !collision(blank_display(), ram, i, x0, y0, n),
        collision(draw_spec(blank_display(), ram, i, x0, y0, n), ram, i, x0, y0, n) == exists|x: int, y: int|
            on_screen(x, y) && covers(x0, y0, n, x, y) && #[trigger] sprite_pixel(ram, i, x0, y0, x, y),
        draw_spec(draw_spec(blank_display(), ram, i, x0, y0, n), ram, i, x0, y0, n) == blank_display(),
{
    let d = blank_display();
    lemma_draw_twice(d, ram, i, x0, y0, n);
    if exists|x: int, y: int| on_screen(x, y) && covers(x0, y0, n, x, y) && #[trigger] sprite_pixel(ram, i, x0, y0, x, y) {
        let (x, y) = choose|x: int, y: int| on_screen(x, y) && covers(x0, y0, n, x, y) && #[trigger] sprite_pixel(ram, i, x0, y0, x, y);
        assert(!d[y][x]);
    }
    if exists|x: int, y: int|
        on_screen(x, y) && covers(x0, y0, n, x, y) && !#[trigger] d[y][x] && sprite_pixel(ram, i, x0, y0, x, y) {
        let (x, y) = choose|x: int, y: int|
            on_screen(x, y) && covers(x0, y0, n, x, y) && !#[trigger] d[y][x] && sprite_pixel(ram, i, x0, y0, x, y);
        assert(sprite_pixel(ram, i, x0, y0, x, y));
    }
}

/// Drawing clips: the display keeps its size, every pixel outside the sprite's
/// box is left as it was (in particular the columns at the left edge, where a
/// sprite running past the right edge would wrap to), and a collision is only
/// ever found on a pixel inside both the display and the box.
pub proof fn lemma_draw_clips(d: Seq<Seq<bool>>, ram: Seq<u8>, i: int, x0: int, y0: int, n: int)
    requires
        d.len() == DISPLAY_HEIGHT,
        forall|y: int| 0 <= y < DISPLAY_HEIGHT ==> #[trigger] d[y].len() == DISPLAY_WIDTH,
        0 <= x0 < DISPLAY_WIDTH,
        0 <= y0 < DISPLAY_HEIGHT,
    ensures
        draw_spec(d, ram, i, x0, y0, n).len() == DISPLAY_HEIGHT,
        forall|y: int|
            0 <= y < DISPLAY_HEIGHT ==> #[trigger] draw_spec(d, ram, i, x0, y0, n)[y].len() == DISPLAY_WIDTH,
        forall|x: int, y: int|
            on_screen(x, y) && !covers(x0, y0, n, x, y) ==> #[trigger] draw_spec(d, ram, i, x0, y0, n)[y][x] == d[y][x],
        forall|x: int, y: int| on_screen(x, y) && x < x0 ==> #[trigger] draw_spec(d, ram, i, x0, y0, n)[y][x] == d[y][x],
        collision(d, ram, i, x0, y0, n) ==> exists|x: int, y: int|
            0 <= x < DISPLAY_WIDTH && x0 <= x && 0 <= y < DISPLAY_HEIGHT && y0 <= y && #[trigger] d[y][x]
                && sprite_pixel(ram, i, x0, y0, x, y),
{
    if collision(d, ram, i, x0, y0, n) {
        let (x, y) = choose|x: int, y: int|
            on_screen(x, y) && covers(x0, y0, n, x, y) && #[trigger] d[y][x] && sprite_pixel(ram, i, x0, y0, x, y);
        assert(0 <= x < DISPLAY_WIDTH && x0 <= x && 0 <= y < DISPLAY_HEIGHT && y0 <= y && d[y][x]
            && sprite_pixel(ram, i, x0, y0, x, y));
    }
}

/// Add with carry: `Vx` becomes the sum modulo 256 and the flag register
/// 1 exactly when the sum overflowed; nothing else changes.
pub proof fn lemma_add_with_carry(m: MachineView, t: Timers, x: u8, y: u8, rnd: u8, at: u16)
    requires
        m.wf(),
        x < NUM_REGS,
        y < NUM_REGS,
        x != VF,
    ensures
        ({
            let o = step_spec(m, t, Chip8Instr::ArithmOp(x, y, 4), rnd, at);
            let s = m.v[x as int] + m.v[y as int];
            &&& o.result == Ok::<Request, Fault>(Request::Continue)
            &&& o.timers == t
            &&& o.machine.v[x as int] == (s % 256) as u8
            &&& o.machine.v[VF as int] == if s > 255 { 1u8 } else { 0u8 }
            &&& forall|k: int| 0 <= k < NUM_REGS && k != x && k != VF ==> #[trigger] o.machine.v[k] == m.v[k]
            &&& o.machine == (MachineView { v: o.machine.v, ..m })
        }),
{
}

/// Subtraction in either operand order: `Vx` becomes the difference modulo
/// 256 and the flag register 1 exactly when no borrow occurred; nothing else
/// changes.
pub proof fn lemma_subtract_with_borrow(m: MachineView, t: Timers, x: u8, y: u8, op: u8, rnd: u8, at: u16)
    requires
        m.wf(),
        x < NUM_REGS,
        y < NUM_REGS,
        x != VF,
        op == 5 || op == 7,
    ensures
        ({
            let o = step_spec(m, t, Chip8Instr::ArithmOp(x, y, op), rnd, at);
            let (a, b) = if op == 5 { (m.v[x as int], m.v[y as int]) } else { (m.v[y as int], m.v[x as int]) };
            &&& o.result == Ok::<Request, Fault>(Request::Continue)
            &&& o.timers == t
            &&& o.machine.v[x as int] == ((a - b) % 256) as u8
            &&& o.machine.v[VF as int] == if a >= b { 1u8 } else { 0u8 }
            &&& forall|k: int| 0 <= k < NUM_REGS && k != x && k != VF ==> #[trigger] o.machine.v[k] == m.v[k]
            &&& o.machine == (MachineView { v: o.machine.v, ..m })
        }),
{
}

/// Shifts: the source (`Vy` under the copying quirk, else `Vx`) shifted by
/// one bit lands in `Vx`, and the bit shifted out in the flag register;
/// nothing else changes.
pub proof fn lemma_shift(m: MachineView, t: Timers, x: u8, y: u8, op: u8, rnd: u8, at: u16)
    requires
        m.wf(),
        x < NUM_REGS,
        y < NUM_REGS,
        x != VF,
        op == 6 || op == 0xE,
    ensures
        ({
            let o = step_spec(m, t, Chip8Instr::ShiftOp(x, y, op), rnd, at);
            let s = if m.options.old_shift { m.v[y as int] } else { m.v[x as int] };
            &&& o.result == Ok::<Request, Fault>(Request::Continue)
            &&& o.timers == t
            &&& op == 6 ==> o.machine.v[x as int] == s / 2 && o.machine.v[VF as int] == s % 2
            &&& op == 0xE ==> o.machine.v[x as int] == (s * 2) % 256 && o.machine.v[VF as int] == s / 128
            &&& forall|k: int| 0 <= k < NUM_REGS && k != x && k != VF ==> #[trigger] o.machine.v[k] == m.v[k]
            &&& o.machine == (MachineView { v: o.machine.v, ..m })
        }),
{
}

/// A one-row sprite of `0xFF` drawn where all eight columns fit: each of the
/// eight pixels flips, every other pixel stays, and a collision is reported
/// exactly when one of the eight was lit.
pub proof fn lemma_full_row_draw(d: Seq<Seq<bool>>, ram: Seq<u8>, i: int, x0: int, y0: int)
    requires
        d.len() == DISPLAY_HEIGHT,
        forall|y: int| 0 <= y < DISPLAY_HEIGHT ==> #[trigger] d[y].len() == DISPLAY_WIDTH,
        0 <= i < ram.len(),
        ram[i] == 0xFF,
        0 <= x0 && x0 + 8 <= DISPLAY_WIDTH,
        0 <= y0 < DISPLAY_HEIGHT,
    ensures
        forall|c: int| 0 <= c < 8 ==> #[trigger] draw_spec(d, ram, i, x0, y0, 1)[y0][x0 + c] == !d[y0][x0 + c],
        forall|x: int, y: int|
            on_screen(x, y) && !(y == y0 && x0 <= x < x0 + 8) ==> #[trigger] draw_spec(d, ram, i, x0, y0, 1)[y][x]
                == d[y][x],
        collision(d, ram, i, x0, y0, 1) == exists|c: int| 0 <= c < 8 && #[trigger] d[y0][x0 + c],
{
    assert forall|c: int| 0 <= c < 8 implies #[trigger] sprite_pixel(ram, i, x0, y0, x0 + c, y0) by {
        let k = (7 - c) as u8;
        assert(k < 8);
        assert((0xFFu8 >> k) & 1u8 == 1u8) by (bit_vector)
            requires k < 8;
    }
    if collision(d, ram, i, x0, y0, 1) {
        let (x, y) = choose|x: int, y: int|
            on_screen(x, y) && covers(x0, y0, 1, x, y) && #[trigger] d[y][x] && sprite_pixel(ram, i, x0, y0, x, y);
        assert(d[y0][x0 + (x - x0)]);
    }
    if exists|c: int| 0 <= c < 8 && #[trigger] d[y0][x0 + c] {
        let c = choose|c: int| 0 <= c < 8 && #[trigger] d[y0][x0 + c];
        assert(sprite_pixel(ram, i, x0, y0, x0 + c, y0));
        assert(on_screen(x0 + c, y0) && covers(x0, y0, 1, x0 + c, y0));
    }
}

/// A counter never goes below zero: a tick on zero leaves zero, a tick on
/// anything else takes exactly one off.
pub proof fn lemma_timer_saturates(t: Timers)
    ensures
        t.delay == 0 ==> saturating_dec(t.delay) == 0,
        t.buzzer == 0 ==> saturating_dec(t.buzzer) == 0,
        t.delay > 0 ==> saturating_dec(t.delay) == t.delay - 1,
        t.buzzer > 0 ==> saturating_dec(t.buzzer) == t.buzzer - 1,
{
}

} // verus!
