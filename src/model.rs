//! The machine as the contracts see it: its state, and what one instruction
//! does to that state.
use vstd::prelude::*;
use crate::instr::{Chip8Instr, decode_spec};
use crate::timers::Timers;

verus! {

/// Bytes of addressable memory.
pub const RAM_SIZE: usize = 4096;
/// Address where a program is loaded, and where execution starts.
pub const RAM_ROM_START: usize = 0x200;
/// Bytes of font data: sixteen glyphs of five rows each.
pub const FONT_SIZE: usize = 80;
/// Address of the first font glyph.
pub const FONT_START: usize = 0x50;
/// Pixels in one display row.
pub const DISPLAY_WIDTH: usize = 64;
/// Rows of the display.
pub const DISPLAY_HEIGHT: usize = 32;
/// Default instruction rate, in hertz.
pub const FREQ: u32 = 700;
/// Number of general-purpose registers; the last one doubles as the flag.
pub const NUM_REGS: usize = 16;
/// The flag register.
pub const VF: u8 = 15;
/// Program counter and index register are 12-bit: their values stay below this.
pub const ADDR_LIMIT: u16 = 0x1000;

/// Boot-time toggles. The first four concern how a host shows the machine;
/// the last three select among historical behaviours of ambiguous opcodes.
#[derive(Debug, Clone, Copy, PartialEq, Eq, Structural)]
pub struct Chip8VMOptions {
    /// Do not ask the host to render after a clear or a draw.
    pub hide_display: bool,
    /// Host-side tracing of every cycle.
    pub debug: bool,
    /// Host-side dump of memory with the trace.
    pub debug_ram: bool,
    /// Host-side: do not clear the terminal between frames.
    pub keep_display: bool,
    /// Block save and load advance the index register past the block.
    pub incr_i_when_mem: bool,
    /// Jump-with-offset adds the register named by the target's high nibble
    /// instead of register 0.
    pub new_jump_off: bool,
    /// Shifts first copy the source register into the destination.
    pub old_shift: bool,
}

/// Every toggle off.
pub open spec fn default_options() -> Chip8VMOptions {
    Chip8VMOptions {
        hide_display: false,
        debug: false,
        debug_ram: false,
        keep_display: false,
        incr_i_when_mem: false,
        new_jump_off: false,
        old_shift: false,
    }
}

impl Default for Chip8VMOptions {
    fn default() -> (r: Chip8VMOptions)
        ensures
            r == default_options(),
    {
        Chip8VMOptions {
            hide_display: false,
            debug: false,
            debug_ram: false,
            keep_display: false,
            incr_i_when_mem: false,
            new_jump_off: false,
            old_shift: false,
        }
    }
}

/// The built-in glyphs for the hexadecimal digits 0 to F.
pub open spec fn default_font_spec() -> Seq<u8> {
    seq![
        0xF0u8, 0x90, 0x90, 0x90, 0xF0, 0x20, 0x60, 0x20, 0x20, 0x70,
        0xF0, 0x10, 0xF0, 0x80, 0xF0, 0xF0, 0x10, 0xF0, 0x10, 0xF0,
        0x90, 0x90, 0xF0, 0x10, 0x10, 0xF0, 0x80, 0xF0, 0x10, 0xF0,
        0xF0, 0x80, 0xF0, 0x90, 0xF0, 0xF0, 0x10, 0x20, 0x40, 0x40,
        0xF0, 0x90, 0xF0, 0x90, 0xF0, 0xF0, 0x90, 0xF0, 0x10, 0xF0,
        0xF0, 0x90, 0xF0, 0x90, 0x90, 0xE0, 0x90, 0xE0, 0x90, 0xE0,
        0xF0, 0x80, 0x80, 0x80, 0xF0, 0xE0, 0x90, 0x90, 0x90, 0xE0,
        0xF0, 0x80, 0xF0, 0x80, 0xF0, 0xF0, 0x80, 0xF0, 0x80, 0x80,
    ]
}

/// Memory at power-on: zero everywhere but the font region.
pub open spec fn initial_ram(font: Seq<u8>) -> Seq<u8> {
    Seq::new(
        RAM_SIZE as nat,
        |a: int|
            if FONT_START <= a < FONT_START + FONT_SIZE {
                font[a - FONT_START]
            } else {
                0u8
            },
    )
}

/// A display with every pixel off.
pub open spec fn blank_display() -> Seq<Seq<bool>> {
    Seq::new(DISPLAY_HEIGHT as nat, |y: int| Seq::new(DISPLAY_WIDTH as nat, |x: int| false))
}

/// The state of a machine as the contracts see it.
pub struct MachineView {
    pub ram: Seq<u8>,
    /// Rows of pixels, top row first.
    pub display: Seq<Seq<bool>>,
    /// The sixteen general-purpose registers.
    pub v: Seq<u8>,
    pub pc: u16,
    pub i: u16,
    /// Return addresses, innermost call last.
    pub stack: Seq<u16>,
    /// Instruction rate, in hertz.
    pub freq: u32,
    pub options: Chip8VMOptions,
}

impl MachineView {
    /// The sizes of every part, and the 12-bit registers within range.
    pub open spec fn wf(self) -> bool {
        &&& self.ram.len() == RAM_SIZE
        &&& self.display.len() == DISPLAY_HEIGHT
        &&& forall|y: int| 0 <= y < DISPLAY_HEIGHT ==> #[trigger] self.display[y].len() == DISPLAY_WIDTH
        &&& self.v.len() == NUM_REGS
        &&& self.pc < ADDR_LIMIT
        &&& self.i < ADDR_LIMIT
        &&& forall|k: int| 0 <= k < self.stack.len() ==> #[trigger] self.stack[k] < ADDR_LIMIT
    }
}

/// Whether a program of `len` bytes fits in memory after the load address.
pub open spec fn fits(len: nat) -> bool {
    len <= RAM_SIZE - RAM_ROM_START
}

/// Memory after loading `rom` at the load address.
pub open spec fn loaded(ram: Seq<u8>, rom: Seq<u8>) -> Seq<u8> {
    Seq::new(
        ram.len(),
        |a: int|
            if RAM_ROM_START <= a < RAM_ROM_START + rom.len() {
                rom[a - RAM_ROM_START]
            } else {
                ram[a]
            },
    )
}

/// The opcode word stored big-endian at `pc` and `pc + 1`.
pub open spec fn word_at(ram: Seq<u8>, pc: int) -> u16 {
    (ram[pc] as int * 256 + ram[pc + 1] as int) as u16
}

/// A 12-bit address moved on by `k`, wrapping.
pub open spec fn addr_add(a: u16, k: int) -> u16 {
    ((a as int + k) % (ADDR_LIMIT as int)) as u16
}

/// Address of the glyph for the low nibble of `c`.
pub open spec fn glyph_addr(c: u8) -> u16 {
    (FONT_START + 5 * (c % 16)) as u16
}

/// Why a program was refused before it could run.
#[derive(Debug, Clone, Copy, PartialEq, Eq, Structural)]
pub enum LoadError {
    /// The program is `len` bytes long, and only `available` bytes fit.
    TooBig { len: usize, available: usize },
}

/// What the host is asked to do once an instruction has run.
#[derive(Debug, Clone, Copy, PartialEq, Eq, Structural)]
pub enum Request {
    /// Nothing: go on with the next cycle.
    Continue,
    /// The display changed: hand it to the rendering sink.
    Render,
    /// Wait for a key and pass it to `provide_key` with this register.
    ReadKey(u8),
}

/// A fatal stop: the guest program cannot go on. `pc` is the address of the
/// instruction that failed (for a failed fetch, the address fetched from).
#[derive(Debug, Clone, Copy, PartialEq, Eq, Structural)]
pub enum Fault {
    /// A return with no call to return from.
    EmptyStack { pc: u16 },
    /// An opcode with no meaning here, or one this interpreter does not run.
    Unsupported { instr: Chip8Instr, pc: u16 },
    /// An access to memory at `addr`, past its end.
    OutOfBounds { pc: u16, addr: usize },
}

/// The machine, the counters and the result after one step.
pub struct Outcome {
    pub machine: MachineView,
    pub timers: Timers,
    pub result: Result<Request, Fault>,
}

/// What a clear or a draw asks of the host.
pub open spec fn render_request(o: Chip8VMOptions) -> Request {
    if o.hide_display { Request::Continue } else { Request::Render }
}

/// The machine with register `r` set to `val`.
pub open spec fn set_v(m: MachineView, r: int, val: u8) -> MachineView {
    MachineView { v: m.v.update(r, val), ..m }
}

/// The program counter moved past one more instruction.
pub open spec fn skip(m: MachineView) -> MachineView {
    MachineView { pc: addr_add(m.pc, 2), ..m }
}

/// A step that went on normally.
pub open spec fn proceed(m: MachineView, t: Timers) -> Outcome {
    Outcome { machine: m, timers: t, result: Ok(Request::Continue) }
}

/// A step that stopped with a fault, leaving everything as it was.
pub open spec fn stop(m: MachineView, t: Timers, f: Fault) -> Outcome {
    Outcome { machine: m, timers: t, result: Err(f) }
}

/// Bit `c` of a sprite row, counting from the leftmost (most significant) bit.
pub open spec fn sprite_bit(b: u8, c: int) -> bool {
    (b >> ((7 - c) as u8)) & 1u8 == 1u8
}

/// Whether pixel `(x, y)` lies under a sprite of `n` rows drawn at `(x0, y0)`.
pub open spec fn covers(x0: int, y0: int, n: int, x: int, y: int) -> bool {
    x0 <= x < x0 + 8 && y0 <= y < y0 + n
}

/// The sprite's bit for pixel `(x, y)`, its rows read from memory at `i`.
pub open spec fn sprite_pixel(ram: Seq<u8>, i: int, x0: int, y0: int, x: int, y: int) -> bool {
    sprite_bit(ram[i + (y - y0)], x - x0)
}

/// Whether `(x, y)` is a pixel of the display.
pub open spec fn on_screen(x: int, y: int) -> bool {
    0 <= x < DISPLAY_WIDTH && 0 <= y < DISPLAY_HEIGHT
}

/// The display after drawing: every covered pixel XORed with its sprite bit,
/// every other pixel (those past the right or bottom edge included) as it was.
pub open spec fn draw_spec(d: Seq<Seq<bool>>, ram: Seq<u8>, i: int, x0: int, y0: int, n: int) -> Seq<Seq<bool>> {
    Seq::new(
        d.len(),
        |y: int|
            Seq::new(
                d[y].len(),
                |x: int|
                    if covers(x0, y0, n, x, y) {
                        d[y][x] != sprite_pixel(ram, i, x0, y0, x, y)
                    } else {
                        d[y][x]
                    },
            ),
    )
}

/// Whether drawing turns off a lit pixel of the display.
pub open spec fn collision(d: Seq<Seq<bool>>, ram: Seq<u8>, i: int, x0: int, y0: int, n: int) -> bool {
    exists|x: int, y: int|
        on_screen(x, y) && covers(x0, y0, n, x, y) && #[trigger] d[y][x] && sprite_pixel(ram, i, x0, y0, x, y)
}

/// Memory with registers `V0..=Vx` stored from address `i` on.
pub open spec fn saved(ram: Seq<u8>, v: Seq<u8>, i: int, x: int) -> Seq<u8> {
    Seq::new(ram.len(), |a: int| if i <= a <= i + x { v[a - i] } else { ram[a] })
}

/// Registers with `V0..=Vx` loaded from memory at `i`.
pub open spec fn loaded_regs(v: Seq<u8>, ram: Seq<u8>, i: int, x: int) -> Seq<u8> {
    Seq::new(v.len(), |k: int| if k <= x { ram[i + k] } else { v[k] })
}

/// The index register after a block save or load of registers `0..=x`.
pub open spec fn index_after_block(o: Chip8VMOptions, i: u16, x: int) -> u16 {
    if o.incr_i_when_mem { addr_add(i, x + 1) } else { i }
}

/// What executing `ins` does, with the program counter already past it,
/// `rnd` the random byte drawn for this step and `at` the address `ins` was
/// fetched from, which a fault reports.
pub open spec fn step_spec(m: MachineView, t: Timers, ins: Chip8Instr, rnd: u8, at: u16) -> Outcome {
    let v = m.v;
    match ins {
        Chip8Instr::Clear => Outcome {
            machine: MachineView { display: blank_display(), ..m },
            timers: t,
            result: Ok(render_request(m.options)),
        },
        Chip8Instr::Return => if m.stack.len() == 0 {
            stop(m, t, Fault::EmptyStack { pc: at })
        } else {
            proceed(MachineView { pc: m.stack.last(), stack: m.stack.drop_last(), ..m }, t)
        },
        Chip8Instr::Jump(a) => proceed(MachineView { pc: a, ..m }, t),
        Chip8Instr::Call(a) => proceed(MachineView { pc: a, stack: m.stack.push(m.pc), ..m }, t),
        Chip8Instr::IfNE(x, nn) => proceed(if v[x as int] == nn { skip(m) } else { m }, t),
        Chip8Instr::IfE(x, nn) => proceed(if v[x as int] != nn { skip(m) } else { m }, t),
        Chip8Instr::IfRNE(x, y) => proceed(if v[x as int] == v[y as int] { skip(m) } else { m }, t),
        Chip8Instr::IfRE(x, y) => proceed(if v[x as int] != v[y as int] { skip(m) } else { m }, t),
        Chip8Instr::SetImm(x, nn) => proceed(set_v(m, x as int, nn), t),
        Chip8Instr::Add(x, nn) => proceed(set_v(m, x as int, ((v[x as int] + nn) % 256) as u8), t),
        Chip8Instr::SetR(x, y) => proceed(set_v(m, x as int, v[y as int]), t),
        Chip8Instr::BitOp(x, y, op) => if op == 1 {
            proceed(set_v(m, x as int, v[x as int] | v[y as int]), t)
        } else if op == 2 {
            proceed(set_v(m, x as int, v[x as int] & v[y as int]), t)
        } else if op == 3 {
            proceed(set_v(m, x as int, v[x as int] ^ v[y as int]), t)
        } else {
            stop(m, t, Fault::Unsupported { instr: ins, pc: at })
        },
        Chip8Instr::ArithmOp(x, y, op) => if op == 4 {
            let s = v[x as int] + v[y as int];
            proceed(set_v(set_v(m, VF as int, if s > 255 { 1u8 } else { 0u8 }), x as int, (s % 256) as u8), t)
        } else if op == 5 {
            let d = v[x as int] - v[y as int];
            proceed(set_v(set_v(m, VF as int, if d >= 0 { 1u8 } else { 0u8 }), x as int, (d % 256) as u8), t)
        } else if op == 7 {
            let d = v[y as int] - v[x as int];
            proceed(set_v(set_v(m, VF as int, if d >= 0 { 1u8 } else { 0u8 }), x as int, (d % 256) as u8), t)
        } else {
            stop(m, t, Fault::Unsupported { instr: ins, pc: at })
        },
        Chip8Instr::ShiftOp(x, y, op) => {
            let src = if m.options.old_shift { v[y as int] } else { v[x as int] };
            if op == 6 {
                proceed(set_v(set_v(m, x as int, src / 2), VF as int, src % 2), t)
            } else if op == 0xE {
                proceed(set_v(set_v(m, x as int, ((src * 2) % 256) as u8), VF as int, src / 128), t)
            } else {
                stop(m, t, Fault::Unsupported { instr: ins, pc: at })
            }
        },
        Chip8Instr::SetI(a) => proceed(MachineView { i: a, ..m }, t),
        Chip8Instr::JumpOff(a) => {
            let r = if m.options.new_jump_off { a / 256 } else { 0 };
            proceed(MachineView { pc: addr_add(a, v[r as int] as int), ..m }, t)
        },
        Chip8Instr::Rand(x, nn) => proceed(set_v(m, x as int, nn & rnd), t),
        Chip8Instr::Display(x, y, n) => {
            let x0 = v[x as int] % 64;
            let y0 = v[y as int] % 32;
            if m.i + n > RAM_SIZE {
                stop(m, t, Fault::OutOfBounds { pc: at, addr: (m.i + n - 1) as usize })
            } else {
                Outcome {
                    machine: set_v(
                        MachineView { display: draw_spec(m.display, m.ram, m.i as int, x0 as int, y0 as int, n as int), ..m },
                        VF as int,
                        if collision(m.display, m.ram, m.i as int, x0 as int, y0 as int, n as int) { 1u8 } else { 0u8 },
                    ),
                    timers: t,
                    result: Ok(render_request(m.options)),
                }
            }
        },
        Chip8Instr::GetDelay(x) => proceed(set_v(m, x as int, t.delay), t),
        Chip8Instr::GetKey(x) => Outcome { machine: m, timers: t, result: Ok(Request::ReadKey(x)) },
        Chip8Instr::SetDelay(x) => proceed(m, Timers { delay: v[x as int], ..t }),
        Chip8Instr::SetBuzzer(x) => proceed(m, Timers { buzzer: v[x as int], ..t }),
        Chip8Instr::IncrI(x) => proceed(MachineView { i: addr_add(m.i, v[x as int] as int), ..m }, t),
        Chip8Instr::Char(x) => proceed(MachineView { i: glyph_addr(v[x as int]), ..m }, t),
        Chip8Instr::Decimal(x) => if m.i + 2 >= RAM_SIZE {
            stop(m, t, Fault::OutOfBounds { pc: at, addr: (m.i + 2) as usize })
        } else {
            let val = v[x as int];
            let i = m.i as int;
            proceed(
                MachineView { ram: m.ram.update(i, val / 100).update(i + 1, (val % 100) / 10).update(i + 2, val % 10), ..m },
                t,
            )
        },
        Chip8Instr::Save(x) => if m.i + x >= RAM_SIZE {
            stop(m, t, Fault::OutOfBounds { pc: at, addr: (m.i + x) as usize })
        } else {
            proceed(
                MachineView {
                    ram: saved(m.ram, v, m.i as int, x as int),
                    i: index_after_block(m.options, m.i, x as int),
                    ..m
                },
                t,
            )
        },
        Chip8Instr::Load(x) => if m.i + x >= RAM_SIZE {
            stop(m, t, Fault::OutOfBounds { pc: at, addr: (m.i + x) as usize })
        } else {
            proceed(
                MachineView {
                    v: loaded_regs(v, m.ram, m.i as int, x as int),
                    i: index_after_block(m.options, m.i, x as int),
                    ..m
                },
                t,
            )
        },
        _ => stop(m, t, Fault::Unsupported { instr: ins, pc: at }),
    }
}

/// One full cycle: fetch the word at the program counter, move past it,
/// decode and execute. A program counter on the last byte of memory cannot
/// fetch a whole word.
pub open spec fn cycle_spec(m: MachineView, t: Timers, rnd: u8) -> Outcome {
    if m.pc + 1 >= RAM_SIZE {
        stop(m, t, Fault::OutOfBounds { pc: m.pc, addr: (m.pc + 1) as usize })
    } else {
        step_spec(skip(m), t, decode_spec(word_at(m.ram, m.pc as int)), rnd, m.pc)
    }
}

/// The key code of a character typed by the user: the hexadecimal digits
/// `0-9`, `a-f` and `A-F` stand for keys 0 to 15; anything else is no key.
pub open spec fn key_value(c: char) -> Option<u8> {
    if '0' <= c <= '9' {
        Some((c as int - '0' as int) as u8)
    } else if 'a' <= c <= 'f' {
        Some((c as int - 'a' as int + 10) as u8)
    } else if 'A' <= c <= 'F' {
        Some((c as int - 'A' as int + 10) as u8)
    } else {
        None
    }
}

} // verus!
