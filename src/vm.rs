//! The interpreter: memory, registers, call stack and framebuffer, and the
//! fetch/decode/execute cycle over them.
use vstd::prelude::*;
use crate::instr::{Chip8Instr, decode, operands_in_range};
use crate::model::{
    blank_display, collision, covers, cycle_spec, default_font_spec, default_options, draw_spec, fits, glyph_addr,
    initial_ram, key_value, loaded, loaded_regs, on_screen, render_request, saved, set_v, skip, sprite_pixel, step_spec,
    word_at, Chip8VMOptions, Fault, LoadError, MachineView, Outcome, Request, ADDR_LIMIT, DISPLAY_HEIGHT, DISPLAY_WIDTH,
    FONT_SIZE, FONT_START, FREQ, NUM_REGS, RAM_ROM_START, RAM_SIZE, VF,
};
use crate::timers::Timers;

verus! {

/// The virtual machine.
pub struct Chip8VM {
    ram: Vec<u8>,
    display: Vec<Vec<bool>>,
    v: Vec<u8>,
    pc: u16,
    i: u16,
    stack: Vec<u16>,
    freq: u32,
    options: Chip8VMOptions,
}

impl View for Chip8VM {
    type V = MachineView;

    closed spec fn view(&self) -> MachineView {
        MachineView {
            ram: self.ram@,
            display: self.display@.map_values(|row: Vec<bool>| row@),
            v: self.v@,
            pc: self.pc,
            i: self.i,
            stack: self.stack@,
            freq: self.freq,
            options: self.options,
        }
    }
}

/// Builds a zeroed memory with `font` copied in at the font address.
fn init_ram(font: &[u8; 80]) -> (r: Vec<u8>)
    ensures
        r@ == initial_ram(font@),
{
    let mut ram: Vec<u8> = vec![0u8; RAM_SIZE];
    let mut k: usize = 0;
    while k < FONT_SIZE
        invariant
            k <= FONT_SIZE,
            ram@.len() == RAM_SIZE,
            forall|a: int|
                0 <= a < RAM_SIZE ==> #[trigger] ram@[a] == if FONT_START <= a < FONT_START + k {
                    font@[a - FONT_START]
                } else {
                    0u8
                },
        decreases FONT_SIZE - k,
    {
        ram.set(FONT_START + k, font[k]);
        k = k + 1;
    }
    assert(ram@ =~= initial_ram(font@));
    ram
}

/// The row of `DISPLAY_WIDTH` unlit pixels.
fn blank_row() -> (r: Vec<bool>)
    ensures
        r@ == Seq::new(DISPLAY_WIDTH as nat, |x: int| false),
{
    let r = vec![false; DISPLAY_WIDTH];
    assert(r@ =~= Seq::new(DISPLAY_WIDTH as nat, |x: int| false));
    r
}

/// A display with every pixel off.
fn blank_display_rows() -> (r: Vec<Vec<bool>>)
    ensures
        r@.len() == DISPLAY_HEIGHT,
        r@.map_values(|row: Vec<bool>| row@) == blank_display(),
{
    let mut d: Vec<Vec<bool>> = Vec::new();
    let mut y: usize = 0;
    while y < DISPLAY_HEIGHT
        invariant
            y <= DISPLAY_HEIGHT,
            d@.len() == y,
            forall|k: int| 0 <= k < y ==> #[trigger] d@[k]@ == Seq::new(DISPLAY_WIDTH as nat, |x: int| false),
        decreases DISPLAY_HEIGHT - y,
    {
        d.push(blank_row());
        y = y + 1;
    }
    assert(d@.map_values(|row: Vec<bool>| row@) =~= blank_display());
    d
}

/// Relies on `rand::random::<u8>`: a byte drawn from the thread-local
/// generator. Nothing is known of its value.
#[verifier::external_body]
fn random_byte() -> (r: u8) {
    rand::random::<u8>()
}

/// `a + b` modulo 256, and 1 when the sum overflowed, else 0.
fn add_with_carry(a: u8, b: u8) -> (r: (u8, u8))
    ensures
        r.0 == ((a + b) % 256) as u8,
        r.1 == if a + b > 255 { 1u8 } else { 0u8 },
{
    let sum = a as u16 + b as u16;
    ((sum % 256) as u8, if sum > 255 { 1 } else { 0 })
}

/// `a - b` modulo 256, and 1 when no borrow was needed, else 0.
fn sub_with_no_borrow(a: u8, b: u8) -> (r: (u8, u8))
    ensures
        r.0 == ((a - b) % 256) as u8,
        r.1 == if a - b >= 0 { 1u8 } else { 0u8 },
{
    if a >= b {
        (a - b, 1)
    } else {
        assert((a - b) % 256 == 256 + a - b);
        ((256 + a as u16 - b as u16) as u8, 0)
    }
}

/// The key code of a character typed by the user, if it is a hexadecimal digit.
pub fn key_code(c: char) -> (r: Option<u8>)
    ensures
        r == key_value(c),
{
    if '0' <= c && c <= '9' {
        Some((c as u32 - '0' as u32) as u8)
    } else if 'a' <= c && c <= 'f' {
        Some((c as u32 - 'a' as u32 + 10) as u8)
    } else if 'A' <= c && c <= 'F' {
        Some((c as u32 - 'A' as u32 + 10) as u8)
    } else {
        None
    }
}

/// The built-in font: glyphs for the hexadecimal digits 0 to F.
pub fn default_font() -> (r: [u8; 80])
    ensures
        r@ == default_font_spec(),
{
    let r: [u8; 80] = [
        0xF0, 0x90, 0x90, 0x90, 0xF0, 0x20, 0x60, 0x20, 0x20, 0x70,
        0xF0, 0x10, 0xF0, 0x80, 0xF0, 0xF0, 0x10, 0xF0, 0x10, 0xF0,
        0x90, 0x90, 0xF0, 0x10, 0x10, 0xF0, 0x80, 0xF0, 0x10, 0xF0,
        0xF0, 0x80, 0xF0, 0x90, 0xF0, 0xF0, 0x10, 0x20, 0x40, 0x40,
        0xF0, 0x90, 0xF0, 0x90, 0xF0, 0xF0, 0x90, 0xF0, 0x10, 0xF0,
        0xF0, 0x90, 0xF0, 0x90, 0x90, 0xE0, 0x90, 0xE0, 0x90, 0xE0,
        0xF0, 0x80, 0x80, 0x80, 0xF0, 0xE0, 0x90, 0x90, 0x90, 0xE0,
        0xF0, 0x80, 0xF0, 0x80, 0xF0, 0xF0, 0x80, 0xF0, 0x80, 0x80,
    ];
    assert(r@ =~= default_font_spec());
    r
}

impl Chip8VM {
    /// A machine at power-on: the font (the built-in one unless another is
    /// given) in memory, a blank display, every register zero but the program
    /// counter at the load address, an empty stack.
    pub fn new(freq: Option<u32>, font: Option<[u8; 80]>, options: Option<Chip8VMOptions>) -> (vm: Chip8VM)
        ensures
            vm@.wf(),
            vm@.ram == initial_ram(
                match font {
                    Some(f) => f@,
                    None => default_font_spec(),
                },
            ),
            vm@.display == blank_display(),
            vm@.v == Seq::new(NUM_REGS as nat, |k: int| 0u8),
            vm@.pc == RAM_ROM_START,
            vm@.i == 0,
            vm@.stack.len() == 0,
            vm@.freq == match freq {
                Some(f) => f,
                None => FREQ,
            },
            vm@.options == match options {
                Some(o) => o,
                None => default_options(),
            },
    {
        let font = match font {
            Some(f) => f,
            None => default_font(),
        };
        let ram = init_ram(&font);
        let display = blank_display_rows();
        let v = vec![0u8; NUM_REGS];
        assert(v@ =~= Seq::new(NUM_REGS as nat, |k: int| 0u8));
        let vm = Chip8VM {
            ram,
            display,
            v,
            pc: RAM_ROM_START as u16,
            i: 0,
            stack: Vec::new(),
            freq: match freq {
                Some(f) => f,
                None => FREQ,
            },
            options: match options {
                Some(o) => o,
                None => Chip8VMOptions::default(),
            },
        };
        assert forall|y: int| 0 <= y < DISPLAY_HEIGHT implies #[trigger] vm@.display[y].len() == DISPLAY_WIDTH by {
            assert(vm@.display[y] == blank_display()[y]);
        }
        vm
    }

    /// Copies a program into memory at the load address. A program longer
    /// than the space from there to the end of memory is refused, and then
    /// nothing changes.
    pub fn load_rom(&mut self, rom: &[u8]) -> (r: Result<(), LoadError>)
        requires
            old(self)@.wf(),
        ensures
            final(self)@.wf(),
            fits(rom@.len()) ==> r is Ok && final(self)@ == (MachineView {
                ram: loaded(old(self)@.ram, rom@),
                ..old(self)@
            }),
            !fits(rom@.len()) ==> r == Err::<(), LoadError>(
                LoadError::TooBig { len: rom@.len() as usize, available: (RAM_SIZE - RAM_ROM_START) as usize },
            ) && final(self)@ == old(self)@,
    {
        if rom.len() > RAM_SIZE - RAM_ROM_START {
            return Err(LoadError::TooBig { len: rom.len(), available: RAM_SIZE - RAM_ROM_START });
        }
        let ghost ram0 = self.ram@;
        let ghost before = self@;
        let mut k: usize = 0;
        while k < rom.len()
            invariant
                before.wf(),
                before.ram == ram0,
                self@ == (MachineView { ram: self.ram@, ..before }),
                fits(rom@.len()),
                k <= rom@.len(),
                ram0.len() == RAM_SIZE,
                self.ram@.len() == RAM_SIZE,
                forall|a: int|
                    0 <= a < RAM_SIZE ==> #[trigger] self.ram@[a] == if RAM_ROM_START <= a < RAM_ROM_START + k {
                        rom@[a - RAM_ROM_START]
                    } else {
                        ram0[a]
                    },
            decreases rom@.len() - k,
        {
            self.ram.set(RAM_ROM_START + k, rom[k]);
            k = k + 1;
        }
        assert(self.ram@ =~= loaded(ram0, rom@));
        Ok(())
    }

    /// Register `r`.
    fn get_reg(&self, r: u8) -> (val: u8)
        requires
            self@.wf(),
            r < NUM_REGS,
        ensures
            val == self@.v[r as int],
    {
        self.v[r as usize]
    }

    /// Sets register `r` to `val`.
    fn set_reg(&mut self, r: u8, val: u8)
        requires
            old(self)@.wf(),
            r < NUM_REGS,
        ensures
            final(self)@ == set_v(old(self)@, r as int, val),
            final(self)@.wf(),
    {
        self.v.set(r as usize, val);
    }

    /// Moves the program counter past one instruction.
    fn incr_pc(&mut self)
        requires
            old(self)@.wf(),
        ensures
            final(self)@ == skip(old(self)@),
            final(self)@.wf(),
    {
        self.pc = (self.pc + 2) % ADDR_LIMIT;
        assert(self@.display == old(self)@.display);
        assert(self@.pc < ADDR_LIMIT);
        assert(self@.stack == old(self)@.stack);
    }

    /// Address of the font glyph for the low nibble of `c`.
    fn char_index(&self, c: u8) -> (r: u16)
        ensures
            r == glyph_addr(c),
    {
        FONT_START as u16 + 5 * (c % 16) as u16
    }

    /// The opcode word at the program counter.
    fn fetch_instruction(&self) -> (w: u16)
        requires
            self@.wf(),
            self@.pc + 1 < RAM_SIZE,
        ensures
            w == word_at(self@.ram, self@.pc as int),
    {
        let first = self.ram[self.pc as usize] as u16;
        let second = self.ram[self.pc as usize + 1] as u16;
        first * 256 + second
    }

    /// XORs a sprite of `n` rows, read from memory at the index register, onto
    /// the display at `(x0, y0)`, clipping at the right and bottom edges, and
    /// sets the flag register to whether a lit pixel was turned off.
    fn draw_sprite(&mut self, x0: u8, y0: u8, n: u8)
        requires
            old(self)@.wf(),
            x0 < DISPLAY_WIDTH,
            y0 < DISPLAY_HEIGHT,
            old(self)@.i + n <= RAM_SIZE,
        ensures
            final(self)@.wf(),
            final(self)@ == set_v(
                MachineView {
                    display: draw_spec(old(self)@.display, old(self)@.ram, old(self)@.i as int, x0 as int, y0 as int, n as int),
                    ..old(self)@
                },
                VF as int,
                if collision(old(self)@.display, old(self)@.ram, old(self)@.i as int, x0 as int, y0 as int, n as int) {
                    1u8
                } else {
                    0u8
                },
            ),
    {
        let ghost before = self@;
        let ghost d0 = before.display;
        let ghost ram = before.ram;
        let ghost i = before.i as int;
        let ghost (xs, ys) = (x0 as int, y0 as int);
        proof {
            assert forall|y: int| 0 <= y < DISPLAY_HEIGHT implies #[trigger] self.display@[y]@ == d0[y] by {}
        }
        let rows: u8 = if n as usize <= DISPLAY_HEIGHT - y0 as usize { n } else { (DISPLAY_HEIGHT - y0 as usize) as u8 };
        let cols: u8 = if 8 <= DISPLAY_WIDTH - x0 as usize { 8 } else { (DISPLAY_WIDTH - x0 as usize) as u8 };
        let mut collided = false;
        let mut r: u8 = 0;
        while r < rows
            invariant
                before.wf(),
                ram == before.ram,
                d0 == before.display,
                i == before.i as int,
                xs == x0 as int,
                ys == y0 as int,
                x0 < DISPLAY_WIDTH,
                y0 < DISPLAY_HEIGHT,
                before.i + n <= RAM_SIZE,
                rows <= n,
                y0 + rows <= DISPLAY_HEIGHT,
                rows == n || y0 + rows == DISPLAY_HEIGHT,
                cols <= 8,
                x0 + cols <= DISPLAY_WIDTH,
                cols == 8 || x0 + cols == DISPLAY_WIDTH,
                r <= rows,
                self.ram@ == ram,
                self.v@ == before.v,
                self.pc == before.pc,
                self.i == before.i,
                self.stack@ == before.stack,
                self.freq == before.freq,
                self.options == before.options,
                self.display@.len() == DISPLAY_HEIGHT,
                forall|y: int| 0 <= y < DISPLAY_HEIGHT ==> (#[trigger] self.display@[y])@.len() == DISPLAY_WIDTH,
                forall|x: int, y: int|
                    on_screen(x, y) ==> #[trigger] self.display@[y]@[x] == if covers(xs, ys, r as int, x, y) {
                        d0[y][x] != sprite_pixel(ram, i, xs, ys, x, y)
                    } else {
                        d0[y][x]
                    },
                collided == collision(d0, ram, i, xs, ys, r as int),
            decreases rows - r,
        {
            let py: usize = y0 as usize + r as usize;
            let byte = self.ram[self.i as usize + r as usize];
            let mut c: u8 = 0;
            while c < cols
                invariant
                    before.wf(),
                    ram == before.ram,
                    d0 == before.display,
                    i == before.i as int,
                    xs == x0 as int,
                    ys == y0 as int,
                    x0 < DISPLAY_WIDTH,
                    y0 < DISPLAY_HEIGHT,
                    before.i + n <= RAM_SIZE,
                    r < rows,
                    rows <= n,
                    y0 + rows <= DISPLAY_HEIGHT,
                    cols <= 8,
                    x0 + cols <= DISPLAY_WIDTH,
                    cols == 8 || x0 + cols == DISPLAY_WIDTH,
                    c <= cols,
                    py == y0 + r,
                    byte == ram[i + r],
                    self.ram@ == ram,
                    self.v@ == before.v,
                    self.pc == before.pc,
                    self.i == before.i,
                    self.stack@ == before.stack,
                    self.freq == before.freq,
                    self.options == before.options,
                    self.display@.len() == DISPLAY_HEIGHT,
                    forall|y: int| 0 <= y < DISPLAY_HEIGHT ==> (#[trigger] self.display@[y])@.len() == DISPLAY_WIDTH,
                    forall|x: int, y: int|
                        on_screen(x, y) ==> #[trigger] self.display@[y]@[x] == if covers(xs, ys, r as int, x, y)
                            || (y == py && xs <= x < xs + c) {
                            d0[y][x] != sprite_pixel(ram, i, xs, ys, x, y)
                        } else {
                            d0[y][x]
                        },
                    collided == (collision(d0, ram, i, xs, ys, r as int) || exists|x: int|
                        xs <= x < xs + c && #[trigger] d0[py as int][x] && sprite_pixel(ram, i, xs, ys, x, py as int)),
                decreases cols - c,
            {
                let px: usize = x0 as usize + c as usize;
                let bit = (byte >> (7 - c)) & 1 == 1;
                assert(bit == sprite_pixel(ram, i, xs, ys, px as int, py as int));
                let lit = self.display[py][px];
                let ghost prev = collided;
                if lit && bit {
                    collided = true;
                }
                self.display[py].set(px, lit != bit);
                proof {
                    let cx = (xs + c) as int;
                    let py_i = py as int;
                    if collided {
                        if !prev {
                            assert(d0[py_i][cx] && sprite_pixel(ram, i, xs, ys, cx, py_i));
                        }
                    } else {
                        assert forall|x: int| xs <= x < xs + c + 1 && #[trigger] d0[py_i][x]
                            implies !sprite_pixel(ram, i, xs, ys, x, py_i) by {
                            if x < xs + c {
                                assert(!(xs <= x < xs + c && d0[py_i][x] && sprite_pixel(ram, i, xs, ys, x, py_i)));
                            }
                        }
                    }
                }
                c = c + 1;
            }
            proof {
                let r1 = (r + 1) as int;
                let py_i = py as int;
                if collided {
                    if !collision(d0, ram, i, xs, ys, r as int) {
                        let x = choose|x: int| xs <= x < xs + cols && #[trigger] d0[py_i][x] && sprite_pixel(ram, i, xs, ys, x, py_i);
                        assert(on_screen(x, py_i) && covers(xs, ys, r1, x, py_i));
                    }
                } else {
                    assert forall|x: int, y: int|
                        on_screen(x, y) && covers(xs, ys, r1, x, y) && #[trigger] d0[y][x]
                        implies !sprite_pixel(ram, i, xs, ys, x, y) by {
                        if y < py_i {
                            assert(!(on_screen(x, y) && covers(xs, ys, r as int, x, y) && d0[y][x] && sprite_pixel(ram, i, xs, ys, x, y)));
                        } else {
                            assert(!(xs <= x < xs + cols && d0[py_i][x] && sprite_pixel(ram, i, xs, ys, x, py_i)));
                        }
                    }
                }
            }
            r = r + 1;
        }
        proof {
            assert(collided == collision(d0, ram, i, xs, ys, n as int)) by {
                if collided {
                    let (x, y) = choose|x: int, y: int|
                        on_screen(x, y) && covers(xs, ys, rows as int, x, y) && #[trigger] d0[y][x] && sprite_pixel(ram, i, xs, ys, x, y);
                    assert(on_screen(x, y) && covers(xs, ys, n as int, x, y) && d0[y][x] && sprite_pixel(ram, i, xs, ys, x, y));
                } else {
                    assert forall|x: int, y: int|
                        on_screen(x, y) && covers(xs, ys, n as int, x, y) && #[trigger] d0[y][x]
                        implies !sprite_pixel(ram, i, xs, ys, x, y) by {
                        assert(!(on_screen(x, y) && covers(xs, ys, rows as int, x, y) && d0[y][x] && sprite_pixel(ram, i, xs, ys, x, y)));
                    }
                }
            }
            let target = draw_spec(d0, ram, i, xs, ys, n as int);
            assert forall|y: int| 0 <= y < DISPLAY_HEIGHT implies #[trigger] self@.display[y] =~= target[y] by {
                assert(self@.display[y] == self.display@[y]@);
                assert forall|x: int| 0 <= x < DISPLAY_WIDTH implies self@.display[y][x] == target[y][x] by {
                    assert(on_screen(x, y));
                    assert(self.display@[y]@[x] == self@.display[y][x]);
                }
            }
            assert(self@.display =~= target);
        }
        self.set_reg(VF, if collided { 1 } else { 0 });
    }

    /// Stores registers `V0..=Vx` in memory from the index register on.
    fn save_block(&mut self, x: u8)
        requires
            old(self)@.wf(),
            x < NUM_REGS,
            old(self)@.i + x < RAM_SIZE,
        ensures
            final(self)@.wf(),
            final(self)@ == (MachineView { ram: saved(old(self)@.ram, old(self)@.v, old(self)@.i as int, x as int), ..old(self)@ }),
    {
        let ghost before = self@;
        let base = self.i as usize;
        let mut k: u8 = 0;
        while k <= x
            invariant
                before.wf(),
                x < NUM_REGS,
                base == before.i,
                base + x < RAM_SIZE,
                k <= x + 1,
                self@.wf(),
                self@ == (MachineView { ram: self@.ram, ..before }),
                forall|a: int|
                    0 <= a < RAM_SIZE ==> #[trigger] self@.ram[a] == if base <= a < base + k {
                        before.v[a - base]
                    } else {
                        before.ram[a]
                    },
            decreases x + 1 - k,
        {
            let val = self.v[k as usize];
            self.ram.set(base + k as usize, val);
            k = k + 1;
        }
        assert(self@.ram =~= saved(before.ram, before.v, before.i as int, x as int));
    }

    /// Loads registers `V0..=Vx` from memory at the index register.
    fn load_block(&mut self, x: u8)
        requires
            old(self)@.wf(),
            x < NUM_REGS,
            old(self)@.i + x < RAM_SIZE,
        ensures
            final(self)@.wf(),
            final(self)@ == (MachineView { v: loaded_regs(old(self)@.v, old(self)@.ram, old(self)@.i as int, x as int), ..old(self)@ }),
    {
        let ghost before = self@;
        let base = self.i as usize;
        let mut k: u8 = 0;
        while k <= x
            invariant
                before.wf(),
                x < NUM_REGS,
                base == before.i,
                base + x < RAM_SIZE,
                k <= x + 1,
                self@.wf(),
                self@ == (MachineView { v: self@.v, ..before }),
                forall|r: int|
                    0 <= r < NUM_REGS ==> #[trigger] self@.v[r] == if r < k {
                        before.ram[base + r]
                    } else {
                        before.v[r]
                    },
            decreases x + 1 - k,
        {
            let val = self.ram[base + k as usize];
            self.v.set(k as usize, val);
            k = k + 1;
        }
        assert(self@.v =~= loaded_regs(before.v, before.ram, before.i as int, x as int));
    }

    /// Writes the hundreds, tens and ones digits of `val` at the index
    /// register and the two addresses after it.
    fn store_decimal(&mut self, val: u8)
        requires
            old(self)@.wf(),
            old(self)@.i + 2 < RAM_SIZE,
        ensures
            final(self)@.wf(),
            final(self)@ == (MachineView {
                ram: old(self)@.ram.update(old(self)@.i as int, val / 100).update(old(self)@.i + 1, (val % 100) / 10).update(
                    old(self)@.i + 2,
                    val % 10,
                ),
                ..old(self)@
            }),
    {
        let base = self.i as usize;
        self.ram.set(base, val / 100);
        self.ram.set(base + 1, (val % 100) / 10);
        self.ram.set(base + 2, val % 10);
    }

    /// Runs one decoded instruction; the program counter is already past it.
    fn execute(&mut self, ins: Chip8Instr, timers: &mut Timers, rnd: u8, at: u16) -> (r: Result<Request, Fault>)
        requires
            old(self)@.wf(),
            operands_in_range(ins),
        ensures
            final(self)@.wf(),
            (Outcome { machine: final(self)@, timers: *final(timers), result: r }) == step_spec(
                old(self)@,
                *old(timers),
                ins,
                rnd,
                at,
            ),
    {
        match ins {
            Chip8Instr::Clear | Chip8Instr::Return | Chip8Instr::Jump(_) | Chip8Instr::Call(_) | Chip8Instr::IfNE(..)
            | Chip8Instr::IfE(..) | Chip8Instr::IfRNE(..) | Chip8Instr::IfRE(..) | Chip8Instr::JumpOff(_) => {
                self.exec_control(ins, timers, rnd, at)
            },
            Chip8Instr::SetImm(..) | Chip8Instr::Add(..) | Chip8Instr::SetR(..) | Chip8Instr::BitOp(..)
            | Chip8Instr::Rand(..) => self.exec_alu(ins, timers, rnd, at),
            Chip8Instr::ArithmOp(..) | Chip8Instr::ShiftOp(..) => self.exec_flag(ins, timers, rnd, at),
            Chip8Instr::SetI(_) | Chip8Instr::IncrI(_) | Chip8Instr::Char(_) | Chip8Instr::Decimal(_) | Chip8Instr::Save(_)
            | Chip8Instr::Load(_) | Chip8Instr::Display(..) => self.exec_memory(ins, timers, rnd, at),
            Chip8Instr::GetDelay(_) | Chip8Instr::GetKey(_) | Chip8Instr::SetDelay(_) | Chip8Instr::SetBuzzer(_) => {
                self.exec_io(ins, timers, rnd, at)
            },
            _ => Err(Fault::Unsupported { instr: ins, pc: at }),
        }
    }

    /// Instructions that move the program counter or the stack, and clear.
    fn exec_control(&mut self, ins: Chip8Instr, timers: &mut Timers, rnd: u8, at: u16) -> (r: Result<Request, Fault>)
        requires
            old(self)@.wf(),
            operands_in_range(ins),
            ins is Clear || ins is Return || ins is Jump || ins is Call || ins is IfNE || ins is IfE || ins is IfRNE || ins is IfRE || ins is JumpOff,
        ensures
            final(self)@.wf(),
            (Outcome { machine: final(self)@, timers: *final(timers), result: r }) == step_spec(
                old(self)@,
                *old(timers),
                ins,
                rnd,
                at,
            ),
    {
        match ins {
            Chip8Instr::Clear => {
                self.display = blank_display_rows();
                Ok(self.render_request())
            },
            Chip8Instr::Return => {
                match self.stack.pop() {
                    Some(a) => {
                        self.pc = a;
                        Ok(Request::Continue)
                    },
                    None => Err(Fault::EmptyStack { pc: at }),
                }
            },
            Chip8Instr::Jump(a) => {
                self.pc = a;
                Ok(Request::Continue)
            },
            Chip8Instr::Call(a) => {
                self.stack.push(self.pc);
                self.pc = a;
                Ok(Request::Continue)
            },
            Chip8Instr::IfNE(x, nn) => {
                if self.get_reg(x) == nn {
                    self.incr_pc();
                }
                Ok(Request::Continue)
            },
            Chip8Instr::IfE(x, nn) => {
                if self.get_reg(x) != nn {
                    self.incr_pc();
                }
                Ok(Request::Continue)
            },
            Chip8Instr::IfRNE(x, y) => {
                if self.get_reg(x) == self.get_reg(y) {
                    self.incr_pc();
                }
                Ok(Request::Continue)
            },
            Chip8Instr::IfRE(x, y) => {
                if self.get_reg(x) != self.get_reg(y) {
                    self.incr_pc();
                }
                Ok(Request::Continue)
            },
            Chip8Instr::JumpOff(a) => {
                let r: u8 = if self.options.new_jump_off { (a / 256) as u8 } else { 0 };
                let off = self.get_reg(r) as u16;
                self.pc = (a + off) % ADDR_LIMIT;
                Ok(Request::Continue)
            },
            _ => Err(Fault::Unsupported { instr: ins, pc: at }),
        }
    }

    /// Instructions that compute into a register.
    fn exec_alu(&mut self, ins: Chip8Instr, timers: &mut Timers, rnd: u8, at: u16) -> (r: Result<Request, Fault>)
        requires
            old(self)@.wf(),
            operands_in_range(ins),
            ins is SetImm || ins is Add || ins is SetR || ins is BitOp || ins is Rand,
        ensures
            final(self)@.wf(),
            (Outcome { machine: final(self)@, timers: *final(timers), result: r }) == step_spec(
                old(self)@,
                *old(timers),
                ins,
                rnd,
                at,
            ),
    {
        match ins {
            Chip8Instr::SetImm(x, nn) => {
                self.set_reg(x, nn);
                Ok(Request::Continue)
            },
            Chip8Instr::Add(x, nn) => {
                let val = self.get_reg(x).wrapping_add(nn);
                self.set_reg(x, val);
                Ok(Request::Continue)
            },
            Chip8Instr::SetR(x, y) => {
                let val = self.get_reg(y);
                self.set_reg(x, val);
                Ok(Request::Continue)
            },
            Chip8Instr::BitOp(x, y, op) => {
                let (vx, vy) = (self.get_reg(x), self.get_reg(y));
                let val = if op == 1 {
                    vx | vy
                } else if op == 2 {
                    vx & vy
                } else if op == 3 {
                    vx ^ vy
                } else {
                    return Err(Fault::Unsupported { instr: ins, pc: at });
                };
                self.set_reg(x, val);
                Ok(Request::Continue)
            },
            Chip8Instr::Rand(x, nn) => {
                self.set_reg(x, nn & rnd);
                Ok(Request::Continue)
            },
            _ => Err(Fault::Unsupported { instr: ins, pc: at }),
        }
    }

    /// Instructions that compute into a register and set the flag register.
    fn exec_flag(&mut self, ins: Chip8Instr, timers: &mut Timers, rnd: u8, at: u16) -> (r: Result<Request, Fault>)
        requires
            old(self)@.wf(),
            operands_in_range(ins),
            ins is ArithmOp || ins is ShiftOp,
        ensures
            final(self)@.wf(),
            (Outcome { machine: final(self)@, timers: *final(timers), result: r }) == step_spec(
                old(self)@,
                *old(timers),
                ins,
                rnd,
                at,
            ),
    {
        match ins {
            Chip8Instr::ArithmOp(x, y, op) => {
                let (vx, vy) = (self.get_reg(x), self.get_reg(y));
                let (val, flag): (u8, u8) = if op == 4 {
                    add_with_carry(vx, vy)
                } else if op == 5 {
                    sub_with_no_borrow(vx, vy)
                } else if op == 7 {
                    sub_with_no_borrow(vy, vx)
                } else {
                    return Err(Fault::Unsupported { instr: ins, pc: at });
                };
                self.set_reg(VF, flag);
                self.set_reg(x, val);
                Ok(Request::Continue)
            },
            Chip8Instr::ShiftOp(x, y, op) => {
                if op != 6 && op != 0xE {
                    return Err(Fault::Unsupported { instr: ins, pc: at });
                }
                let src = if self.options.old_shift { self.get_reg(y) } else { self.get_reg(x) };
                let (val, flag): (u8, u8) = if op == 6 {
                    (src / 2, src % 2)
                } else {
                    (((src as u16 * 2) % 256) as u8, src / 128)
                };
                self.set_reg(x, val);
                self.set_reg(VF, flag);
                Ok(Request::Continue)
            },
            _ => Err(Fault::Unsupported { instr: ins, pc: at }),
        }
    }

    /// Instructions on the index register and memory, and sprite drawing.
    fn exec_memory(&mut self, ins: Chip8Instr, timers: &mut Timers, rnd: u8, at: u16) -> (r: Result<Request, Fault>)
        requires
            old(self)@.wf(),
            operands_in_range(ins),
            ins is SetI || ins is IncrI || ins is Char || ins is Decimal || ins is Save || ins is Load || ins is Display,
        ensures
            final(self)@.wf(),
            (Outcome { machine: final(self)@, timers: *final(timers), result: r }) == step_spec(
                old(self)@,
                *old(timers),
                ins,
                rnd,
                at,
            ),
    {
        match ins {
            Chip8Instr::SetI(a) => {
                self.i = a;
                Ok(Request::Continue)
            },
            Chip8Instr::Display(x, y, n) => {
                let x0 = self.get_reg(x) % (DISPLAY_WIDTH as u8);
                let y0 = self.get_reg(y) % (DISPLAY_HEIGHT as u8);
                if self.i as usize + n as usize > RAM_SIZE {
                    return Err(Fault::OutOfBounds { pc: at, addr: self.i as usize + n as usize - 1 });
                }
                self.draw_sprite(x0, y0, n);
                Ok(self.render_request())
            },
            Chip8Instr::IncrI(x) => {
                let off = self.get_reg(x) as u16;
                self.i = (self.i + off) % ADDR_LIMIT;
                Ok(Request::Continue)
            },
            Chip8Instr::Char(x) => {
                let c = self.get_reg(x);
                self.i = self.char_index(c);
                Ok(Request::Continue)
            },
            Chip8Instr::Decimal(x) => {
                if self.i as usize + 2 >= RAM_SIZE {
                    return Err(Fault::OutOfBounds { pc: at, addr: self.i as usize + 2 });
                }
                let val = self.get_reg(x);
                self.store_decimal(val);
                Ok(Request::Continue)
            },
            Chip8Instr::Save(x) => {
                if self.i as usize + x as usize >= RAM_SIZE {
                    return Err(Fault::OutOfBounds { pc: at, addr: self.i as usize + x as usize });
                }
                self.save_block(x);
                if self.options.incr_i_when_mem {
                    self.i = (self.i + x as u16 + 1) % ADDR_LIMIT;
                }
                Ok(Request::Continue)
            },
            Chip8Instr::Load(x) => {
                if self.i as usize + x as usize >= RAM_SIZE {
                    return Err(Fault::OutOfBounds { pc: at, addr: self.i as usize + x as usize });
                }
                self.load_block(x);
                if self.options.incr_i_when_mem {
                    self.i = (self.i + x as u16 + 1) % ADDR_LIMIT;
                }
                Ok(Request::Continue)
            },
            _ => Err(Fault::Unsupported { instr: ins, pc: at }),
        }
    }

    /// Instructions on the counters and the keyboard.
    fn exec_io(&mut self, ins: Chip8Instr, timers: &mut Timers, rnd: u8, at: u16) -> (r: Result<Request, Fault>)
        requires
            old(self)@.wf(),
            operands_in_range(ins),
            ins is GetDelay || ins is GetKey || ins is SetDelay || ins is SetBuzzer,
        ensures
            final(self)@.wf(),
            (Outcome { machine: final(self)@, timers: *final(timers), result: r }) == step_spec(
                old(self)@,
                *old(timers),
                ins,
                rnd,
                at,
            ),
    {
        match ins {
            Chip8Instr::GetDelay(x) => {
                self.set_reg(x, timers.delay);
                Ok(Request::Continue)
            },
            Chip8Instr::GetKey(x) => Ok(Request::ReadKey(x)),
            Chip8Instr::SetDelay(x) => {
                timers.delay = self.get_reg(x);
                Ok(Request::Continue)
            },
            Chip8Instr::SetBuzzer(x) => {
                timers.buzzer = self.get_reg(x);
                Ok(Request::Continue)
            },
            _ => Err(Fault::Unsupported { instr: ins, pc: at }),
        }
    }

    /// What a clear or a draw asks of the host.
    fn render_request(&self) -> (r: Request)
        ensures
            r == render_request(self@.options),
    {
        if self.options.hide_display { Request::Continue } else { Request::Render }
    }

    /// Opens the timers' start gate, once, before the first cycle of a run.
    pub fn pre_run(&mut self, timers: &mut Timers)
        requires
            old(self)@.wf(),
        ensures
            final(self)@ == old(self)@,
            *final(timers) == (Timers { started: true, ..*old(timers) }),
    {
        timers.start();
    }

    /// One cycle with a given random byte: fetch the word at the program
    /// counter, move past it, decode it and execute it.
    pub fn step(&mut self, timers: &mut Timers, random: u8) -> (r: Result<Request, Fault>)
        requires
            old(self)@.wf(),
        ensures
            final(self)@.wf(),
            (Outcome { machine: final(self)@, timers: *final(timers), result: r }) == cycle_spec(
                old(self)@,
                *old(timers),
                random,
            ),
            r matches Ok(Request::ReadKey(x)) ==> x < NUM_REGS,
    {
        if self.pc as usize + 1 >= RAM_SIZE {
            return Err(Fault::OutOfBounds { pc: self.pc, addr: self.pc as usize + 1 });
        }
        let at = self.pc;
        let w = self.fetch_instruction();
        let ins = decode(w);
        self.incr_pc();
        self.execute(ins, timers, random, at)
    }

    /// One cycle, drawing the random byte that a random-masked instruction
    /// uses from the thread-local generator.
    pub fn run_once(&mut self, timers: &mut Timers) -> (r: Result<Request, Fault>)
        requires
            old(self)@.wf(),
        ensures
            final(self)@.wf(),
            exists|rnd: u8|
                (Outcome { machine: final(self)@, timers: *final(timers), result: r }) == #[trigger] cycle_spec(
                    old(self)@,
                    *old(timers),
                    rnd,
                ),
            r matches Ok(Request::ReadKey(x)) ==> x < NUM_REGS,
    {
        let rnd = random_byte();
        self.step(timers, rnd)
    }

    /// Completes a key wait: binds register `x` to the key that `key` stands
    /// for, or leaves everything as it is when `key` is no hexadecimal digit.
    pub fn provide_key(&mut self, x: u8, key: char)
        requires
            old(self)@.wf(),
            x < NUM_REGS,
        ensures
            final(self)@.wf(),
            final(self)@ == match key_value(key) {
                Some(k) => set_v(old(self)@, x as int, k),
                None => old(self)@,
            },
    {
        if let Some(k) = key_code(key) {
            self.set_reg(x, k);
        }
    }

    /// Register `r`.
    pub fn register(&self, r: u8) -> (val: u8)
        requires
            self@.wf(),
            r < NUM_REGS,
        ensures
            val == self@.v[r as int],
    {
        self.get_reg(r)
    }

    /// The instruction rate, in hertz.
    pub fn freq(&self) -> (r: u32)
        ensures
            r == self@.freq,
    {
        self.freq
    }

    /// The program counter.
    pub fn pc(&self) -> (r: u16)
        ensures
            r == self@.pc,
    {
        self.pc
    }

    /// The index register.
    pub fn index(&self) -> (r: u16)
        ensures
            r == self@.i,
    {
        self.i
    }

    /// The return addresses, innermost call last.
    pub fn stack(&self) -> (r: &Vec<u16>)
        ensures
            r@ == self@.stack,
    {
        &self.stack
    }

    /// The options the machine was built with.
    pub fn options(&self) -> (r: Chip8VMOptions)
        ensures
            r == self@.options,
    {
        self.options
    }

    /// The display, top row first: what a rendering sink is handed.
    pub fn display(&self) -> (r: &Vec<Vec<bool>>)
        ensures
            r@.map_values(|row: Vec<bool>| row@) == self@.display,
    {
        &self.display
    }

    /// The pixel in column `x` of row `y`.
    pub fn pixel(&self, x: usize, y: usize) -> (r: bool)
        requires
            self@.wf(),
            on_screen(x as int, y as int),
        ensures
            r == self@.display[y as int][x as int],
    {
        assert(self@.display[y as int] == self.display@[y as int]@);
        self.display[y][x]
    }

    /// The whole memory.
    pub fn memory(&self) -> (r: &Vec<u8>)
        ensures
            r@ == self@.ram,
    {
        &self.ram
    }
}

} // verus!
