//! An interpreter for the CHIP-8 virtual machine, with its behaviour proved
//! against a mathematical model of the machine.
//!
//! The library owns everything but the host's work: a host runs the cycle
//! (`Chip8VM::run_once`) at its chosen rate, keeps the `Timers` under a lock
//! shared with a task that ticks them sixty times a second, and serves the
//! `Request` each cycle returns (render the display, read a key).
pub mod instr;
pub mod laws;
pub mod model;
pub mod timers;
pub mod vm;

pub use instr::{Chip8Instr, decode};
pub use model::{
    Chip8VMOptions, Fault, LoadError, Request, DISPLAY_HEIGHT, DISPLAY_WIDTH, FONT_SIZE, FONT_START, FREQ, RAM_ROM_START,
    RAM_SIZE,
};
pub use timers::{Timers, TIMER_FREQ, period_nanos, remaining_nanos};
pub use vm::{Chip8VM, default_font, key_code};
