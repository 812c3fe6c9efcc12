//! Decoding of 16-bit opcode words into tagged instructions.
use vstd::prelude::*;

verus! {

/// A decoded CHIP-8 instruction. Register operands are 4-bit values, addresses
/// are 12-bit values.
#[derive(Debug, PartialEq, Eq, Structural, Clone, Copy)]
pub enum Chip8Instr {
    /// `00E0`: clear the display.
    Clear,
    /// `00EE`: return from a subroutine.
    Return,
    /// `1nnn`: jump to `nnn`.
    Jump(u16),
    /// `2nnn`: call the subroutine at `nnn`.
    Call(u16),
    /// `3xnn`: skip the next instruction when `Vx == nn`.
    IfNE(u8, u8),
    /// `4xnn`: skip the next instruction when `Vx != nn`.
    IfE(u8, u8),
    /// `5xy_`: skip the next instruction when `Vx == Vy`.
    IfRNE(u8, u8),
    /// `6xnn`: `Vx = nn`.
    SetImm(u8, u8),
    /// `7xnn`: `Vx += nn`, wrapping, flag untouched.
    Add(u8, u8),
    /// `8xy0`: `Vx = Vy`.
    SetR(u8, u8),
    /// `8xy1`, `8xy2`, `8xy3`: OR, AND, XOR of `Vy` into `Vx`.
    BitOp(u8, u8, u8),
    /// `8xy4`, `8xy5`, `8xy7`: add with carry, `Vx - Vy` and `Vy - Vx` with no-borrow flag.
    ArithmOp(u8, u8, u8),
    /// `8xy6`, `8xyE`: shift right or left by one bit.
    ShiftOp(u8, u8, u8),
    /// `9xy_`: skip the next instruction when `Vx != Vy`.
    IfRE(u8, u8),
    /// `Annn`: `I = nnn`.
    SetI(u16),
    /// `Bnnn`: jump to `nnn` plus a register.
    JumpOff(u16),
    /// `Cxnn`: `Vx = nn & random byte`.
    Rand(u8, u8),
    /// `Dxyn`: draw an `n`-row sprite at `(Vx, Vy)`.
    Display(u8, u8, u8),
    /// `Ex9E`: key-state query.
    KeyUp(u8),
    /// `ExA1`: key-state query.
    KeyDown(u8),
    /// `Fx07`: `Vx = delay`.
    GetDelay(u8),
    /// `Fx0A`: wait for a key and store it in `Vx`.
    GetKey(u8),
    /// `Fx15`: `delay = Vx`.
    SetDelay(u8),
    /// `Fx18`: `buzzer = Vx`.
    SetBuzzer(u8),
    /// `Fx1E`: `I += Vx`.
    IncrI(u8),
    /// `Fx29`: `I` = address of the font glyph for `Vx`.
    Char(u8),
    /// `Fx33`: store the decimal digits of `Vx` at `I`, `I+1`, `I+2`.
    Decimal(u8),
    /// `Fx55`: store `V0..=Vx` at `I`.
    Save(u8),
    /// `Fx65`: load `V0..=Vx` from `I`.
    Load(u8),
    /// Any word that matches none of the above.
    Unknown,
}

/// The top nibble of an opcode word: its family.
pub open spec fn family(w: u16) -> u16 {
    w / 0x1000
}

/// Bits 8 to 11: the `x` operand.
pub open spec fn field_x(w: u16) -> u8 {
    ((w / 0x100) % 0x10) as u8
}

/// Bits 4 to 7: the `y` operand.
pub open spec fn field_y(w: u16) -> u8 {
    ((w / 0x10) % 0x10) as u8
}

/// Bits 0 to 3: the `n` operand.
pub open spec fn field_n(w: u16) -> u8 {
    (w % 0x10) as u8
}

/// Bits 0 to 7: the `nn` operand.
pub open spec fn field_nn(w: u16) -> u8 {
    (w % 0x100) as u8
}

/// Bits 0 to 11: the `nnn` operand.
pub open spec fn field_nnn(w: u16) -> u16 {
    w % 0x1000
}

/// The instruction that an opcode word stands for.
pub open spec fn decode_spec(w: u16) -> Chip8Instr {
    let (x, y, n, nn, nnn) = (field_x(w), field_y(w), field_n(w), field_nn(w), field_nnn(w));
    let f = family(w);
    if f == 0 {
        if w == 0x00E0 {
            Chip8Instr::Clear
        } else if w == 0x00EE {
            Chip8Instr::Return
        } else {
            Chip8Instr::Unknown
        }
    } else if f == 1 {
        Chip8Instr::Jump(nnn)
    } else if f == 2 {
        Chip8Instr::Call(nnn)
    } else if f == 3 {
        Chip8Instr::IfNE(x, nn)
    } else if f == 4 {
        Chip8Instr::IfE(x, nn)
    } else if f == 5 {
        Chip8Instr::IfRNE(x, y)
    } else if f == 6 {
        Chip8Instr::SetImm(x, nn)
    } else if f == 7 {
        Chip8Instr::Add(x, nn)
    } else if f == 8 {
        if n == 0 {
            Chip8Instr::SetR(x, y)
        } else if n < 4 {
            Chip8Instr::BitOp(x, y, n)
        } else if n == 6 || n == 0xE {
            Chip8Instr::ShiftOp(x, y, n)
        } else if n == 4 || n == 5 || n == 7 {
            Chip8Instr::ArithmOp(x, y, n)
        } else {
            Chip8Instr::Unknown
        }
    } else if f == 9 {
        Chip8Instr::IfRE(x, y)
    } else if f == 0xA {
        Chip8Instr::SetI(nnn)
    } else if f == 0xB {
        Chip8Instr::JumpOff(nnn)
    } else if f == 0xC {
        Chip8Instr::Rand(x, nn)
    } else if f == 0xD {
        Chip8Instr::Display(x, y, n)
    } else if f == 0xE {
        if nn == 0x9E {
            Chip8Instr::KeyUp(x)
        } else if nn == 0xA1 {
            Chip8Instr::KeyDown(x)
        } else {
            Chip8Instr::Unknown
        }
    } else if nn == 0x07 {
        Chip8Instr::GetDelay(x)
    } else if nn == 0x0A {
        Chip8Instr::GetKey(x)
    } else if nn == 0x15 {
        Chip8Instr::SetDelay(x)
    } else if nn == 0x18 {
        Chip8Instr::SetBuzzer(x)
    } else if nn == 0x1E {
        Chip8Instr::IncrI(x)
    } else if nn == 0x29 {
        Chip8Instr::Char(x)
    } else if nn == 0x33 {
        Chip8Instr::Decimal(x)
    } else if nn == 0x55 {
        Chip8Instr::Save(x)
    } else if nn == 0x65 {
        Chip8Instr::Load(x)
    } else {
        Chip8Instr::Unknown
    }
}

/// Register operands are 4-bit values and addresses 12-bit values.
pub open spec fn operands_in_range(ins: Chip8Instr) -> bool {
    match ins {
        Chip8Instr::Jump(a) | Chip8Instr::Call(a) | Chip8Instr::SetI(a) | Chip8Instr::JumpOff(a) => a < 0x1000,
        Chip8Instr::IfNE(x, _) | Chip8Instr::IfE(x, _) | Chip8Instr::SetImm(x, _) | Chip8Instr::Add(x, _)
        | Chip8Instr::Rand(x, _) => x < 16,
        Chip8Instr::IfRNE(x, y) | Chip8Instr::SetR(x, y) | Chip8Instr::IfRE(x, y) => x < 16 && y < 16,
        Chip8Instr::BitOp(x, y, n) | Chip8Instr::ArithmOp(x, y, n) | Chip8Instr::ShiftOp(x, y, n)
        | Chip8Instr::Display(x, y, n) => x < 16 && y < 16 && n < 16,
        Chip8Instr::KeyUp(x) | Chip8Instr::KeyDown(x) | Chip8Instr::GetDelay(x) | Chip8Instr::GetKey(x)
        | Chip8Instr::SetDelay(x) | Chip8Instr::SetBuzzer(x) | Chip8Instr::IncrI(x) | Chip8Instr::Char(x)
        | Chip8Instr::Decimal(x) | Chip8Instr::Save(x) | Chip8Instr::Load(x) => x < 16,
        _ => true,
    }
}

/// Decodes an opcode word. Never fails: words outside the table give `Unknown`.
pub fn decode(w: u16) -> (r: Chip8Instr)
    ensures
        r == decode_spec(w),
        operands_in_range(r),
{
    let x = ((w / 0x100) % 0x10) as u8;
    let y = ((w / 0x10) % 0x10) as u8;
    let n = (w % 0x10) as u8;
    let nn = (w % 0x100) as u8;
    let nnn = w % 0x1000;
    match w / 0x1000 {
        0 => if w == 0x00E0 {
            Chip8Instr::Clear
        } else if w == 0x00EE {
            Chip8Instr::Return
        } else {
            Chip8Instr::Unknown
        },
        1 => Chip8Instr::Jump(nnn),
        2 => Chip8Instr::Call(nnn),
        3 => Chip8Instr::IfNE(x, nn),
        4 => Chip8Instr::IfE(x, nn),
        5 => Chip8Instr::IfRNE(x, y),
        6 => Chip8Instr::SetImm(x, nn),
        7 => Chip8Instr::Add(x, nn),
        8 => if n == 0 {
            Chip8Instr::SetR(x, y)
        } else if n < 4 {
            Chip8Instr::BitOp(x, y, n)
        } else if n == 6 || n == 0xE {
            Chip8Instr::ShiftOp(x, y, n)
        } else if n == 4 || n == 5 || n == 7 {
            Chip8Instr::ArithmOp(x, y, n)
        } else {
            Chip8Instr::Unknown
        },
        9 => Chip8Instr::IfRE(x, y),
        0xA => Chip8Instr::SetI(nnn),
        0xB => Chip8Instr::JumpOff(nnn),
        0xC => Chip8Instr::Rand(x, nn),
        0xD => Chip8Instr::Display(x, y, n),
        0xE => if nn == 0x9E {
            Chip8Instr::KeyUp(x)
        } else if nn == 0xA1 {
            Chip8Instr::KeyDown(x)
        } else {
            Chip8Instr::Unknown
        },
        _ => if nn == 0x07 {
            Chip8Instr::GetDelay(x)
        } else if nn == 0x0A {
            Chip8Instr::GetKey(x)
        } else if nn == 0x15 {
            Chip8Instr::SetDelay(x)
        } else if nn == 0x18 {
            Chip8Instr::SetBuzzer(x)
        } else if nn == 0x1E {
            Chip8Instr::IncrI(x)
        } else if nn == 0x29 {
            Chip8Instr::Char(x)
        } else if nn == 0x33 {
            Chip8Instr::Decimal(x)
        } else if nn == 0x55 {
            Chip8Instr::Save(x)
        } else if nn == 0x65 {
            Chip8Instr::Load(x)
        } else {
            Chip8Instr::Unknown
        },
    }
}

impl From<u16> for Chip8Instr {
    fn from(w: u16) -> (r: Chip8Instr) {
        decode(w)
    }
}

impl vstd::std_specs::convert::FromSpecImpl<u16> for Chip8Instr {
    open spec fn obeys_from_spec() -> bool {
        true
    }

    open spec fn from_spec(w: u16) -> Chip8Instr {
        decode_spec(w)
    }
}

} // verus!
