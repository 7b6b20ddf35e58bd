use vstd::prelude::*;

verus! {

/// A register number, `0` to `15`; register `15` (VF) also holds the flag.
pub type Register = usize;

/// One decoded instruction word.
///
/// `NNN` stands for a 12-bit address, `NN` for an 8-bit constant, `N` for a
/// 4-bit constant, and `X`, `Y` for register numbers.
#[derive(Clone, Copy, Debug, PartialEq, Eq, Structural)]
pub enum Instruction {
    /// `00E0`: clear the display.
    Clear,
    /// `00EE`: return from a subroutine.
    Return,
    /// `1NNN`: jump to `NNN`.
    JumpTo(u16),
    /// `2NNN`: call the subroutine at `NNN`.
    Call(u16),
    /// `3XNN`: skip the next instruction if `VX == NN`.
    SkipEq(Register, u8),
    /// `4XNN`: skip the next instruction if `VX != NN`.
    SkipNotEq(Register, u8),
    /// `5XY0`: skip the next instruction if `VX == VY`.
    SkipEqXY(Register, Register),
    /// `6XNN`: `VX = NN`.
    SetRegister(Register, u8),
    /// `7XNN`: `VX += NN`, modulo 256, flag untouched.
    AddX(Register, u8),
    /// `8XY0`: `VX = VY`.
    AssignXY(Register, Register),
    /// `8XY1`: `VX |= VY`.
    OrXY(Register, Register),
    /// `8XY2`: `VX &= VY`.
    AndXY(Register, Register),
    /// `8XY3`: `VX ^= VY`.
    XorXY(Register, Register),
    /// `8XY4`: `VX += VY` modulo 256; the flag is 1 on a carry, else 0.
    AddXY(Register, Register),
    /// `8XY5`: `VX -= VY` modulo 256 (wrapping, never clamped); the flag is
    /// 0 on a borrow, else 1.
    SubXY(Register, Register),
    /// `8XY6`: `VX >>= 1`, flag takes the bit shifted out.
    ShiftRightX1(Register),
    /// `8XY7`: `VX = VY - VX` modulo 256 (wrapping, never clamped); the flag
    /// is 0 on a borrow, else 1.
    SubYX(Register, Register),
    /// `8XYE`: `VX <<= 1`, flag takes the bit shifted out.
    ShiftLeftX1(Register),
    /// `9XY0`: skip the next instruction if `VX != VY`.
    SkipNotEqXY(Register, Register),
    /// `ANNN`: `I = NNN`.
    SetIR(u16),
    /// `BNNN`: jump to `V0 + NNN`; always `V0`, whatever the top digit of
    /// `NNN`.
    Flow(u16),
    /// `CXNN`: `VX = random & NN`.
    RandX(Register, u8),
    /// `DXYN`: draw the `N`-row sprite at `I` at position `(VX, VY)`.
    Draw(Register, Register, u8),
    /// `EX9E`: skip the next instruction if key `VX` is pressed.
    KeyPressedX(Register),
    /// `EXA1`: skip the next instruction if key `VX` is not pressed.
    KeyNotPressedX(Register),
    /// `FX07`: `VX = delay timer`.
    TimerX(Register),
    /// `FX0A`: wait for a key press and store its number in `VX`; with no
    /// key down the program counter stays, so the wait is re-executed.
    KeyPressX(Register),
    /// `FX15`: `delay timer = VX`.
    SetDelayTimer(Register),
    /// `FX18`: `sound timer = VX`.
    SetSoundTimer(Register),
    /// `FX1E`: `I += VX`.
    MemAdd(Register),
    /// `FX29`: `I` = address of the font glyph for digit `VX`.
    SpriteX(Register),
    /// `FX33`: store the decimal digits of `VX` at `I`, `I + 1`, `I + 2`.
    BCD(Register),
    /// `FX55`: store `V0` to `VX` in memory from `I` on; `I` stays.
    DumpX(Register),
    /// `FX65`: load `V0` to `VX` from memory from `I` on; `I` stays.
    LoadX(Register),
    /// Any word with no instruction assigned to it.
    Invalid,
}

impl Instruction {
    /// Register numbers are below 16, addresses below 4096 and sprite
    /// heights below 16: what every decoded instruction satisfies.
    pub open spec fn operands_in_range(self) -> bool {
        match self {
            Instruction::JumpTo(n) | Instruction::Call(n) | Instruction::SetIR(n)
            | Instruction::Flow(n) => n < 0x1000,
            Instruction::SkipEq(x, _) | Instruction::SkipNotEq(x, _)
            | Instruction::SetRegister(x, _) | Instruction::AddX(x, _)
            | Instruction::RandX(x, _) => x < 16,
            Instruction::SkipEqXY(x, y) | Instruction::AssignXY(x, y)
            | Instruction::OrXY(x, y) | Instruction::AndXY(x, y)
            | Instruction::XorXY(x, y) | Instruction::AddXY(x, y)
            | Instruction::SubXY(x, y) | Instruction::SubYX(x, y)
            | Instruction::SkipNotEqXY(x, y) => x < 16 && y < 16,
            Instruction::Draw(x, y, n) => x < 16 && y < 16 && n < 16,
            Instruction::ShiftRightX1(x) | Instruction::ShiftLeftX1(x)
            | Instruction::KeyPressedX(x) | Instruction::KeyNotPressedX(x)
            | Instruction::TimerX(x) | Instruction::KeyPressX(x)
            | Instruction::SetDelayTimer(x) | Instruction::SetSoundTimer(x)
            | Instruction::MemAdd(x) | Instruction::SpriteX(x) | Instruction::BCD(x)
            | Instruction::DumpX(x) | Instruction::LoadX(x) => x < 16,
            Instruction::Clear | Instruction::Return | Instruction::Invalid => true,
        }
    }
}

/// The top hex digit of a word: its instruction family.
pub open spec fn family(w: u16) -> u16 {
    w / 0x1000
}

/// The second hex digit of a word: the `X` register.
pub open spec fn x_of(w: u16) -> usize {
    ((w / 0x100) % 16) as usize
}

/// The third hex digit of a word: the `Y` register.
pub open spec fn y_of(w: u16) -> usize {
    ((w / 0x10) % 16) as usize
}

/// The low hex digit of a word.
pub open spec fn low_digit(w: u16) -> u16 {
    w % 16
}

/// The low byte of a word: `NN`.
pub open spec fn low_byte(w: u16) -> u8 {
    (w % 0x100) as u8
}

/// The low twelve bits of a word: `NNN`.
pub open spec fn address_of(w: u16) -> u16 {
    w % 0x1000
}

/// The instruction that a word stands for. Families `0`, `5`, `8` and `9`
/// are told apart by the low digit, families `E` and `F` by the low byte.
pub open spec fn decoded(w: u16) -> Instruction {
    let x = x_of(w);
    let y = y_of(w);
    let low = low_digit(w);
    let nn = low_byte(w);
    if w == 0x00E0 {
        Instruction::Clear
    } else if w == 0x00EE {
        Instruction::Return
    } else {
        match family(w) {
            1 => Instruction::JumpTo(address_of(w)),
            2 => Instruction::Call(address_of(w)),
            3 => Instruction::SkipEq(x, nn),
            4 => Instruction::SkipNotEq(x, nn),
            5 => if low == 0 { Instruction::SkipEqXY(x, y) } else { Instruction::Invalid },
            6 => Instruction::SetRegister(x, nn),
            7 => Instruction::AddX(x, nn),
            8 => match low {
                0 => Instruction::AssignXY(x, y),
                1 => Instruction::OrXY(x, y),
                2 => Instruction::AndXY(x, y),
                3 => Instruction::XorXY(x, y),
                4 => Instruction::AddXY(x, y),
                5 => Instruction::SubXY(x, y),
                6 => Instruction::ShiftRightX1(x),
                7 => Instruction::SubYX(x, y),
                0xE => Instruction::ShiftLeftX1(x),
                _ => Instruction::Invalid,
            },
            9 => if low == 0 { Instruction::SkipNotEqXY(x, y) } else { Instruction::Invalid },
            0xA => Instruction::SetIR(address_of(w)),
            0xB => Instruction::Flow(address_of(w)),
            0xC => Instruction::RandX(x, nn),
            0xD => Instruction::Draw(x, y, low as u8),
            0xE => match nn {
                0x9E => Instruction::KeyPressedX(x),
                0xA1 => Instruction::KeyNotPressedX(x),
                _ => Instruction::Invalid,
            },
            0xF => match nn {
                0x07 => Instruction::TimerX(x),
                0x0A => Instruction::KeyPressX(x),
                0x15 => Instruction::SetDelayTimer(x),
                0x18 => Instruction::SetSoundTimer(x),
                0x1E => Instruction::MemAdd(x),
                0x29 => Instruction::SpriteX(x),
                0x33 => Instruction::BCD(x),
                0x55 => Instruction::DumpX(x),
                0x65 => Instruction::LoadX(x),
                _ => Instruction::Invalid,
            },
            _ => Instruction::Invalid,
        }
    }
}

proof fn lemma_fields(w: u16)
    ensures
        (w & 0xF000) >> 12u16 == w / 0x1000,
        (w & 0x0F00) >> 8u16 == (w / 0x100) % 16,
        (w & 0x00F0) >> 4u16 == (w / 0x10) % 16,
        w & 0x000F == w % 16,
        w & 0x00FF == w % 0x100,
        w & 0x0FFF == w % 0x1000,
        w / 0x1000 < 16,
{
    assert((w & 0xF000) >> 12u16 == w / 0x1000) by (bit_vector);
    assert((w & 0x0F00) >> 8u16 == (w / 0x100) % 16) by (bit_vector);
    assert((w & 0x00F0) >> 4u16 == (w / 0x10) % 16) by (bit_vector);
    assert(w & 0x000F == w % 16) by (bit_vector);
    assert(w & 0x00FF == w % 0x100) by (bit_vector);
    assert(w & 0x0FFF == w % 0x1000) by (bit_vector);
}

/// The `X` register number of an instruction word.
pub fn extract_x(opcode: u16) -> (r: Register)
    ensures
        r == x_of(opcode),
        r < 16,
{
    proof { lemma_fields(opcode); }
    ((opcode & 0x0F00) >> 8) as usize
}

/// The `Y` register number of an instruction word.
pub fn extract_y(opcode: u16) -> (r: Register)
    ensures
        r == y_of(opcode),
        r < 16,
{
    proof { lemma_fields(opcode); }
    ((opcode & 0x00F0) >> 4) as usize
}

/// Decodes one instruction word. Every word decodes, the ones with no
/// instruction assigned to them as `Invalid`.
pub fn decode(opcode: u16) -> (r: Instruction)
    ensures
        r == decoded(opcode),
        r.operands_in_range(),
{
    proof { lemma_fields(opcode); }
    if opcode == 0x00E0 {
        return Instruction::Clear;
    }
    if opcode == 0x00EE {
        return Instruction::Return;
    }
    let class = (opcode & 0xF000) >> 12;
    let selector = opcode & 0x000F;
    let nn = (opcode & 0x00FF) as u8;
    let nnn = opcode & 0x0FFF;
    let x = extract_x(opcode);
    let y = extract_y(opcode);
    match (class, selector) {
        (1, _) => Instruction::JumpTo(nnn),
        (2, _) => Instruction::Call(nnn),
        (3, _) => Instruction::SkipEq(x, nn),
        (4, _) => Instruction::SkipNotEq(x, nn),
        (5, 0) => Instruction::SkipEqXY(x, y),
        (6, _) => Instruction::SetRegister(x, nn),
        (7, _) => Instruction::AddX(x, nn),
        (8, 0) => Instruction::AssignXY(x, y),
        (8, 1) => Instruction::OrXY(x, y),
        (8, 2) => Instruction::AndXY(x, y),
        (8, 3) => Instruction::XorXY(x, y),
        (8, 4) => Instruction::AddXY(x, y),
        (8, 5) => Instruction::SubXY(x, y),
        (8, 6) => Instruction::ShiftRightX1(x),
        (8, 7) => Instruction::SubYX(x, y),
        (8, 0xE) => Instruction::ShiftLeftX1(x),
        (9, 0) => Instruction::SkipNotEqXY(x, y),
        (0xA, _) => Instruction::SetIR(nnn),
        (0xB, _) => Instruction::Flow(nnn),
        (0xC, _) => Instruction::RandX(x, nn),
        (0xD, _) => Instruction::Draw(x, y, selector as u8),
        (0xE, _) => match nn {
            0x9E => Instruction::KeyPressedX(x),
            0xA1 => Instruction::KeyNotPressedX(x),
            _ => Instruction::Invalid,
        },
        (0xF, _) => match nn {
            0x07 => Instruction::TimerX(x),
            0x0A => Instruction::KeyPressX(x),
            0x15 => Instruction::SetDelayTimer(x),
            0x18 => Instruction::SetSoundTimer(x),
            0x1E => Instruction::MemAdd(x),
            0x29 => Instruction::SpriteX(x),
            0x33 => Instruction::BCD(x),
            0x55 => Instruction::DumpX(x),
            0x65 => Instruction::LoadX(x),
            _ => Instruction::Invalid,
        },
        _ => Instruction::Invalid,
    }
}

} // verus!
