//! The instruction set: a tagged operation per 2-byte big-endian word, the
//! decoder that produces it, and the encoding that inverts it.
use vstd::prelude::*;

verus! {

/// One decoded instruction. Register operands are register indices, `u16`
/// operands are 12-bit addresses.
#[allow(non_camel_case_types)]
#[derive(Clone, Copy, Debug, PartialEq, Eq, Structural)]
pub enum Instruction {
    /// `0x00E0`: clear the framebuffer.
    ClearScreen,
    /// `0x00EE`: return from a subroutine.
    Return,
    /// `0x0000`: no effect.
    NOP,
    /// `0x1NNN`: jump to `NNN`.
    Jump(u16),
    /// `0x2NNN`: call the subroutine at `NNN`.
    Call(u16),
    /// `0x3XNN`: skip the next instruction if `VX == NN`.
    SkipIEQ(u8, u8),
    /// `0x4XNN`: skip the next instruction if `VX != NN`.
    SkipINEQ(u8, u8),
    /// `0x5XY_`: skip the next instruction if `VX == VY`.
    SkipREQ(u8, u8),
    /// `0x9XY_`: skip the next instruction if `VX != VY`.
    SkipRNEQ(u8, u8),
    /// `0x6XNN`: `VX := NN`.
    SetRI(u8, u8),
    /// `0x7XNN`: `VX := VX + NN` modulo 256, flags untouched.
    AddRI(u8, u8),
    /// `0x8XY0`: `VX := VY`.
    SetRR(u8, u8),
    /// `0x8XY1`: `VX := VX | VY`.
    OrRR(u8, u8),
    /// `0x8XY2`: `VX := VX & VY`.
    AndRR(u8, u8),
    /// `0x8XY3`: `VX := VX ^ VY`.
    XorRR(u8, u8),
    /// `0x8XY4`: `VX := VX + VY` modulo 256, `VF` := carry.
    AddRR(u8, u8),
    /// `0x8XY5`: `VX := VX - VY` modulo 256, `VF` := no borrow.
    SubAB(u8, u8),
    /// `0x8XY6`: `VF` := low bit of `VX`, then `VX := VX >> 1`.
    ShiftRightRR(u8, u8),
    /// `0x8XY7`: `VX := VY - VX` modulo 256, `VF` := no borrow.
    SubBA(u8, u8),
    /// `0x8XYE`: `VF` := high bit of `VX`, then `VX := VX << 1`.
    ShiftLeftRR(u8, u8),
    /// `0xANNN`: `I := NNN`.
    SetX(u16),
    /// `0xBNNN`: jump to `V0 + NNN`.
    JumpOffset(u16),
    /// `0xCXNN`: `VX := random & NN`.
    Random(u8, u8),
    /// `0xDXYN`: draw an `N`-row sprite from `I` at `(VX, VY)`.
    Draw(u8, u8, u8),
    /// `0xEX9E`: skip the next instruction if key `VX & 0xF` is pressed.
    SkipKeyEQ(u8),
    /// `0xEXA1`: skip the next instruction if key `VX & 0xF` is released.
    SkipKeyNEQ(u8),
    /// `0xFX07`: `VX := delay timer`.
    SetRDelay(u8),
    /// `0xFX15`: `delay timer := VX`.
    SetDelayR(u8),
    /// `0xFX18`: `sound timer := VX`.
    SetSoundR(u8),
    /// `0xFX1E`: `I := I + VX`, `VF := 1` when `I` passes `0xFFF`.
    AddXR(u8),
    /// `0xFX0A`: wait for a key press and store its index in `VX`.
    GetKey(u8),
    /// `0xFX29`: `I :=` address of the glyph of digit `VX & 0xF`.
    SetXFontR(u8),
    /// `0xFX33`: store the decimal digits of `VX` at `I`, `I+1`, `I+2`.
    StoreDecimalR(u8),
    /// `0xFX55`: store `V0..=VX` at `I..=I+X`.
    Store(u8),
    /// `0xFX65`: load `V0..=VX` from `I..=I+X`.
    Load(u8),
    /// A word that matches no instruction, kept as its two bytes.
    Data(u8, u8),
}

/// The high nibble of a byte.
pub open spec fn hi(b: u8) -> u8 {
    (b / 16) as u8
}

/// The low nibble of a byte.
pub open spec fn lo(b: u8) -> u8 {
    (b % 16) as u8
}

/// The 12-bit address held by the low nibble of the first byte and the second byte.
pub open spec fn addr12(b0: u8, b1: u8) -> u16 {
    (lo(b0) * 256 + b1) as u16
}

/// What the word `b0 b1` (big-endian) decodes to.
pub open spec fn decode_spec(b0: u8, b1: u8) -> Instruction {
    let x = lo(b0);
    let y = hi(b1);
    let n = lo(b1);
    let nnn = addr12(b0, b1);
    match hi(b0) {
        0x0 => if b1 == 0xE0 {
            Instruction::ClearScreen
        } else if b1 == 0xEE {
            Instruction::Return
        } else if b1 == 0x00 {
            Instruction::NOP
        } else {
            Instruction::Data(b0, b1)
        },
        0x1 => Instruction::Jump(nnn),
        0x2 => Instruction::Call(nnn),
        0x3 => Instruction::SkipIEQ(x, b1),
        0x4 => Instruction::SkipINEQ(x, b1),
        0x5 => Instruction::SkipREQ(x, y),
        0x6 => Instruction::SetRI(x, b1),
        0x7 => Instruction::AddRI(x, b1),
        0x8 => if n == 0x0 {
            Instruction::SetRR(x, y)
        } else if n == 0x1 {
            Instruction::OrRR(x, y)
        } else if n == 0x2 {
            Instruction::AndRR(x, y)
        } else if n == 0x3 {
            Instruction::XorRR(x, y)
        } else if n == 0x4 {
            Instruction::AddRR(x, y)
        } else if n == 0x5 {
            Instruction::SubAB(x, y)
        } else if n == 0x6 {
            Instruction::ShiftRightRR(x, y)
        } else if n == 0x7 {
            Instruction::SubBA(x, y)
        } else if n == 0xE {
            Instruction::ShiftLeftRR(x, y)
        } else {
            Instruction::Data(b0, b1)
        },
        0x9 => Instruction::SkipRNEQ(x, y),
        0xA => Instruction::SetX(nnn),
        0xB => Instruction::JumpOffset(nnn),
        0xC => Instruction::Random(x, b1),
        0xD => Instruction::Draw(x, y, n),
        0xE => if b1 == 0x9E {
            Instruction::SkipKeyEQ(x)
        } else if b1 == 0xA1 {
            Instruction::SkipKeyNEQ(x)
        } else {
            Instruction::Data(b0, b1)
        },
        _ => if b1 == 0x07 {
            Instruction::SetRDelay(x)
        } else if b1 == 0x15 {
            Instruction::SetDelayR(x)
        } else if b1 == 0x18 {
            Instruction::SetSoundR(x)
        } else if b1 == 0x1E {
            Instruction::AddXR(x)
        } else if b1 == 0x0A {
            Instruction::GetKey(x)
        } else if b1 == 0x29 {
            Instruction::SetXFontR(x)
        } else if b1 == 0x33 {
            Instruction::StoreDecimalR(x)
        } else if b1 == 0x55 {
            Instruction::Store(x)
        } else if b1 == 0x65 {
            Instruction::Load(x)
        } else {
            Instruction::Data(b0, b1)
        },
    }
}

/// The word made of the nibbles `a b c d`, as two bytes.
pub open spec fn word(a: int, b: int, c: int, d: int) -> (u8, u8) {
    ((a * 16 + b) as u8, (c * 16 + d) as u8)
}

/// The word made of nibble `a` and the 12-bit address `nnn`.
pub open spec fn word_addr(a: int, nnn: u16) -> (u8, u8) {
    ((a * 16 + nnn / 256) as u8, (nnn % 256) as u8)
}

/// The word made of nibbles `a b` and the byte `nn`.
pub open spec fn word_byte(a: int, b: int, nn: u8) -> (u8, u8) {
    ((a * 16 + b) as u8, nn)
}

/// The 2-byte encoding of an instruction.
pub open spec fn encode(ins: Instruction) -> (u8, u8) {
    match ins {
        Instruction::ClearScreen => (0x00, 0xE0),
        Instruction::Return => (0x00, 0xEE),
        Instruction::NOP => (0x00, 0x00),
        Instruction::Jump(a) => word_addr(0x1, a),
        Instruction::Call(a) => word_addr(0x2, a),
        Instruction::SkipIEQ(x, nn) => word_byte(0x3, x as int, nn),
        Instruction::SkipINEQ(x, nn) => word_byte(0x4, x as int, nn),
        Instruction::SkipREQ(x, y) => word(0x5, x as int, y as int, 0x0),
        Instruction::SkipRNEQ(x, y) => word(0x9, x as int, y as int, 0x0),
        Instruction::SetRI(x, nn) => word_byte(0x6, x as int, nn),
        Instruction::AddRI(x, nn) => word_byte(0x7, x as int, nn),
        Instruction::SetRR(x, y) => word(0x8, x as int, y as int, 0x0),
        Instruction::OrRR(x, y) => word(0x8, x as int, y as int, 0x1),
        Instruction::AndRR(x, y) => word(0x8, x as int, y as int, 0x2),
        Instruction::XorRR(x, y) => word(0x8, x as int, y as int, 0x3),
        Instruction::AddRR(x, y) => word(0x8, x as int, y as int, 0x4),
        Instruction::SubAB(x, y) => word(0x8, x as int, y as int, 0x5),
        Instruction::ShiftRightRR(x, y) => word(0x8, x as int, y as int, 0x6),
        Instruction::SubBA(x, y) => word(0x8, x as int, y as int, 0x7),
        Instruction::ShiftLeftRR(x, y) => word(0x8, x as int, y as int, 0xE),
        Instruction::SetX(a) => word_addr(0xA, a),
        Instruction::JumpOffset(a) => word_addr(0xB, a),
        Instruction::Random(x, nn) => word_byte(0xC, x as int, nn),
        Instruction::Draw(x, y, n) => word(0xD, x as int, y as int, n as int),
        Instruction::SkipKeyEQ(x) => word_byte(0xE, x as int, 0x9E),
        Instruction::SkipKeyNEQ(x) => word_byte(0xE, x as int, 0xA1),
        Instruction::SetRDelay(x) => word_byte(0xF, x as int, 0x07),
        Instruction::SetDelayR(x) => word_byte(0xF, x as int, 0x15),
        Instruction::SetSoundR(x) => word_byte(0xF, x as int, 0x18),
        Instruction::AddXR(x) => word_byte(0xF, x as int, 0x1E),
        Instruction::GetKey(x) => word_byte(0xF, x as int, 0x0A),
        Instruction::SetXFontR(x) => word_byte(0xF, x as int, 0x29),
        Instruction::StoreDecimalR(x) => word_byte(0xF, x as int, 0x33),
        Instruction::Store(x) => word_byte(0xF, x as int, 0x55),
        Instruction::Load(x) => word_byte(0xF, x as int, 0x65),
        Instruction::Data(b0, b1) => (b0, b1),
    }
}

/// The operands of an instruction fit their fields (registers and `N` in a
/// nibble, addresses in 12 bits), and a `Data` word matches no instruction.
pub open spec fn well_formed(ins: Instruction) -> bool {
    match ins {
        Instruction::ClearScreen | Instruction::Return | Instruction::NOP => true,
        Instruction::Jump(a) | Instruction::Call(a) | Instruction::SetX(a)
        | Instruction::JumpOffset(a) => a < 0x1000,
        Instruction::SkipIEQ(x, _) | Instruction::SkipINEQ(x, _) | Instruction::SetRI(x, _)
        | Instruction::AddRI(x, _) | Instruction::Random(x, _) => x < 16,
        Instruction::SkipREQ(x, y) | Instruction::SkipRNEQ(x, y) | Instruction::SetRR(x, y)
        | Instruction::OrRR(x, y) | Instruction::AndRR(x, y) | Instruction::XorRR(x, y)
        | Instruction::AddRR(x, y) | Instruction::SubAB(x, y) | Instruction::ShiftRightRR(x, y)
        | Instruction::SubBA(x, y) | Instruction::ShiftLeftRR(x, y) => x < 16 && y < 16,
        Instruction::Draw(x, y, n) => x < 16 && y < 16 && n < 16,
        Instruction::SkipKeyEQ(x) | Instruction::SkipKeyNEQ(x) | Instruction::SetRDelay(x)
        | Instruction::SetDelayR(x) | Instruction::SetSoundR(x) | Instruction::AddXR(x)
        | Instruction::GetKey(x) | Instruction::SetXFontR(x) | Instruction::StoreDecimalR(x)
        | Instruction::Store(x) | Instruction::Load(x) => x < 16,
        Instruction::Data(b0, b1) => decode_spec(b0, b1) == Instruction::Data(b0, b1),
    }
}

pub(crate) proof fn lemma_nibbles(b: u8)
    by (bit_vector)
    ensures
        (b & 0xF0) >> 4 == b / 16,
        b & 0x0F == b % 16,
{
}

pub(crate) proof fn lemma_address(l: u16, b: u16)
    by (bit_vector)
    requires
        l < 16,
        b < 256,
    ensures
        (l << 8) | b == l * 256 + b,
{
}

/// Every decoded word is well formed; in particular every `Data` word that the
/// decoder hands out matches no instruction.
pub proof fn lemma_decode_well_formed(b0: u8, b1: u8)
    ensures
        well_formed(decode_spec(b0, b1)),
{
}

/// Decoding the encoding of a well-formed instruction gives the instruction back.
pub proof fn lemma_decode_encode(ins: Instruction)
    requires
        well_formed(ins),
    ensures
        decode_spec(encode(ins).0, encode(ins).1) == ins,
{
}

} // verus!
