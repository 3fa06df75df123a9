//! The machine state and the fetch-decode-execute engine.
use crate::instruction::{
    Instruction, addr12, decode_spec, lemma_address, lemma_decode_well_formed, lemma_nibbles,
    well_formed,
};
use rand::Rng;
use vstd::prelude::*;

verus! {

const HIGH_MASK: u8 = 0xF0;
const LOW_MASK: u8 = 0x0F;
/// Number of framebuffer rows.
pub const DISPLAY_HEIGHT: usize = 32;
/// Number of framebuffer columns.
pub const DISPLAY_WIDTH: usize = 64;
/// Number of framebuffer cells.
pub const DISPLAY_BUFFER: usize = DISPLAY_HEIGHT * DISPLAY_WIDTH;
/// Bytes of addressable memory.
pub const MEMORY_SIZE: usize = 4096;
/// Address at which programs are loaded and start.
pub const PROGRAM_START: usize = 0x200;
/// Address of the glyph of digit 0; the glyph of digit `d` starts at `FONT_START + 5 * d`.
pub const FONT_START: usize = 0x50;
/// Capacity of the call stack.
pub const STACK_SIZE: usize = 48;

/// The CHIP-8 machine.
pub struct CPU {
    memory: [u8; 4096],
    pc: usize,
    stack: [usize; 48],
    sp: usize,
    index_register: u16,
    /// Delay timer; the caller decrements it at its own cadence.
    pub delay_timer: u8,
    /// Sound timer.
    pub sound_timer: u8,
    general_registers: [u8; 16],
    /// Framebuffer, row-major, one cell per pixel, 0 or 1.
    pub display: [u8; DISPLAY_BUFFER],
    /// Press state of keys `0x0..=0xF`: 0 released, anything else pressed.
    pub keys: [u8; 16],
}

/// The mathematical state of a machine.
#[verifier::ext_equal]
pub struct Machine {
    pub memory: Seq<u8>,
    pub pc: usize,
    pub stack: Seq<usize>,
    pub sp: usize,
    pub index: u16,
    pub delay: u8,
    pub sound: u8,
    pub registers: Seq<u8>,
    pub display: Seq<u8>,
    pub keys: Seq<u8>,
}

/// Why an instruction cannot run.
#[derive(Clone, Copy, Debug, PartialEq, Eq, Structural)]
pub enum Fault {
    /// The program counter leaves no room for a 2-byte fetch.
    PcOutOfRange(usize),
    /// The fetched word is no instruction.
    Unrecognized(u8, u8),
    /// A call with a full stack.
    StackOverflow,
    /// A return with an empty stack.
    StackUnderflow,
    /// An access through the index register past the end of memory.
    IndexOutOfRange(u16),
    /// Adding to the index register overflows 16 bits.
    IndexOverflow,
}

/// The 80 bytes of the built-in glyphs for hexadecimal digits `0..=F`.
pub open spec fn font() -> Seq<u8> {
    seq![
        0xF0, 0x90, 0x90, 0x90, 0xF0,
        0x20, 0x60, 0x20, 0x20, 0x70,
        0xF0, 0x10, 0xF0, 0x80, 0xF0,
        0xF0, 0x10, 0xF0, 0x10, 0xF0,
        0x90, 0x90, 0xF0, 0x10, 0x10,
        0xF0, 0x80, 0xF0, 0x10, 0xF0,
        0xF0, 0x80, 0xF0, 0x90, 0xF0,
        0xF0, 0x10, 0x20, 0x40, 0x40,
        0xF0, 0x90, 0xF0, 0x90, 0xF0,
        0xF0, 0x90, 0xF0, 0x10, 0xF0,
        0xF0, 0x90, 0xF0, 0x90, 0x90,
        0xE0, 0x90, 0xE0, 0x90, 0xE0,
        0xF0, 0x80, 0x80, 0x80, 0xF0,
        0xE0, 0x90, 0x90, 0x90, 0xE0,
        0xF0, 0x80, 0xF0, 0x80, 0xF0,
        0xF0, 0x80, 0xF0, 0x80, 0x80,
    ]
}

/// Memory of a fresh machine: zero but for the glyph table.
pub open spec fn initial_memory() -> Seq<u8> {
    Seq::new(
        4096,
        |i: int|
            if FONT_START <= i < FONT_START + 80 {
                font()[i - FONT_START]
            } else {
                0u8
            },
    )
}

/// A fresh machine: everything zero but the glyph table.
pub open spec fn initial_machine() -> Machine {
    Machine {
        memory: initial_memory(),
        pc: 0,
        stack: Seq::new(48, |i: int| 0usize),
        sp: 0,
        index: 0,
        delay: 0,
        sound: 0,
        registers: Seq::new(16, |i: int| 0u8),
        display: Seq::new(DISPLAY_BUFFER as nat, |i: int| 0u8),
        keys: Seq::new(16, |i: int| 0u8),
    }
}


/// Register `r` of machine `m`.
pub open spec fn reg(m: Machine, r: u8) -> u8 {
    m.registers[r as int]
}

/// `m` with register `r` set to `v`.
pub open spec fn set_reg(m: Machine, r: u8, v: u8) -> Machine {
    Machine { registers: m.registers.update(r as int, v), ..m }
}

/// `m` with the next instruction skipped when `c` holds.
pub open spec fn skip_if(m: Machine, c: bool) -> Machine {
    if c {
        Machine { pc: (m.pc + 2) as usize, ..m }
    } else {
        m
    }
}

/// The smaller of two integers.
pub open spec fn min(a: int, b: int) -> int {
    if a <= b {
        a
    } else {
        b
    }
}

/// Whether bit `k` of a sprite row is set, bit 0 being the leftmost (most significant).
pub open spec fn sprite_bit(row: u8, k: int) -> bool {
    (row >> ((7 - k) as u8)) & 1u8 == 1u8
}

/// Left column of a sprite drawn with `Draw(a, _, _)`.
pub open spec fn draw_x(m: Machine, a: u8) -> int {
    reg(m, a) as int % DISPLAY_WIDTH as int
}

/// Top row of a sprite drawn with `Draw(_, b, _)`.
pub open spec fn draw_y(m: Machine, b: u8) -> int {
    reg(m, b) as int % DISPLAY_HEIGHT as int
}

/// Rows of an `n`-row sprite left after clipping at the bottom edge.
pub open spec fn draw_rows(m: Machine, b: u8, n: u8) -> int {
    min(n as int, DISPLAY_HEIGHT - draw_y(m, b))
}

/// Columns of a sprite left after clipping at the right edge.
pub open spec fn draw_cols(m: Machine, a: u8) -> int {
    min(8, DISPLAY_WIDTH - draw_x(m, a))
}

/// Whether pixel `(r, c)` (row, column) lies under a set bit of the sprite of `Draw(a, b, n)`.
pub open spec fn hit(m: Machine, a: u8, b: u8, n: u8, r: int, c: int) -> bool {
    let x = draw_x(m, a);
    let y = draw_y(m, b);
    &&& y <= r < y + draw_rows(m, b, n)
    &&& x <= c < x + draw_cols(m, a)
    &&& sprite_bit(m.memory[m.index + (r - y)], c - x)
}

/// A pixel after a set sprite bit was drawn over it.
pub open spec fn flip(p: u8) -> u8 {
    if p == 1 {
        0
    } else {
        1
    }
}

/// Whether `Draw(a, b, n)` turns off a lit pixel.
pub open spec fn collision(m: Machine, a: u8, b: u8, n: u8) -> bool {
    exists|i: int|
        0 <= i < DISPLAY_BUFFER && #[trigger] hit(m, a, b, n, i / 64, i % 64) && m.display[i] == 1
}

/// The framebuffer after `Draw(a, b, n)`.
pub open spec fn drawn(m: Machine, a: u8, b: u8, n: u8) -> Seq<u8> {
    Seq::new(
        DISPLAY_BUFFER as nat,
        |i: int|
            if hit(m, a, b, n, i / 64, i % 64) {
                flip(m.display[i])
            } else {
                m.display[i]
            },
    )
}

/// The first pressed key at or after `i`, or 16 if there is none.
pub open spec fn first_key(keys: Seq<u8>, i: int) -> int
    decreases 16 - i,
{
    if i >= 16 {
        16
    } else if keys[i] > 0 {
        i
    } else {
        first_key(keys, i + 1)
    }
}

/// Why `ins` cannot run on `m` (the state after its fetch), if it cannot.
pub open spec fn fault_spec(m: Machine, ins: Instruction) -> Option<Fault> {
    match ins {
        Instruction::Call(_) => if m.sp >= STACK_SIZE {
            Some(Fault::StackOverflow)
        } else {
            None
        },
        Instruction::Return => if m.sp == 0 {
            Some(Fault::StackUnderflow)
        } else {
            None
        },
        Instruction::Draw(_, b, n) => if m.index + draw_rows(m, b, n) > MEMORY_SIZE {
            Some(Fault::IndexOutOfRange(m.index))
        } else {
            None
        },
        Instruction::AddXR(a) => if m.index + reg(m, a) > 0xFFFF {
            Some(Fault::IndexOverflow)
        } else {
            None
        },
        Instruction::StoreDecimalR(_) => if m.index + 3 > MEMORY_SIZE {
            Some(Fault::IndexOutOfRange(m.index))
        } else {
            None
        },
        Instruction::Store(a) | Instruction::Load(a) => if m.index + a + 1 > MEMORY_SIZE {
            Some(Fault::IndexOutOfRange(m.index))
        } else {
            None
        },
        Instruction::Data(b0, b1) => Some(Fault::Unrecognized(b0, b1)),
        _ => None,
    }
}

/// The state after `ins` runs on `m` (the state after its fetch), where it can run;
/// `rnd` is the random byte that `Random` masks.
pub open spec fn execute_spec(m: Machine, ins: Instruction, rnd: u8) -> Machine {
    match ins {
        Instruction::NOP | Instruction::Data(_, _) => m,
        Instruction::ClearScreen => Machine {
            display: Seq::new(DISPLAY_BUFFER as nat, |i: int| 0u8),
            ..m
        },
        Instruction::Jump(a) => Machine { pc: a as usize, ..m },
        Instruction::Call(a) => Machine {
            stack: m.stack.update(m.sp as int, m.pc),
            sp: (m.sp + 1) as usize,
            pc: a as usize,
            ..m
        },
        Instruction::Return => Machine {
            sp: (m.sp - 1) as usize,
            pc: m.stack[m.sp - 1],
            ..m
        },
        Instruction::SkipIEQ(x, nn) => skip_if(m, reg(m, x) == nn),
        Instruction::SkipINEQ(x, nn) => skip_if(m, reg(m, x) != nn),
        Instruction::SkipREQ(x, y) => skip_if(m, reg(m, x) == reg(m, y)),
        Instruction::SkipRNEQ(x, y) => skip_if(m, reg(m, x) != reg(m, y)),
        Instruction::SetRI(x, nn) => set_reg(m, x, nn),
        Instruction::AddRI(x, nn) => set_reg(m, x, ((reg(m, x) + nn) % 256) as u8),
        Instruction::SetRR(x, y) => set_reg(m, x, reg(m, y)),
        Instruction::OrRR(x, y) => set_reg(m, x, reg(m, x) | reg(m, y)),
        Instruction::AndRR(x, y) => set_reg(m, x, reg(m, x) & reg(m, y)),
        Instruction::XorRR(x, y) => set_reg(m, x, reg(m, x) ^ reg(m, y)),
        Instruction::AddRR(x, y) => {
            let s = reg(m, x) + reg(m, y);
            set_reg(set_reg(m, x, (s % 256) as u8), 15, if s > 255 { 1 } else { 0 })
        },
        Instruction::SubAB(x, y) => set_reg(
            set_reg(m, x, ((reg(m, x) - reg(m, y) + 256) % 256) as u8),
            15,
            if reg(m, x) >= reg(m, y) { 1 } else { 0 },
        ),
        Instruction::SubBA(x, y) => set_reg(
            set_reg(m, x, ((reg(m, y) - reg(m, x) + 256) % 256) as u8),
            15,
            if reg(m, y) >= reg(m, x) { 1 } else { 0 },
        ),
        Instruction::ShiftRightRR(x, _) => {
            let m1 = set_reg(m, 15, reg(m, x) % 2);
            set_reg(m1, x, reg(m1, x) / 2)
        },
        Instruction::ShiftLeftRR(x, _) => {
            let m1 = set_reg(m, 15, if reg(m, x) >= 128 { 1 } else { 0 });
            set_reg(m1, x, ((reg(m1, x) * 2) % 256) as u8)
        },
        Instruction::SetX(a) => Machine { index: a, ..m },
        Instruction::JumpOffset(a) => Machine { pc: (reg(m, 0) + a) as usize, ..m },
        Instruction::Random(x, nn) => set_reg(m, x, rnd & nn),
        Instruction::Draw(a, b, n) => Machine {
            display: drawn(m, a, b, n),
            registers: m.registers.update(15, if collision(m, a, b, n) { 1 } else { 0 }),
            ..m
        },
        Instruction::SkipKeyEQ(x) => skip_if(m, m.keys[reg(m, x) as int % 16] > 0),
        Instruction::SkipKeyNEQ(x) => skip_if(m, m.keys[reg(m, x) as int % 16] == 0),
        Instruction::SetRDelay(x) => set_reg(m, x, m.delay),
        Instruction::SetDelayR(x) => Machine { delay: reg(m, x), ..m },
        Instruction::SetSoundR(x) => Machine { sound: reg(m, x), ..m },
        Instruction::AddXR(x) => {
            let m1 = Machine { index: (m.index + reg(m, x)) as u16, ..m };
            if m.index + reg(m, x) > 0xFFF {
                set_reg(m1, 15, 1)
            } else {
                m1
            }
        },
        Instruction::GetKey(x) => if first_key(m.keys, 0) < 16 {
            set_reg(m, x, first_key(m.keys, 0) as u8)
        } else {
            Machine { pc: (m.pc - 2) as usize, ..m }
        },
        Instruction::SetXFontR(x) => Machine {
            index: (FONT_START + 5 * (reg(m, x) % 16)) as u16,
            ..m
        },
        Instruction::StoreDecimalR(x) => Machine {
            memory: m.memory.update(m.index as int, reg(m, x) / 100).update(
                m.index + 1,
                (reg(m, x) / 10) % 10,
            ).update(m.index + 2, reg(m, x) % 10),
            ..m
        },
        Instruction::Store(x) => Machine {
            memory: Seq::new(
                MEMORY_SIZE as nat,
                |i: int|
                    if m.index <= i <= m.index + x {
                        m.registers[i - m.index]
                    } else {
                        m.memory[i]
                    },
            ),
            ..m
        },
        Instruction::Load(x) => Machine {
            registers: Seq::new(
                16,
                |i: int|
                    if i <= x {
                        m.memory[m.index + i]
                    } else {
                        m.registers[i]
                    },
            ),
            ..m
        },
    }
}

/// Whether a 2-byte fetch at the program counter stays in memory.
pub open spec fn can_fetch(m: Machine) -> bool {
    m.pc + 1 < MEMORY_SIZE
}

/// The instruction at the program counter.
pub open spec fn fetched(m: Machine) -> Instruction {
    decode_spec(m.memory[m.pc as int], m.memory[m.pc + 1])
}

/// `m` with the program counter past the fetched word.
pub open spec fn advanced(m: Machine) -> Machine {
    Machine { pc: (m.pc + 2) as usize, ..m }
}

/// Why a step from `m` cannot run, if it cannot.
pub open spec fn step_fault(m: Machine) -> Option<Fault> {
    if !can_fetch(m) {
        Some(Fault::PcOutOfRange(m.pc))
    } else {
        fault_spec(advanced(m), fetched(m))
    }
}

/// The state after one step from `m`, where it can run.
pub open spec fn step_spec(m: Machine, rnd: u8) -> Machine {
    execute_spec(advanced(m), fetched(m), rnd)
}

/// Whether pixel `(r, c)` comes before the cursor `(y + row, x + col)` in row-major order.
spec fn done(x: int, y: int, row: int, col: int, r: int, c: int) -> bool {
    r < y + row || (r == y + row && c < x + col)
}

/// Whether a lit pixel before the cursor lies under a set sprite bit.
spec fn collided_before(m: Machine, a: u8, b: u8, n: u8, row: int, col: int) -> bool {
    exists|i: int|
        0 <= i < DISPLAY_BUFFER && #[trigger] hit(m, a, b, n, i / 64, i % 64) && done(
            draw_x(m, a),
            draw_y(m, b),
            row,
            col,
            i / 64,
            i % 64,
        ) && m.display[i] == 1
}

/// The framebuffer with the pixels before the cursor drawn.
spec fn drawn_before(m: Machine, a: u8, b: u8, n: u8, row: int, col: int) -> Seq<u8> {
    Seq::new(
        DISPLAY_BUFFER as nat,
        |i: int|
            if hit(m, a, b, n, i / 64, i % 64) && done(
                draw_x(m, a),
                draw_y(m, b),
                row,
                col,
                i / 64,
                i % 64,
            ) {
                flip(m.display[i])
            } else {
                m.display[i]
            },
    )
}

/// Why a program cannot be loaded.
#[derive(Clone, Copy, Debug, PartialEq, Eq, Structural)]
pub enum LoadError {
    /// The program, of the given length, does not fit between `0x200` and the end of memory.
    TooLarge(usize),
}

/// Relies on rand's `thread_rng().gen_range(0..0xFF)`: a byte drawn from `0..0xFF`.
#[verifier::external_body]
fn random_byte() -> (r: u8)
    ensures
        r < 0xFF,
{
    rand::thread_rng().gen_range(0..0xFF)
}

proof fn lemma_shifts(v: u8)
    by (bit_vector)
    ensures
        v & 0x01 == v % 2,
        v >> 1 == v / 2,
        (v & 0x80 > 0) == (v >= 128),
        (v << 1) == (if v >= 128 { ((v - 128) * 2) as u8 } else { (v * 2) as u8 }),
{
}

/// Control flow, skips and the framebuffer clear.
spec fn is_flow(ins: Instruction) -> bool {
    matches!(ins, Instruction::NOP | Instruction::ClearScreen | Instruction::Jump(..) | Instruction::Call(..) | Instruction::Return | Instruction::SkipIEQ(..) | Instruction::SkipINEQ(..) | Instruction::SkipREQ(..) | Instruction::SkipRNEQ(..) | Instruction::JumpOffset(..) | Instruction::SkipKeyEQ(..) | Instruction::SkipKeyNEQ(..))
}

/// Register arithmetic and logic.
spec fn is_alu(ins: Instruction) -> bool {
    matches!(ins, Instruction::SetRI(..) | Instruction::AddRI(..) | Instruction::SetRR(..) | Instruction::OrRR(..) | Instruction::AndRR(..) | Instruction::XorRR(..) | Instruction::AddRR(..) | Instruction::SubAB(..) | Instruction::SubBA(..) | Instruction::ShiftRightRR(..) | Instruction::ShiftLeftRR(..) | Instruction::Random(..))
}

/// The other instructions.
spec fn is_misc(ins: Instruction) -> bool {
    !is_flow(ins) && !is_alu(ins)
}

fn is_flow_exec(ins: &Instruction) -> (r: bool)
    ensures
        r == is_flow(*ins),
{
    matches!(*ins, Instruction::NOP | Instruction::ClearScreen | Instruction::Jump(..) | Instruction::Call(..) | Instruction::Return | Instruction::SkipIEQ(..) | Instruction::SkipINEQ(..) | Instruction::SkipREQ(..) | Instruction::SkipRNEQ(..) | Instruction::JumpOffset(..) | Instruction::SkipKeyEQ(..) | Instruction::SkipKeyNEQ(..))
}

fn is_alu_exec(ins: &Instruction) -> (r: bool)
    ensures
        r == is_alu(*ins),
{
    matches!(*ins, Instruction::SetRI(..) | Instruction::AddRI(..) | Instruction::SetRR(..) | Instruction::OrRR(..) | Instruction::AndRR(..) | Instruction::XorRR(..) | Instruction::AddRR(..) | Instruction::SubAB(..) | Instruction::SubBA(..) | Instruction::ShiftRightRR(..) | Instruction::ShiftLeftRR(..) | Instruction::Random(..))
}

/// `Ok` where there is no fault, else the fault.
pub open spec fn outcome(f: Option<Fault>) -> Result<(), Fault> {
    match f {
        Some(e) => Err(e),
        None => Ok(()),
    }
}

impl View for CPU {
    type V = Machine;

    closed spec fn view(&self) -> Machine {
        Machine {
            memory: self.memory@,
            pc: self.pc,
            stack: self.stack@,
            sp: self.sp,
            index: self.index_register,
            delay: self.delay_timer,
            sound: self.sound_timer,
            registers: self.general_registers@,
            display: self.display@,
            keys: self.keys@,
        }
    }
}

impl CPU {
    /// The stack pointer never passes the stack's capacity.
    pub open spec fn wf(&self) -> bool {
        self@.sp <= STACK_SIZE
    }

    /// A fresh machine with the glyph table at `0x050..0x0A0`.
    pub fn new() -> (r: Self)
        ensures
            r.wf(),
            r@ == initial_machine(),
    {
        let mut c = CPU {
            memory: [0; 4096],
            pc: 0,
            stack: [0; 48],
            sp: 0,
            index_register: 0,
            delay_timer: 0,
            sound_timer: 0,
            general_registers: [0; 16],
            display: [0; DISPLAY_BUFFER],
            keys: [0; 16],
        };
        c.set_font();
        assert(c@ =~= initial_machine());
        c
    }

    fn set_glyph(&mut self, digit: usize, rows: [u8; 5])
        requires
            digit < 16,
        ensures
            final(self)@ == (Machine {
                memory: Seq::new(
                    4096,
                    |i: int|
                        if FONT_START + 5 * digit <= i < FONT_START + 5 * digit + 5 {
                            rows@[i - FONT_START - 5 * digit]
                        } else {
                            old(self)@.memory[i]
                        },
                ),
                ..old(self)@
            }),
    {
        let base = FONT_START + 5 * digit;
        let mut k: usize = 0;
        while k < 5
            invariant
                k <= 5,
                base == FONT_START + 5 * digit,
                digit < 16,
                self@ == (Machine {
                    memory: Seq::new(
                        4096,
                        |i: int|
                            if base <= i < base + k {
                                rows@[i - base]
                            } else {
                                old(self)@.memory[i]
                            },
                    ),
                    ..old(self)@
                }),
            decreases 5 - k,
        {
            self.memory[base + k] = rows[k];
            k = k + 1;
            assert(self@.memory =~= Seq::new(
                4096,
                |i: int|
                    if base <= i < base + k {
                        rows@[i - base]
                    } else {
                        old(self)@.memory[i]
                    },
            ));
        }
    }

    fn set_font(&mut self)
        ensures
            final(self)@ == (Machine {
                memory: Seq::new(
                    4096,
                    |i: int|
                        if FONT_START <= i < FONT_START + 80 {
                            font()[i - FONT_START]
                        } else {
                            old(self)@.memory[i]
                        },
                ),
                ..old(self)@
            }),
    {
        self.set_glyph(0, [0xF0, 0x90, 0x90, 0x90, 0xF0]);
        self.set_glyph(1, [0x20, 0x60, 0x20, 0x20, 0x70]);
        self.set_glyph(2, [0xF0, 0x10, 0xF0, 0x80, 0xF0]);
        self.set_glyph(3, [0xF0, 0x10, 0xF0, 0x10, 0xF0]);
        self.set_glyph(4, [0x90, 0x90, 0xF0, 0x10, 0x10]);
        self.set_glyph(5, [0xF0, 0x80, 0xF0, 0x10, 0xF0]);
        self.set_glyph(6, [0xF0, 0x80, 0xF0, 0x90, 0xF0]);
        self.set_glyph(7, [0xF0, 0x10, 0x20, 0x40, 0x40]);
        self.set_glyph(8, [0xF0, 0x90, 0xF0, 0x90, 0xF0]);
        self.set_glyph(9, [0xF0, 0x90, 0xF0, 0x10, 0xF0]);
        self.set_glyph(10, [0xF0, 0x90, 0xF0, 0x90, 0x90]);
        self.set_glyph(11, [0xE0, 0x90, 0xE0, 0x90, 0xE0]);
        self.set_glyph(12, [0xF0, 0x80, 0x80, 0x80, 0xF0]);
        self.set_glyph(13, [0xE0, 0x90, 0x90, 0x90, 0xE0]);
        self.set_glyph(14, [0xF0, 0x80, 0xF0, 0x80, 0xF0]);
        self.set_glyph(15, [0xF0, 0x80, 0xF0, 0x80, 0x80]);
        assert(self@.memory =~= Seq::new(
            4096,
            |i: int|
                if FONT_START <= i < FONT_START + 80 {
                    font()[i - FONT_START]
                } else {
                    old(self)@.memory[i]
                },
        ));
    }

    /// Address of the glyph of digit `char`.
    pub fn address_for_font(&self, char: u8) -> (r: usize)
        ensures
            r == FONT_START + 5 * char,
    {
        FONT_START + char as usize * 5
    }

    /// Decodes a big-endian instruction word.
    pub fn decode(&self, raw: [u8; 2]) -> (r: Instruction)
        ensures
            r == decode_spec(raw@[0], raw@[1]),
    {
        let b0 = raw[0];
        let b1 = raw[1];
        proof {
            lemma_nibbles(b0);
            lemma_nibbles(b1);
            lemma_address((b0 % 16) as u16, b1 as u16);
        }
        let opcode = (b0 & HIGH_MASK) >> 4;
        let register_a = b0 & LOW_MASK;
        let register_b = (b1 & HIGH_MASK) >> 4;
        let n = b1 & LOW_MASK;
        let nn = b1;
        let nnn = (((b0 & LOW_MASK) as u16) << 8) | b1 as u16;
        assert(nnn == addr12(b0, b1));
        match opcode {
            0x00 => match b1 {
                0xE0 => Instruction::ClearScreen,
                0xEE => Instruction::Return,
                0x00 => Instruction::NOP,
                _ => Instruction::Data(b0, b1),
            },
            0x01 => Instruction::Jump(nnn),
            0x02 => Instruction::Call(nnn),
            0x03 => Instruction::SkipIEQ(register_a, nn),
            0x04 => Instruction::SkipINEQ(register_a, nn),
            0x05 => Instruction::SkipREQ(register_a, register_b),
            0x09 => Instruction::SkipRNEQ(register_a, register_b),
            0x06 => Instruction::SetRI(register_a, nn),
            0x07 => Instruction::AddRI(register_a, nn),
            0x08 => match n {
                0x00 => Instruction::SetRR(register_a, register_b),
                0x01 => Instruction::OrRR(register_a, register_b),
                0x02 => Instruction::AndRR(register_a, register_b),
                0x03 => Instruction::XorRR(register_a, register_b),
                0x04 => Instruction::AddRR(register_a, register_b),
                0x05 => Instruction::SubAB(register_a, register_b),
                0x06 => Instruction::ShiftRightRR(register_a, register_b),
                0x07 => Instruction::SubBA(register_a, register_b),
                0x0E => Instruction::ShiftLeftRR(register_a, register_b),
                _ => Instruction::Data(b0, b1),
            },
            0x0A => Instruction::SetX(nnn),
            0x0B => Instruction::JumpOffset(nnn),
            0x0C => Instruction::Random(register_a, nn),
            0x0D => Instruction::Draw(register_a, register_b, n),
            0x0E => match nn {
                0x9E => Instruction::SkipKeyEQ(register_a),
                0xA1 => Instruction::SkipKeyNEQ(register_a),
                _ => Instruction::Data(b0, b1),
            },
            0x0F => match nn {
                0x07 => Instruction::SetRDelay(register_a),
                0x15 => Instruction::SetDelayR(register_a),
                0x18 => Instruction::SetSoundR(register_a),
                0x1E => Instruction::AddXR(register_a),
                0x0A => Instruction::GetKey(register_a),
                0x29 => Instruction::SetXFontR(register_a),
                0x33 => Instruction::StoreDecimalR(register_a),
                0x55 => Instruction::Store(register_a),
                0x65 => Instruction::Load(register_a),
                _ => Instruction::Data(b0, b1),
            },
            _ => Instruction::Data(b0, b1),
        }
    }
    /// Why `instruction` cannot run on this machine, if it cannot.
    fn fault(&self, instruction: Instruction) -> (r: Option<Fault>)
        requires
            well_formed(instruction),
        ensures
            r == fault_spec(self@, instruction),
    {
        match instruction {
            Instruction::Call(_) => if self.sp >= STACK_SIZE {
                Some(Fault::StackOverflow)
            } else {
                None
            },
            Instruction::Return => if self.sp == 0 {
                Some(Fault::StackUnderflow)
            } else {
                None
            },
            Instruction::Draw(_, b, n) => {
                let y = self.general_registers[b as usize] as usize % DISPLAY_HEIGHT;
                let rows: usize = if (n as usize) < DISPLAY_HEIGHT - y {
                    n as usize
                } else {
                    DISPLAY_HEIGHT - y
                };
                if self.index_register as usize + rows > MEMORY_SIZE {
                    Some(Fault::IndexOutOfRange(self.index_register))
                } else {
                    None
                }
            },
            Instruction::AddXR(a) => {
                if self.index_register as u32 + self.general_registers[a as usize] as u32 > 0xFFFF {
                    Some(Fault::IndexOverflow)
                } else {
                    None
                }
            },
            Instruction::StoreDecimalR(_) => if self.index_register as usize + 3 > MEMORY_SIZE {
                Some(Fault::IndexOutOfRange(self.index_register))
            } else {
                None
            },
            Instruction::Store(a) | Instruction::Load(a) => {
                if self.index_register as usize + a as usize + 1 > MEMORY_SIZE {
                    Some(Fault::IndexOutOfRange(self.index_register))
                } else {
                    None
                }
            },
            Instruction::Data(b0, b1) => Some(Fault::Unrecognized(b0, b1)),
            _ => None,
        }
    }

    /// Runs `instruction` in the state after its fetch (`2 <= pc <= 4096`),
    /// with `rnd` as the random byte that `Random` masks. A fault leaves the
    /// machine as it was.
    pub fn execute(&mut self, instruction: Instruction, rnd: u8) -> (r: Result<(), Fault>)
        requires
            old(self).wf(),
            well_formed(instruction),
            2 <= old(self)@.pc <= MEMORY_SIZE,
        ensures
            final(self).wf(),
            r == outcome(fault_spec(old(self)@, instruction)),
            r is Ok ==> final(self)@ == execute_spec(old(self)@, instruction, rnd),
            r is Err ==> final(self)@ == old(self)@,
    {
        match self.fault(instruction) {
            Some(e) => Err(e),
            None => {
                self.apply(instruction, rnd);
                Ok(())
            },
        }
    }

    fn apply(&mut self, instruction: Instruction, rnd: u8)
        requires
            old(self).wf(),
            well_formed(instruction),
            2 <= old(self)@.pc <= MEMORY_SIZE,
            fault_spec(old(self)@, instruction) is None,
        ensures
            final(self).wf(),
            final(self)@ == execute_spec(old(self)@, instruction, rnd),
    {
        if is_flow_exec(&instruction) {
            self.apply_flow(instruction, rnd);
        } else if is_alu_exec(&instruction) {
            self.apply_alu(instruction, rnd);
        } else {
            self.apply_misc(instruction, rnd);
        }
    }

    /// Control flow, skips and the framebuffer clear.
    #[verifier::rlimit(50)]
    fn apply_flow(&mut self, instruction: Instruction, rnd: u8)
        requires
            old(self).wf(),
            well_formed(instruction),
            2 <= old(self)@.pc <= MEMORY_SIZE,
            fault_spec(old(self)@, instruction) is None,
        ensures
            final(self).wf(),
            is_flow(instruction) ==> final(self)@ == execute_spec(old(self)@, instruction, rnd),
    {
        match instruction {
            Instruction::NOP | Instruction::Data(_, _) => {},
            Instruction::ClearScreen => {
                let mut i: usize = 0;
                while i < DISPLAY_BUFFER
                    invariant
                        i <= DISPLAY_BUFFER,
                        self@ == (Machine { display: self@.display, ..old(self)@ }),
                        forall|j: int| 0 <= j < i ==> self@.display[j] == 0,
                    decreases DISPLAY_BUFFER - i,
                {
                    self.display[i] = 0;
                    i = i + 1;
                }
                assert(self@.display =~= Seq::new(DISPLAY_BUFFER as nat, |i: int| 0u8));
            },
            Instruction::Jump(a) => {
                self.pc = a as usize;
            },
            Instruction::Call(a) => {
                self.stack[self.sp] = self.pc;
                self.sp = self.sp + 1;
                self.pc = a as usize;
            },
            Instruction::Return => {
                self.sp = self.sp - 1;
                self.pc = self.stack[self.sp];
            },
            Instruction::SkipIEQ(x, nn) => {
                if self.general_registers[x as usize] == nn {
                    self.pc = self.pc + 2;
                }
            },
            Instruction::SkipINEQ(x, nn) => {
                if self.general_registers[x as usize] != nn {
                    self.pc = self.pc + 2;
                }
            },
            Instruction::SkipREQ(x, y) => {
                if self.general_registers[x as usize] == self.general_registers[y as usize] {
                    self.pc = self.pc + 2;
                }
            },
            Instruction::SkipRNEQ(x, y) => {
                if self.general_registers[x as usize] != self.general_registers[y as usize] {
                    self.pc = self.pc + 2;
                }
            },
            Instruction::JumpOffset(a) => {
                self.pc = self.general_registers[0] as usize + a as usize;
            },
            Instruction::SkipKeyEQ(x) => {
                let v = self.general_registers[x as usize] & 0xF;
                proof { lemma_nibbles(self.general_registers@[x as int]); }
                if self.keys[v as usize] > 0 {
                    self.pc = self.pc + 2;
                }
            },
            Instruction::SkipKeyNEQ(x) => {
                let v = self.general_registers[x as usize] & 0xF;
                proof { lemma_nibbles(self.general_registers@[x as int]); }
                if self.keys[v as usize] == 0 {
                    self.pc = self.pc + 2;
                }
            },
            _ => {},
        }
        assert(is_flow(instruction) ==> self@ =~= execute_spec(old(self)@, instruction, rnd));
    }

    /// Register arithmetic and logic.
    #[verifier::rlimit(50)]
    fn apply_alu(&mut self, instruction: Instruction, rnd: u8)
        requires
            old(self).wf(),
            well_formed(instruction),
            2 <= old(self)@.pc <= MEMORY_SIZE,
            fault_spec(old(self)@, instruction) is None,
        ensures
            final(self).wf(),
            is_alu(instruction) ==> final(self)@ == execute_spec(old(self)@, instruction, rnd),
    {
        match instruction {
            Instruction::SetRI(x, nn) => {
                self.general_registers[x as usize] = nn;
            },
            Instruction::AddRI(x, nn) => {
                let mut t: u16 = self.general_registers[x as usize] as u16 + nn as u16;
                if t > 0xFF {
                    t = t - 0x100;
                }
                self.general_registers[x as usize] = t as u8;
            },
            Instruction::SetRR(x, y) => {
                self.general_registers[x as usize] = self.general_registers[y as usize];
            },
            Instruction::OrRR(x, y) => {
                self.general_registers[x as usize] = self.general_registers[x as usize]
                    | self.general_registers[y as usize];
            },
            Instruction::AndRR(x, y) => {
                self.general_registers[x as usize] = self.general_registers[x as usize]
                    & self.general_registers[y as usize];
            },
            Instruction::XorRR(x, y) => {
                self.general_registers[x as usize] = self.general_registers[x as usize]
                    ^ self.general_registers[y as usize];
            },
            Instruction::AddRR(x, y) => {
                let mut t: u16 = self.general_registers[x as usize] as u16
                    + self.general_registers[y as usize] as u16;
                let carry = t > 0xFF;
                if carry {
                    t = t - 0x100;
                }
                self.general_registers[x as usize] = t as u8;
                self.general_registers[0xF] = if carry { 1 } else { 0 };
            },
            Instruction::SubAB(x, y) => {
                let a = self.general_registers[x as usize];
                let b = self.general_registers[y as usize];
                let no_borrow = a >= b;
                let d: u8 = if no_borrow { a - b } else { (a as u16 + 256 - b as u16) as u8 };
                self.general_registers[x as usize] = d;
                self.general_registers[0xF] = if no_borrow { 1 } else { 0 };
            },
            Instruction::SubBA(x, y) => {
                let a = self.general_registers[x as usize];
                let b = self.general_registers[y as usize];
                let no_borrow = b >= a;
                let d: u8 = if no_borrow { b - a } else { (b as u16 + 256 - a as u16) as u8 };
                self.general_registers[x as usize] = d;
                self.general_registers[0xF] = if no_borrow { 1 } else { 0 };
            },
            Instruction::ShiftRightRR(x, _) => {
                let outbit = self.general_registers[x as usize] & 0x01;
                proof { lemma_shifts(self.general_registers@[x as int]); }
                self.general_registers[0xF] = if outbit > 0 { 1 } else { 0 };
                let v = self.general_registers[x as usize];
                proof { lemma_shifts(v); }
                self.general_registers[x as usize] = v >> 1;
            },
            Instruction::ShiftLeftRR(x, _) => {
                let outbit = self.general_registers[x as usize] & 0x80;
                proof { lemma_shifts(self.general_registers@[x as int]); }
                self.general_registers[0xF] = if outbit > 0 { 1 } else { 0 };
                let v = self.general_registers[x as usize];
                proof { lemma_shifts(v); }
                self.general_registers[x as usize] = v << 1;
            },
            Instruction::Random(x, nn) => {
                self.general_registers[x as usize] = rnd & nn;
            },
            _ => {},
        }
        assert(is_alu(instruction) ==> self@ =~= execute_spec(old(self)@, instruction, rnd));
    }

    /// Index register, timers, keys, sprites and memory transfers.
    #[verifier::rlimit(50)]
    fn apply_misc(&mut self, instruction: Instruction, rnd: u8)
        requires
            old(self).wf(),
            well_formed(instruction),
            2 <= old(self)@.pc <= MEMORY_SIZE,
            fault_spec(old(self)@, instruction) is None,
        ensures
            final(self).wf(),
            is_misc(instruction) ==> final(self)@ == execute_spec(old(self)@, instruction, rnd),
    {
        match instruction {
            Instruction::SetX(a) => {
                self.index_register = a;
            },
            Instruction::Draw(a, b, n) => {
                self.draw(a, b, n);
            },
            Instruction::SetRDelay(x) => {
                self.general_registers[x as usize] = self.delay_timer;
            },
            Instruction::SetDelayR(x) => {
                self.delay_timer = self.general_registers[x as usize];
            },
            Instruction::SetSoundR(x) => {
                self.sound_timer = self.general_registers[x as usize];
            },
            Instruction::AddXR(x) => {
                self.index_register = self.index_register + self.general_registers[x as usize] as u16;
                if self.index_register > 0xFFF {
                    self.general_registers[0xF] = 1;
                }
            },
            Instruction::GetKey(x) => {
                self.get_key(x);
            },
            Instruction::SetXFontR(x) => {
                let hex = self.general_registers[x as usize] & 0xF;
                proof { lemma_nibbles(self.general_registers@[x as int]); }
                self.index_register = self.address_for_font(hex) as u16;
            },
            Instruction::StoreDecimalR(x) => {
                let v = self.general_registers[x as usize];
                let i = self.index_register as usize;
                self.memory[i] = v / 100;
                self.memory[i + 1] = (v / 10) % 10;
                self.memory[i + 2] = v % 10;
            },
            Instruction::Store(x) => {
                self.store_registers(x);
            },
            Instruction::Load(x) => {
                self.load_registers(x);
            },
                    _ => {},
        }
        assert(is_misc(instruction) ==> self@ =~= execute_spec(old(self)@, instruction, rnd));
    }

    /// Waits for a key: stores the first pressed key in `VX`, or rewinds the
    /// program counter so that the same instruction runs again.
    fn get_key(&mut self, x: u8)
        requires
            x < 16,
            old(self)@.pc >= 2,
        ensures
            final(self)@ == execute_spec(old(self)@, Instruction::GetKey(x), 0),
    {
        let mut hex: usize = 0;
        while hex < 16
            invariant
                hex <= 16,
                x < 16,
                self@ == old(self)@,
                first_key(self@.keys, 0) == first_key(self@.keys, hex as int),
            decreases 16 - hex,
        {
            if self.keys[hex] > 0 {
                self.general_registers[x as usize] = hex as u8;
                return;
            }
            hex = hex + 1;
        }
        self.pc = self.pc - 2;
    }

    /// Copies `V0..=VX` to memory at `I..=I+X`.
    fn store_registers(&mut self, x: u8)
        requires
            x < 16,
            old(self)@.index + x + 1 <= MEMORY_SIZE,
        ensures
            final(self)@ == execute_spec(old(self)@, Instruction::Store(x), 0),
    {
        let base = self.index_register as usize;
        let mut r: usize = 0;
        while r <= x as usize
            invariant
                r <= x + 1,
                x < 16,
                base == old(self)@.index,
                base + x + 1 <= MEMORY_SIZE,
                self@ == (Machine {
                    memory: Seq::new(
                        MEMORY_SIZE as nat,
                        |i: int|
                            if base <= i < base + r {
                                old(self)@.registers[i - base]
                            } else {
                                old(self)@.memory[i]
                            },
                    ),
                    ..old(self)@
                }),
            decreases x + 1 - r,
        {
            self.memory[base + r] = self.general_registers[r];
            r = r + 1;
            assert(self@.memory =~= Seq::new(
                MEMORY_SIZE as nat,
                |i: int|
                    if base <= i < base + r {
                        old(self)@.registers[i - base]
                    } else {
                        old(self)@.memory[i]
                    },
            ));
        }
        assert(self@ =~= execute_spec(old(self)@, Instruction::Store(x), 0));
    }

    /// Copies memory at `I..=I+X` to `V0..=VX`.
    fn load_registers(&mut self, x: u8)
        requires
            x < 16,
            old(self)@.index + x + 1 <= MEMORY_SIZE,
        ensures
            final(self)@ == execute_spec(old(self)@, Instruction::Load(x), 0),
    {
        let base = self.index_register as usize;
        let mut r: usize = 0;
        while r <= x as usize
            invariant
                r <= x + 1,
                x < 16,
                base == old(self)@.index,
                base + x + 1 <= MEMORY_SIZE,
                self@ == (Machine {
                    registers: Seq::new(
                        16,
                        |i: int|
                            if i < r {
                                old(self)@.memory[base + i]
                            } else {
                                old(self)@.registers[i]
                            },
                    ),
                    ..old(self)@
                }),
            decreases x + 1 - r,
        {
            self.general_registers[r] = self.memory[base + r];
            r = r + 1;
            assert(self@.registers =~= Seq::new(
                16,
                |i: int|
                    if i < r {
                        old(self)@.memory[base + i]
                    } else {
                        old(self)@.registers[i]
                    },
            ));
        }
        assert(self@ =~= execute_spec(old(self)@, Instruction::Load(x), 0));
    }

    /// Draws the `n`-row sprite at `I` with its top-left corner at
    /// `(VA % 64, VB % 32)`, clipped at the right and bottom edges.
    fn draw(&mut self, a: u8, b: u8, n: u8)
        requires
            a < 16,
            b < 16,
            old(self)@.index + draw_rows(old(self)@, b, n) <= MEMORY_SIZE,
        ensures
            final(self)@ == execute_spec(old(self)@, Instruction::Draw(a, b, n), 0),
    {
        let ghost m = old(self)@;
        let x = self.general_registers[a as usize] as usize % DISPLAY_WIDTH;
        let y = self.general_registers[b as usize] as usize % DISPLAY_HEIGHT;
        let rows: usize = if (n as usize) < DISPLAY_HEIGHT - y {
            n as usize
        } else {
            DISPLAY_HEIGHT - y
        };
        let cols: usize = if 8 < DISPLAY_WIDTH - x {
            8
        } else {
            DISPLAY_WIDTH - x
        };
        let base = self.index_register as usize;
        assert(m.registers.len() == 16);
        self.general_registers[0xF] = 0;
        assert(self@.display =~= drawn_before(m, a, b, n, 0, 0));
        let mut row: usize = 0;
        while row < rows
            invariant
                x == draw_x(m, a),
                y == draw_y(m, b),
                rows == draw_rows(m, b, n),
                cols == draw_cols(m, a),
                base == m.index,
                base + rows <= MEMORY_SIZE,
                row <= rows,
                m.registers.len() == 16,
                self@ == (Machine { display: self@.display, registers: self@.registers, ..m }),
                self@.display == drawn_before(m, a, b, n, row as int, 0),
                self@.registers == m.registers.update(
                    15,
                    if collided_before(m, a, b, n, row as int, 0) { 1u8 } else { 0u8 },
                ),
            decreases rows - row,
        {
            let sprite_row = self.memory[base + row];
            let mut i: usize = 0;
            while i < cols
                invariant
                    x == draw_x(m, a),
                    y == draw_y(m, b),
                    rows == draw_rows(m, b, n),
                    cols == draw_cols(m, a),
                    base == m.index,
                    row < rows,
                    i <= cols,
                    sprite_row == m.memory[base + row],
                    m.registers.len() == 16,
                    self@ == (Machine { display: self@.display, registers: self@.registers, ..m }),
                    self@.display == drawn_before(m, a, b, n, row as int, i as int),
                    self@.registers == m.registers.update(
                        15,
                        if collided_before(m, a, b, n, row as int, i as int) { 1u8 } else { 0u8 },
                    ),
                decreases cols - i,
            {
                let bit = (sprite_row >> (7 - i as u8)) & 1;
                let c = (y + row) * DISPLAY_WIDTH + x + i;
                assert(c / 64 == y + row && c % 64 == x + i);
                assert(hit(m, a, b, n, (y + row) as int, (x + i) as int) == (bit == 1));
                assert(!done(x as int, y as int, row as int, i as int, c as int / 64, c as int % 64));
                assert(self@.display[c as int] == m.display[c as int]);
                let ghost regs_before = self@.registers;
                if bit == 1 {
                    if self.display[c] == 1 {
                        self.general_registers[0xF] = 1;
                        self.display[c] = 0;
                    } else {
                        self.display[c] = 1;
                    }
                }
                i = i + 1;
                assert(self@.display =~= drawn_before(m, a, b, n, row as int, i as int));
                proof {
                    let ci = c as int;
                    let (xi, yi, ri, ii) = (x as int, y as int, row as int, i as int);
                    if m.display[ci] == 1 && bit == 1 {
                        assert(hit(m, a, b, n, ci / 64, ci % 64));
                        assert(done(xi, yi, ri, ii, ci / 64, ci % 64));
                        assert(collided_before(m, a, b, n, ri, ii));
                        assert(self@.registers =~= m.registers.update(15, 1u8));
                    } else {
                        if collided_before(m, a, b, n, ri, ii) {
                            let j = choose|j: int|
                                0 <= j < DISPLAY_BUFFER && #[trigger] hit(m, a, b, n, j / 64, j % 64)
                                    && done(xi, yi, ri, ii, j / 64, j % 64) && m.display[j] == 1;
                            assert(j == (j / 64) * 64 + j % 64);
                            assert(j != ci);
                            assert(done(xi, yi, ri, ii - 1, j / 64, j % 64));
                            assert(collided_before(m, a, b, n, ri, ii - 1));
                        }
                        if collided_before(m, a, b, n, ri, ii - 1) {
                            let j = choose|j: int|
                                0 <= j < DISPLAY_BUFFER && #[trigger] hit(m, a, b, n, j / 64, j % 64)
                                    && done(xi, yi, ri, ii - 1, j / 64, j % 64) && m.display[j] == 1;
                            assert(done(xi, yi, ri, ii, j / 64, j % 64));
                            assert(collided_before(m, a, b, n, ri, ii));
                        }
                        assert(collided_before(m, a, b, n, ri, ii) == collided_before(
                            m,
                            a,
                            b,
                            n,
                            ri,
                            ii - 1,
                        ));
                    }
                    assert(regs_before == m.registers.update(
                        15,
                        if collided_before(m, a, b, n, ri, ii - 1) { 1u8 } else { 0u8 },
                    ));
                    assert(self@.registers =~= m.registers.update(
                        15,
                        if collided_before(m, a, b, n, ri, ii) { 1u8 } else { 0u8 },
                    ));
                }
            }
            row = row + 1;
            assert(self@.display =~= drawn_before(m, a, b, n, row as int, 0));
            assert(collided_before(m, a, b, n, row as int, 0) == collided_before(
                m,
                a,
                b,
                n,
                (row - 1) as int,
                cols as int,
            ));
        }
        assert(self@.display =~= drawn(m, a, b, n));
        assert(collided_before(m, a, b, n, rows as int, 0) == collision(m, a, b, n));
        assert(self@ =~= execute_spec(m, Instruction::Draw(a, b, n), 0));
    }

    fn fetch(&mut self) -> (raw: [u8; 2])
        requires
            can_fetch(old(self)@),
        ensures
            raw@[0] == old(self)@.memory[old(self)@.pc as int],
            raw@[1] == old(self)@.memory[old(self)@.pc + 1],
            final(self)@ == advanced(old(self)@),
    {
        let raw = [self.memory[self.pc], self.memory[self.pc + 1]];
        self.pc = self.pc + 2;
        raw
    }

    /// One fetch-decode-execute cycle, with `rnd` as the random byte that a
    /// `Random` instruction masks. A fault leaves the machine as it was.
    pub fn step_with_random(&mut self, rnd: u8) -> (r: Result<(), Fault>)
        requires
            old(self).wf(),
        ensures
            final(self).wf(),
            r == outcome(step_fault(old(self)@)),
            r is Ok ==> final(self)@ == step_spec(old(self)@, rnd),
            r is Err ==> final(self)@ == old(self)@,
    {
        if self.pc >= MEMORY_SIZE - 1 {
            return Err(Fault::PcOutOfRange(self.pc));
        }
        let raw = self.fetch();
        let instruction = self.decode(raw);
        proof {
            lemma_decode_well_formed(raw@[0], raw@[1]);
        }
        let r = self.execute(instruction, rnd);
        if r.is_err() {
            self.pc = self.pc - 2;
        }
        r
    }

    /// One fetch-decode-execute cycle; a `Random` instruction draws its byte
    /// from the thread-local generator. A fault leaves the machine as it was.
    pub fn step(&mut self) -> (r: Result<(), Fault>)
        requires
            old(self).wf(),
        ensures
            final(self).wf(),
            r == outcome(step_fault(old(self)@)),
            r is Ok ==> exists|rnd: u8| rnd < 0xFF && final(self)@ == step_spec(old(self)@, rnd),
            r is Err ==> final(self)@ == old(self)@,
    {
        let rnd = random_byte();
        self.step_with_random(rnd)
    }

    /// Copies `prog` to memory at `0x200` and points the program counter there.
    /// A program longer than the `4096 - 0x200` bytes left is refused and
    /// leaves the machine as it was.
    pub fn load(&mut self, prog: Vec<u8>) -> (r: Result<(), LoadError>)
        requires
            old(self).wf(),
        ensures
            final(self).wf(),
            r is Ok <==> prog@.len() <= MEMORY_SIZE - PROGRAM_START,
            r is Err ==> r == Err::<(), LoadError>(LoadError::TooLarge(prog@.len() as usize))
                && final(self)@ == old(self)@,
            r is Ok ==> final(self)@ == (Machine {
                memory: Seq::new(
                    MEMORY_SIZE as nat,
                    |i: int|
                        if PROGRAM_START <= i < PROGRAM_START + prog@.len() {
                            prog@[i - PROGRAM_START]
                        } else {
                            old(self)@.memory[i]
                        },
                ),
                pc: PROGRAM_START,
                ..old(self)@
            }),
    {
        if prog.len() > MEMORY_SIZE - PROGRAM_START {
            return Err(LoadError::TooLarge(prog.len()));
        }
        let mut k: usize = 0;
        while k < prog.len()
            invariant
                k <= prog@.len(),
                prog@.len() <= MEMORY_SIZE - PROGRAM_START,
                self@ == (Machine {
                    memory: Seq::new(
                        MEMORY_SIZE as nat,
                        |i: int|
                            if PROGRAM_START <= i < PROGRAM_START + k {
                                prog@[i - PROGRAM_START]
                            } else {
                                old(self)@.memory[i]
                            },
                    ),
                    ..old(self)@
                }),
            decreases prog@.len() - k,
        {
            self.memory[PROGRAM_START + k] = prog[k];
            k = k + 1;
            assert(self@.memory =~= Seq::new(
                MEMORY_SIZE as nat,
                |i: int|
                    if PROGRAM_START <= i < PROGRAM_START + k {
                        prog@[i - PROGRAM_START]
                    } else {
                        old(self)@.memory[i]
                    },
            ));
        }
        self.pc = PROGRAM_START;
        Ok(())
    }

    /// The program counter.
    pub fn pc(&self) -> (r: usize)
        ensures
            r == self@.pc,
    {
        self.pc
    }

    /// The index register.
    pub fn index_register(&self) -> (r: u16)
        ensures
            r == self@.index,
    {
        self.index_register
    }

    /// General register `r`.
    pub fn register(&self, r: usize) -> (v: u8)
        requires
            r < 16,
        ensures
            v == self@.registers[r as int],
    {
        self.general_registers[r]
    }

    /// The memory byte at `addr`.
    pub fn memory_at(&self, addr: usize) -> (v: u8)
        requires
            addr < MEMORY_SIZE,
        ensures
            v == self@.memory[addr as int],
    {
        self.memory[addr]
    }
}

} // verus!
