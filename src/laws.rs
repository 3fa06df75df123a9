//! Properties of the instruction set that relate several instructions, steps
//! or states, proved over the specification of the executor.
use crate::cpu::{
    DISPLAY_BUFFER, MEMORY_SIZE, Machine, can_fetch, collision, draw_x, draw_y,
    execute_spec, fault_spec, fetched, first_key, flip, hit, reg, sprite_bit, step_fault,
    step_spec,
};
use crate::instruction::{Instruction, lemma_decode_well_formed};
use vstd::prelude::*;

verus! {

/// Adding registers leaves `(a + b) mod 256` in the destination and sets the
/// flag register to 1 exactly when `a + b` exceeds 255 (for a destination
/// other than the flag register itself, which the flag then overwrites).
pub proof fn law_add_carry(m: Machine, x: u8, y: u8, rnd: u8)
    requires
        x < 15,
        y < 16,
        m.registers.len() == 16,
    ensures
        ({
            let r = execute_spec(m, Instruction::AddRR(x, y), rnd);
            &&& r.registers[x as int] == (reg(m, x) + reg(m, y)) % 256
            &&& r.registers[15] == (if reg(m, x) + reg(m, y) > 255 { 1u8 } else { 0u8 })
        }),
{
}

/// Adding an immediate wraps modulo 256 and leaves the flag register alone.
pub proof fn law_add_immediate_wraps(m: Machine, x: u8, nn: u8, rnd: u8)
    requires
        x < 15,
        m.registers.len() == 16,
    ensures
        ({
            let r = execute_spec(m, Instruction::AddRI(x, nn), rnd);
            &&& r.registers[x as int] == (reg(m, x) + nn) % 256
            &&& r.registers[15] == m.registers[15]
        }),
{
}

/// `VX - VY` leaves the difference modulo 256 and sets the flag register to 1
/// exactly when there is no borrow (`VX >= VY`).
pub proof fn law_subtract_borrow(m: Machine, x: u8, y: u8, rnd: u8)
    requires
        x < 15,
        y < 16,
        m.registers.len() == 16,
    ensures
        ({
            let r = execute_spec(m, Instruction::SubAB(x, y), rnd);
            &&& r.registers[x as int] == (reg(m, x) - reg(m, y) + 256) % 256
            &&& r.registers[15] == (if reg(m, x) >= reg(m, y) { 1u8 } else { 0u8 })
        }),
{
}

/// A shift puts the bit shifted out into the flag register.
pub proof fn law_shift_flags(m: Machine, x: u8, y: u8, rnd: u8)
    requires
        x < 15,
        m.registers.len() == 16,
    ensures
        ({
            let r = execute_spec(m, Instruction::ShiftRightRR(x, y), rnd);
            &&& r.registers[x as int] == reg(m, x) / 2
            &&& r.registers[15] == reg(m, x) % 2
        }),
        ({
            let r = execute_spec(m, Instruction::ShiftLeftRR(x, y), rnd);
            &&& r.registers[x as int] == (reg(m, x) * 2) % 256
            &&& r.registers[15] == reg(m, x) / 128
        }),
{
}

/// Drawing a one-row sprite of eight set pixels twice at the same place
/// restores a framebuffer of 0/1 cells, and the second draw reports a
/// collision when the sprite's first pixel started dark.
pub proof fn law_draw_twice(m: Machine, x: u8, y: u8, rnd: u8)
    requires
        x < 15,
        y < 15,
        m.registers.len() == 16,
        m.memory.len() == MEMORY_SIZE,
        m.display.len() == DISPLAY_BUFFER,
        m.index + 1 <= MEMORY_SIZE,
        m.memory[m.index as int] == 0xFF,
        forall|i: int| 0 <= i < DISPLAY_BUFFER ==> m.display[i] == 0 || m.display[i] == 1,
        m.display[draw_y(m, y) * 64 + draw_x(m, x)] == 0,
    ensures
        ({
            let m1 = execute_spec(m, Instruction::Draw(x, y, 1), rnd);
            let m2 = execute_spec(m1, Instruction::Draw(x, y, 1), rnd);
            &&& fault_spec(m, Instruction::Draw(x, y, 1)) is None
            &&& fault_spec(m1, Instruction::Draw(x, y, 1)) is None
            &&& m2.display == m.display
            &&& m2.registers[15] == 1
        }),
{
    let m1 = execute_spec(m, Instruction::Draw(x, y, 1), rnd);
    let m2 = execute_spec(m1, Instruction::Draw(x, y, 1), rnd);
    assert forall|i: int| 0 <= i < DISPLAY_BUFFER implies #[trigger] hit(
        m1,
        x,
        y,
        1,
        i / 64,
        i % 64,
    ) == hit(m, x, y, 1, i / 64, i % 64) by {}
    assert(m2.display =~= m.display);
    let c = draw_y(m, y) * 64 + draw_x(m, x);
    assert(c / 64 == draw_y(m, y) && c % 64 == draw_x(m, x));
    assert((0xFFu8 >> 7u8) & 1u8 == 1u8) by (bit_vector);
    assert(sprite_bit(0xFF, 0));
    assert(hit(m, x, y, 1, c / 64, c % 64));
    assert(hit(m1, x, y, 1, c / 64, c % 64));
    assert(m1.display[c] == flip(m.display[c]));
    assert(collision(m1, x, y, 1));
}

proof fn lemma_first_key_at(keys: Seq<u8>, i: int, k: int)
    requires
        0 <= i <= k < 16,
        keys[k] > 0,
        forall|j: int| i <= j < k ==> keys[j] == 0,
    ensures
        first_key(keys, i) == k,
    decreases k - i,
{
    if i < k {
        lemma_first_key_at(keys, i + 1, k);
    }
}

proof fn lemma_first_key_none(keys: Seq<u8>, i: int)
    requires
        0 <= i <= 16,
        forall|j: int| i <= j < 16 ==> keys[j] == 0,
    ensures
        first_key(keys, i) == 16,
    decreases 16 - i,
{
    if i < 16 {
        lemma_first_key_none(keys, i + 1);
    }
}

/// While no key is pressed, a step on a key wait leaves the machine as it was;
/// with a key pressed, the same step stores the lowest pressed key and moves on.
pub proof fn law_key_wait(m: Machine, x: u8, k: int, rnd: u8)
    requires
        can_fetch(m),
        fetched(m) == Instruction::GetKey(x),
        m.keys.len() == 16,
        m.registers.len() == 16,
    ensures
        step_fault(m) is None,
        (forall|j: int| 0 <= j < 16 ==> m.keys[j] == 0) ==> step_spec(m, rnd) == m,
        0 <= k < 16 && m.keys[k] > 0 && (forall|j: int| 0 <= j < k ==> m.keys[j] == 0) ==> ({
            let r = step_spec(m, rnd);
            &&& r.pc == m.pc + 2
            &&& r.registers[x as int] == k
        }),
{
    lemma_decode_well_formed(m.memory[m.pc as int], m.memory[m.pc + 1]);
    if forall|j: int| 0 <= j < 16 ==> m.keys[j] == 0 {
        lemma_first_key_none(m.keys, 0);
        assert(step_spec(m, rnd) =~= m);
    }
    if 0 <= k < 16 && m.keys[k] > 0 && (forall|j: int| 0 <= j < k ==> m.keys[j] == 0) {
        lemma_first_key_at(m.keys, 0, k);
    }
}

/// Storing the decimal digits of a register writes three digits below ten
/// that read back as the register's value.
pub proof fn law_decimal_digits(m: Machine, x: u8, rnd: u8)
    requires
        x < 16,
        m.registers.len() == 16,
        m.memory.len() == MEMORY_SIZE,
        m.index + 3 <= MEMORY_SIZE,
    ensures
        ({
            let r = execute_spec(m, Instruction::StoreDecimalR(x), rnd);
            let i = m.index as int;
            &&& r.memory[i] < 10 && r.memory[i + 1] < 10 && r.memory[i + 2] < 10
            &&& 100 * r.memory[i] + 10 * r.memory[i + 1] + r.memory[i + 2] == reg(m, x)
        }),
{
}

/// Storing registers `0..=n` and loading them back into a cleared register
/// file restores exactly those `n + 1` registers; the store writes only the
/// `n + 1` bytes at the index register.
pub proof fn law_store_load(m: Machine, n: u8, rnd: u8)
    requires
        n < 16,
        m.registers.len() == 16,
        m.memory.len() == MEMORY_SIZE,
        m.index + n + 1 <= MEMORY_SIZE,
    ensures
        ({
            let m1 = execute_spec(m, Instruction::Store(n), rnd);
            let m2 = Machine { registers: Seq::new(16, |i: int| 0u8), ..m1 };
            let m3 = execute_spec(m2, Instruction::Load(n), rnd);
            &&& fault_spec(m, Instruction::Store(n)) is None
            &&& fault_spec(m2, Instruction::Load(n)) is None
            &&& forall|i: int| 0 <= i <= n ==> m3.registers[i] == m.registers[i]
            &&& forall|i: int| n < i < 16 ==> m3.registers[i] == 0
            &&& forall|i: int|
                0 <= i < MEMORY_SIZE && m1.memory[i] != m.memory[i] ==> m.index <= i <= m.index + n
        }),
{
}

} // verus!
