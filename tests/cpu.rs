use chip8::cpu::{Fault, LoadError, CPU, DISPLAY_WIDTH};
use chip8::instruction::Instruction;

fn machine(prog: &[u8]) -> CPU {
    let mut cpu = CPU::new();
    cpu.load(prog.to_vec()).unwrap();
    cpu
}

fn run(cpu: &mut CPU, steps: usize) {
    for _ in 0..steps {
        cpu.step().unwrap();
    }
}

#[test]
fn new_machine_holds_glyphs() {
    let cpu = CPU::new();
    assert_eq!(cpu.pc(), 0);
    assert_eq!(cpu.memory_at(0x50), 0xF0);
    assert_eq!(cpu.memory_at(0x55), 0x20);
    assert_eq!(cpu.memory_at(0x9F), 0x80);
    assert_eq!(cpu.memory_at(0x4F), 0);
    assert_eq!(cpu.memory_at(0xA0), 0);
    assert_eq!(cpu.address_for_font(0xA), 0x82);
    assert!(cpu.display.iter().all(|&p| p == 0));
}

#[test]
fn decode_families() {
    let cpu = CPU::new();
    assert_eq!(cpu.decode([0x00, 0xE0]), Instruction::ClearScreen);
    assert_eq!(cpu.decode([0x00, 0xEE]), Instruction::Return);
    assert_eq!(cpu.decode([0x00, 0x00]), Instruction::NOP);
    assert_eq!(cpu.decode([0x01, 0x23]), Instruction::Data(0x01, 0x23));
    assert_eq!(cpu.decode([0x1A, 0xBC]), Instruction::Jump(0xABC));
    assert_eq!(cpu.decode([0x2A, 0xBC]), Instruction::Call(0xABC));
    assert_eq!(cpu.decode([0x3A, 0x12]), Instruction::SkipIEQ(0xA, 0x12));
    assert_eq!(cpu.decode([0x4A, 0x12]), Instruction::SkipINEQ(0xA, 0x12));
    assert_eq!(cpu.decode([0x5A, 0xB0]), Instruction::SkipREQ(0xA, 0xB));
    assert_eq!(cpu.decode([0x9A, 0xB0]), Instruction::SkipRNEQ(0xA, 0xB));
    assert_eq!(cpu.decode([0x6A, 0x12]), Instruction::SetRI(0xA, 0x12));
    assert_eq!(cpu.decode([0x7A, 0x12]), Instruction::AddRI(0xA, 0x12));
    assert_eq!(cpu.decode([0x8A, 0xB0]), Instruction::SetRR(0xA, 0xB));
    assert_eq!(cpu.decode([0x8A, 0xB1]), Instruction::OrRR(0xA, 0xB));
    assert_eq!(cpu.decode([0x8A, 0xB2]), Instruction::AndRR(0xA, 0xB));
    assert_eq!(cpu.decode([0x8A, 0xB3]), Instruction::XorRR(0xA, 0xB));
    assert_eq!(cpu.decode([0x8A, 0xB4]), Instruction::AddRR(0xA, 0xB));
    assert_eq!(cpu.decode([0x8A, 0xB5]), Instruction::SubAB(0xA, 0xB));
    assert_eq!(cpu.decode([0x8A, 0xB6]), Instruction::ShiftRightRR(0xA, 0xB));
    assert_eq!(cpu.decode([0x8A, 0xB7]), Instruction::SubBA(0xA, 0xB));
    assert_eq!(cpu.decode([0x8A, 0xBE]), Instruction::ShiftLeftRR(0xA, 0xB));
    assert_eq!(cpu.decode([0x8A, 0xB8]), Instruction::Data(0x8A, 0xB8));
    assert_eq!(cpu.decode([0xAA, 0xBC]), Instruction::SetX(0xABC));
    assert_eq!(cpu.decode([0xBA, 0xBC]), Instruction::JumpOffset(0xABC));
    assert_eq!(cpu.decode([0xCA, 0x12]), Instruction::Random(0xA, 0x12));
    assert_eq!(cpu.decode([0xDA, 0xB5]), Instruction::Draw(0xA, 0xB, 5));
    assert_eq!(cpu.decode([0xEA, 0x9E]), Instruction::SkipKeyEQ(0xA));
    assert_eq!(cpu.decode([0xEA, 0xA1]), Instruction::SkipKeyNEQ(0xA));
    assert_eq!(cpu.decode([0xEA, 0x00]), Instruction::Data(0xEA, 0x00));
    assert_eq!(cpu.decode([0xFA, 0x07]), Instruction::SetRDelay(0xA));
    assert_eq!(cpu.decode([0xFA, 0x15]), Instruction::SetDelayR(0xA));
    assert_eq!(cpu.decode([0xFA, 0x18]), Instruction::SetSoundR(0xA));
    assert_eq!(cpu.decode([0xFA, 0x1E]), Instruction::AddXR(0xA));
    assert_eq!(cpu.decode([0xFA, 0x0A]), Instruction::GetKey(0xA));
    assert_eq!(cpu.decode([0xFA, 0x29]), Instruction::SetXFontR(0xA));
    assert_eq!(cpu.decode([0xFA, 0x33]), Instruction::StoreDecimalR(0xA));
    assert_eq!(cpu.decode([0xFA, 0x55]), Instruction::Store(0xA));
    assert_eq!(cpu.decode([0xFA, 0x65]), Instruction::Load(0xA));
    assert_eq!(cpu.decode([0xFA, 0x99]), Instruction::Data(0xFA, 0x99));
}

#[test]
fn add_immediate_wraps_twice() {
    let mut cpu = machine(&[0x62, 0x02, 0x72, 0xFF, 0x72, 0xFF]);
    run(&mut cpu, 2);
    assert_eq!(cpu.register(2), 1);
    run(&mut cpu, 1);
    assert_eq!(cpu.register(2), 0);
    assert_eq!(cpu.register(0xF), 0);
}

#[test]
fn add_registers_sets_carry() {
    let mut cpu = machine(&[0x60, 0xFF, 0x61, 0x02, 0x80, 0x14]);
    run(&mut cpu, 3);
    assert_eq!(cpu.register(0), 1);
    assert_eq!(cpu.register(0xF), 1);
    let mut cpu = machine(&[0x6F, 0x01, 0x60, 0x01, 0x61, 0x02, 0x80, 0x14]);
    run(&mut cpu, 4);
    assert_eq!(cpu.register(0), 3);
    assert_eq!(cpu.register(0xF), 0);
}

#[test]
fn subtract_borrow_convention() {
    let mut cpu = machine(&[0x60, 0x05, 0x61, 0x03, 0x80, 0x15]);
    run(&mut cpu, 3);
    assert_eq!(cpu.register(0), 2);
    assert_eq!(cpu.register(0xF), 1);
    let mut cpu = machine(&[0x60, 0x03, 0x61, 0x05, 0x80, 0x15]);
    run(&mut cpu, 3);
    assert_eq!(cpu.register(0), 254);
    assert_eq!(cpu.register(0xF), 0);
}

#[test]
fn subtract_reversed() {
    let mut cpu = machine(&[0x60, 0x03, 0x61, 0x05, 0x80, 0x17]);
    run(&mut cpu, 3);
    assert_eq!(cpu.register(0), 2);
    assert_eq!(cpu.register(0xF), 1);
    let mut cpu = machine(&[0x60, 0x05, 0x61, 0x03, 0x80, 0x17]);
    run(&mut cpu, 3);
    assert_eq!(cpu.register(0), 254);
    assert_eq!(cpu.register(0xF), 0);
}

#[test]
fn shifts_capture_flag() {
    let mut cpu = machine(&[0x60, 0x03, 0x80, 0x06]);
    run(&mut cpu, 2);
    assert_eq!(cpu.register(0), 1);
    assert_eq!(cpu.register(0xF), 1);
    let mut cpu = machine(&[0x60, 0x81, 0x80, 0x0E]);
    run(&mut cpu, 2);
    assert_eq!(cpu.register(0), 0b0000_0010);
    assert_eq!(cpu.register(0xF), 1);
    let mut cpu = machine(&[0x60, 0x40, 0x80, 0x0E]);
    run(&mut cpu, 2);
    assert_eq!(cpu.register(0), 0x80);
    assert_eq!(cpu.register(0xF), 0);
}

#[test]
fn logic_operations() {
    let mut cpu = machine(&[
        0x60, 0x0C, 0x61, 0x0A, 0x82, 0x00, 0x82, 0x11, 0x83, 0x00, 0x83, 0x12, 0x84, 0x00,
        0x84, 0x13,
    ]);
    run(&mut cpu, 8);
    assert_eq!(cpu.register(2), 0x0E);
    assert_eq!(cpu.register(3), 0x08);
    assert_eq!(cpu.register(4), 0x06);
}

#[test]
fn draw_twice_toggles_off_with_collision() {
    // I := 0x300, V0 := 0xFF, store V0 at 0x300, V1 := 5, V2 := 6, draw, draw.
    let mut cpu = machine(&[
        0xA3, 0x00, 0x60, 0xFF, 0xF0, 0x55, 0x61, 0x05, 0x62, 0x06, 0xD1, 0x21, 0xD1, 0x21,
    ]);
    run(&mut cpu, 6);
    for col in 0..DISPLAY_WIDTH {
        let lit = (5..13).contains(&col);
        assert_eq!(cpu.display[6 * DISPLAY_WIDTH + col], lit as u8);
    }
    assert_eq!(cpu.register(0xF), 0);
    run(&mut cpu, 1);
    assert!(cpu.display.iter().all(|&p| p == 0));
    assert_eq!(cpu.register(0xF), 1);
}

#[test]
fn draw_clips_at_right_edge() {
    let mut cpu = machine(&[
        0xA3, 0x00, 0x60, 0xFF, 0xF0, 0x55, 0x61, 60, 0x62, 0x02, 0xD1, 0x21,
    ]);
    run(&mut cpu, 6);
    for col in 0..DISPLAY_WIDTH {
        assert_eq!(cpu.display[2 * DISPLAY_WIDTH + col], (col >= 60) as u8);
        assert_eq!(cpu.display[3 * DISPLAY_WIDTH + col], 0);
    }
    assert_eq!(cpu.register(0xF), 0);
}

#[test]
fn draw_clips_at_bottom_and_wraps_start() {
    // Glyph of 0 (five rows) drawn at (64 + 1, 30): starts at column 1, keeps two rows.
    let mut cpu = machine(&[0x60, 0x00, 0xF0, 0x29, 0x61, 65, 0x62, 30, 0xD1, 0x25]);
    run(&mut cpu, 5);
    let lit: Vec<usize> = (0..cpu.display.len()).filter(|&i| cpu.display[i] == 1).collect();
    assert_eq!(
        lit,
        vec![30 * 64 + 1, 30 * 64 + 2, 30 * 64 + 3, 30 * 64 + 4, 31 * 64 + 1, 31 * 64 + 4]
    );
}

#[test]
fn clear_screen_zeroes_framebuffer() {
    let mut cpu = machine(&[0x60, 0x00, 0xF0, 0x29, 0xD0, 0x05, 0x00, 0xE0]);
    run(&mut cpu, 3);
    assert!(cpu.display.iter().any(|&p| p == 1));
    run(&mut cpu, 1);
    assert!(cpu.display.iter().all(|&p| p == 0));
}

#[test]
fn key_wait_stalls_until_pressed() {
    let mut cpu = machine(&[0xF3, 0x0A]);
    run(&mut cpu, 1);
    assert_eq!(cpu.pc(), 0x200);
    run(&mut cpu, 1);
    assert_eq!(cpu.pc(), 0x200);
    cpu.keys[0xB] = 1;
    cpu.keys[0x7] = 1;
    run(&mut cpu, 1);
    assert_eq!(cpu.pc(), 0x202);
    assert_eq!(cpu.register(3), 0x7);
}

#[test]
fn skip_on_keys() {
    let mut cpu = machine(&[0x60, 0x14, 0xE0, 0x9E, 0xE0, 0xA1]);
    run(&mut cpu, 2);
    assert_eq!(cpu.pc(), 0x204);
    run(&mut cpu, 1);
    assert_eq!(cpu.pc(), 0x208);
    let mut cpu = machine(&[0x60, 0x14, 0xE0, 0x9E]);
    cpu.keys[4] = 1;
    run(&mut cpu, 2);
    assert_eq!(cpu.pc(), 0x206);
}

#[test]
fn decimal_digits_of_234() {
    let mut cpu = machine(&[0x60, 234, 0xA3, 0x00, 0xF0, 0x33]);
    run(&mut cpu, 3);
    assert_eq!(cpu.memory_at(0x300), 2);
    assert_eq!(cpu.memory_at(0x301), 3);
    assert_eq!(cpu.memory_at(0x302), 4);
}

#[test]
fn store_then_load_registers() {
    let mut cpu = machine(&[
        0x60, 0x11, 0x61, 0x22, 0x62, 0x33, 0x63, 0x44, 0x64, 0x55, 0xA3, 0x00, 0xF3, 0x55,
        0x60, 0x00, 0x61, 0x00, 0x62, 0x00, 0x63, 0x00, 0x64, 0x00, 0xF3, 0x65,
    ]);
    run(&mut cpu, 7);
    assert_eq!(cpu.memory_at(0x303), 0x44);
    assert_eq!(cpu.memory_at(0x304), 0);
    run(&mut cpu, 6);
    assert_eq!(
        [cpu.register(0), cpu.register(1), cpu.register(2), cpu.register(3), cpu.register(4)],
        [0x11, 0x22, 0x33, 0x44, 0x00]
    );
}

#[test]
fn load_boundary() {
    let mut cpu = CPU::new();
    assert_eq!(cpu.load(vec![0; 4096 - 0x200]), Ok(()));
    assert_eq!(cpu.pc(), 0x200);
    let mut cpu = CPU::new();
    assert_eq!(cpu.load(vec![0; 4096 - 0x200 + 1]), Err(LoadError::TooLarge(3585)));
    assert_eq!(cpu.pc(), 0);
}

#[test]
fn load_copies_program() {
    let cpu = machine(&[0xAB, 0xCD, 0xEF]);
    assert_eq!(cpu.memory_at(0x1FF), 0);
    assert_eq!(cpu.memory_at(0x200), 0xAB);
    assert_eq!(cpu.memory_at(0x202), 0xEF);
    assert_eq!(cpu.memory_at(0x203), 0);
}

#[test]
fn call_and_return() {
    let mut cpu = machine(&[0x22, 0x06, 0x00, 0x00, 0x00, 0x00, 0x00, 0xEE]);
    run(&mut cpu, 1);
    assert_eq!(cpu.pc(), 0x206);
    run(&mut cpu, 1);
    assert_eq!(cpu.pc(), 0x202);
}

#[test]
fn jumps_and_skips() {
    let mut cpu = machine(&[0x60, 0x05, 0x30, 0x05, 0x00, 0x00, 0x40, 0x05, 0x50, 0x10, 0xB3, 0x00]);
    run(&mut cpu, 2);
    assert_eq!(cpu.pc(), 0x206);
    run(&mut cpu, 1);
    assert_eq!(cpu.pc(), 0x208);
    run(&mut cpu, 1);
    assert_eq!(cpu.pc(), 0x20A);
    let mut cpu = machine(&[0x60, 0x05, 0x61, 0x05, 0x50, 0x10, 0x00, 0x00, 0x90, 0x10]);
    run(&mut cpu, 3);
    assert_eq!(cpu.pc(), 0x208);
    run(&mut cpu, 1);
    assert_eq!(cpu.pc(), 0x20A);
    let mut cpu = machine(&[0x60, 0x04, 0xB3, 0x00]);
    run(&mut cpu, 2);
    assert_eq!(cpu.pc(), 0x304);
    let mut cpu = machine(&[0x1A, 0xBC]);
    run(&mut cpu, 1);
    assert_eq!(cpu.pc(), 0xABC);
}

#[test]
fn timers_and_index() {
    let mut cpu = machine(&[0x60, 0x09, 0xF0, 0x15, 0x61, 0x07, 0xF1, 0x18, 0xF2, 0x07, 0xA1, 0x00, 0xF0, 0x1E]);
    run(&mut cpu, 7);
    assert_eq!(cpu.delay_timer, 9);
    assert_eq!(cpu.sound_timer, 7);
    assert_eq!(cpu.register(2), 9);
    assert_eq!(cpu.index_register(), 0x109);
    assert_eq!(cpu.register(0xF), 0);
}

#[test]
fn index_add_past_12_bits_sets_flag() {
    let mut cpu = machine(&[0xAF, 0xFF, 0x60, 0x01, 0xF0, 0x1E]);
    run(&mut cpu, 3);
    assert_eq!(cpu.index_register(), 0x1000);
    assert_eq!(cpu.register(0xF), 1);
}

#[test]
fn glyph_address() {
    let mut cpu = machine(&[0x60, 0x1A, 0xF0, 0x29]);
    run(&mut cpu, 2);
    assert_eq!(cpu.index_register(), 0x50 + 5 * 0xA);
}

#[test]
fn random_masks_the_drawn_byte() {
    let mut cpu = machine(&[0xC0, 0x0F, 0xC1, 0x0F]);
    assert_eq!(cpu.step_with_random(0xAB), Ok(()));
    assert_eq!(cpu.register(0), 0x0B);
    run(&mut cpu, 1);
    assert!(cpu.register(1) <= 0x0F);
}

#[test]
fn fault_unrecognized_leaves_state() {
    let mut cpu = machine(&[0x01, 0x23]);
    assert_eq!(cpu.step(), Err(Fault::Unrecognized(0x01, 0x23)));
    assert_eq!(cpu.pc(), 0x200);
}

#[test]
fn fault_stack_underflow_and_overflow() {
    let mut cpu = machine(&[0x00, 0xEE]);
    assert_eq!(cpu.step(), Err(Fault::StackUnderflow));
    let mut cpu = machine(&[0x22, 0x00]);
    run(&mut cpu, 48);
    assert_eq!(cpu.step(), Err(Fault::StackOverflow));
    assert_eq!(cpu.pc(), 0x200);
}

#[test]
fn fault_index_out_of_range() {
    let mut cpu = machine(&[0xAF, 0xFE, 0xF0, 0x33]);
    run(&mut cpu, 1);
    assert_eq!(cpu.step(), Err(Fault::IndexOutOfRange(0xFFE)));
    let mut cpu = machine(&[0xAF, 0xFF, 0xD0, 0x02]);
    run(&mut cpu, 1);
    assert_eq!(cpu.step(), Err(Fault::IndexOutOfRange(0xFFF)));
}

#[test]
fn fault_index_overflow() {
    let mut cpu = machine(&[0xAF, 0xFF, 0x60, 0xFF, 0xF0, 0x1E, 0x12, 0x04]);
    let mut result = Ok(());
    for _ in 0..1000 {
        result = cpu.step();
        if result.is_err() {
            break;
        }
    }
    assert_eq!(result, Err(Fault::IndexOverflow));
    assert!(cpu.index_register() > 0xFFFF - 0xFF);
}

#[test]
fn fault_pc_out_of_range() {
    let mut cpu = machine(&[0x1F, 0xFF]);
    run(&mut cpu, 1);
    assert_eq!(cpu.step(), Err(Fault::PcOutOfRange(0xFFF)));
}
