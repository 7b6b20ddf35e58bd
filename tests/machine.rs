use chip8::machine::{Machine, Timer};
use chip8::opcode::Instruction;
use chip8::state::{HaltReason, Status};

const FONT: [u8; 80] = [
    0xF0, 0x90, 0x90, 0x90, 0xF0, 0x20, 0x60, 0x20, 0x20, 0x70, 0xF0, 0x10, 0xF0, 0x80, 0xF0,
    0xF0, 0x10, 0xF0, 0x10, 0xF0, 0x90, 0x90, 0xF0, 0x10, 0x10, 0xF0, 0x80, 0xF0, 0x10, 0xF0,
    0xF0, 0x80, 0xF0, 0x90, 0xF0, 0xF0, 0x10, 0x20, 0x40, 0x40, 0xF0, 0x90, 0xF0, 0x90, 0xF0,
    0xF0, 0x90, 0xF0, 0x10, 0xF0, 0xF0, 0x90, 0xF0, 0x90, 0x90, 0xE0, 0x90, 0xE0, 0x90, 0xE0,
    0xF0, 0x80, 0x80, 0x80, 0xF0, 0xE0, 0x90, 0x90, 0x90, 0xE0, 0xF0, 0x80, 0xF0, 0x80, 0xF0,
    0xF0, 0x80, 0xF0, 0x80, 0x80,
];

fn machine_with(program: Vec<u8>) -> Machine {
    let mut m = Machine::new();
    m.reset();
    assert_eq!(m.load_program(program), Ok(()));
    m
}

fn registers(m: &Machine) -> Vec<u8> {
    (0..16).map(|r| m.register(r)).collect()
}

fn display(m: &Machine) -> Vec<bool> {
    let mut d = Vec::new();
    for y in 0..32 {
        for x in 0..64 {
            d.push(m.pixel(x, y));
        }
    }
    d
}

#[test]
fn machine_fetch_opcode() {
    let mut m = Machine::new();
    // init
    m.reset();
    assert_eq!(m.load_program(vec![0xA2, 0xF0]), Ok(()));

    assert_eq!(0xA2F0, m.fetch_opcode());
}

#[test]
fn machine_fetch_simple_exec() {
    let mut m = Machine::new();
    // init
    m.reset();

    // v0 = 5 + 2
    assert_eq!(
        m.load_program(vec![
            0x70, 0x05, // V0 = 5
            0x71, 0x02, // V1 = 2
            0x80, 0x14, // V0 += V1
        ]),
        Ok(())
    );

    while m.step() == Status::Running {}

    assert_eq!(7, m.register(0));
}

#[test]
fn reset_loads_font_and_program_start() {
    let mut m = Machine::new();
    assert_eq!(m.execute(Instruction::SetRegister(3, 9), 0), Status::Running);
    m.reset();
    for a in 0..80 {
        assert_eq!(m.memory_at(a), FONT[a]);
    }
    assert_eq!(m.memory_at(80), 0);
    assert_eq!(m.pc(), 0x200);
    assert_eq!(m.register(3), 0);
    assert_eq!(m.get_timer(Timer::Delay), 0);
    assert_eq!(m.get_timer(Timer::Sound), 0);
    assert_eq!(m.stack_depth(), 0);
}

#[test]
fn load_program_reads_back() {
    let program = vec![0x12, 0x34, 0x56, 0x78, 0x9A];
    let m = machine_with(program.clone());
    for (i, b) in program.iter().enumerate() {
        assert_eq!(m.memory_at(0x200 + i), *b);
    }
    assert_eq!(m.memory_at(0x205), 0);
}

#[test]
fn load_program_largest_fits() {
    let program: Vec<u8> = (0..3584).map(|i| (i % 251) as u8).collect();
    let m = machine_with(program.clone());
    assert_eq!(m.memory_at(0x200), 0);
    assert_eq!(m.memory_at(4095), program[3583]);
}

#[test]
fn load_program_too_long_is_refused() {
    let mut m = Machine::new();
    let before = m.memory_at(0x200);
    assert_eq!(m.load_program(vec![0xAA; 3585]), Err(HaltReason::LoadError));
    assert_eq!(m.memory_at(0x200), before);
}

#[test]
fn add_program_scenario() {
    let mut m = machine_with(vec![0x70, 0x05, 0x71, 0x02, 0x80, 0x14]);
    for _ in 0..3 {
        assert_eq!(m.step(), Status::Running);
    }
    assert_eq!(m.register(0), 7);
    assert_eq!(m.register(15), 0);
    assert_eq!(m.pc(), 0x206);
}

#[test]
fn sub_xy_wraps_and_clears_flag() {
    let mut m = Machine::new();
    m.execute(Instruction::SetRegister(0, 5), 0);
    m.execute(Instruction::SetRegister(1, 10), 0);
    assert_eq!(m.execute(Instruction::SubXY(0, 1), 0), Status::Running);
    assert_eq!(m.register(0), 251);
    assert_eq!(m.register(15), 0);
}

#[test]
fn sub_xy_without_borrow_sets_flag() {
    let mut m = Machine::new();
    m.execute(Instruction::SetRegister(0, 10), 0);
    m.execute(Instruction::SetRegister(1, 3), 0);
    m.execute(Instruction::SubXY(0, 1), 0);
    assert_eq!(m.register(0), 7);
    assert_eq!(m.register(15), 1);
}

#[test]
fn sub_yx_wraps_symmetrically() {
    let mut m = Machine::new();
    m.execute(Instruction::SetRegister(0, 10), 0);
    m.execute(Instruction::SetRegister(1, 5), 0);
    m.execute(Instruction::SubYX(0, 1), 0);
    assert_eq!(m.register(0), 251);
    assert_eq!(m.register(15), 0);
    m.execute(Instruction::SetRegister(2, 5), 0);
    m.execute(Instruction::SetRegister(3, 9), 0);
    m.execute(Instruction::SubYX(2, 3), 0);
    assert_eq!(m.register(2), 4);
    assert_eq!(m.register(15), 1);
}

#[test]
fn add_xy_carry() {
    let mut m = Machine::new();
    m.execute(Instruction::SetRegister(0, 200), 0);
    m.execute(Instruction::SetRegister(1, 100), 0);
    m.execute(Instruction::AddXY(0, 1), 0);
    assert_eq!(m.register(0), 44);
    assert_eq!(m.register(15), 1);
    m.execute(Instruction::AddXY(1, 1), 0);
    assert_eq!(m.register(1), 200);
    assert_eq!(m.register(15), 0);
}

#[test]
fn add_immediate_wraps_without_flag() {
    let mut m = Machine::new();
    m.execute(Instruction::SetRegister(15, 7), 0);
    m.execute(Instruction::SetRegister(2, 250), 0);
    m.execute(Instruction::AddX(2, 10), 0);
    assert_eq!(m.register(2), 4);
    assert_eq!(m.register(15), 7);
}

#[test]
fn flag_register_as_operand_is_overwritten_by_flag() {
    let mut m = Machine::new();
    m.execute(Instruction::SetRegister(15, 200), 0);
    m.execute(Instruction::SetRegister(1, 100), 0);
    m.execute(Instruction::AddXY(15, 1), 0);
    assert_eq!(m.register(15), 1);
}

#[test]
fn bitwise_ops() {
    let mut m = Machine::new();
    m.execute(Instruction::SetRegister(0, 0b1100), 0);
    m.execute(Instruction::SetRegister(1, 0b1010), 0);
    m.execute(Instruction::SetRegister(15, 9), 0);
    m.execute(Instruction::AssignXY(2, 0), 0);
    m.execute(Instruction::OrXY(2, 1), 0);
    assert_eq!(m.register(2), 0b1110);
    m.execute(Instruction::AssignXY(3, 0), 0);
    m.execute(Instruction::AndXY(3, 1), 0);
    assert_eq!(m.register(3), 0b1000);
    m.execute(Instruction::AssignXY(4, 0), 0);
    m.execute(Instruction::XorXY(4, 1), 0);
    assert_eq!(m.register(4), 0b0110);
    assert_eq!(m.register(15), 9);
}

#[test]
fn shifts_set_flag_to_bit_shifted_out() {
    let mut m = Machine::new();
    m.execute(Instruction::SetRegister(0, 0b1000_0101), 0);
    m.execute(Instruction::ShiftRightX1(0), 0);
    assert_eq!(m.register(0), 0b0100_0010);
    assert_eq!(m.register(15), 1);
    m.execute(Instruction::SetRegister(1, 0b1000_0101), 0);
    m.execute(Instruction::ShiftLeftX1(1), 0);
    assert_eq!(m.register(1), 0b0000_1010);
    assert_eq!(m.register(15), 1);
    m.execute(Instruction::SetRegister(2, 0b0100_0000), 0);
    m.execute(Instruction::ShiftLeftX1(2), 0);
    assert_eq!(m.register(2), 0b1000_0000);
    assert_eq!(m.register(15), 0);
}

#[test]
fn draw_twice_restores_display() {
    let mut m = Machine::new();
    m.execute(Instruction::SetRegister(0, 62), 0);
    m.execute(Instruction::SetRegister(1, 30), 0);
    m.execute(Instruction::SetRegister(2, 0xA), 0);
    m.execute(Instruction::SpriteX(2), 0);
    let before = display(&m);
    assert_eq!(m.execute(Instruction::Draw(0, 1, 5), 0), Status::Running);
    assert_eq!(m.register(15), 0);
    assert!(m.display_dirty());
    assert_ne!(display(&m), before);
    m.execute(Instruction::Draw(0, 1, 5), 0);
    assert_eq!(m.register(15), 1);
    assert_eq!(display(&m), before);
}

#[test]
fn draw_wraps_round_edges() {
    let mut m = Machine::new();
    m.execute(Instruction::SetRegister(0, 62), 0);
    m.execute(Instruction::SetRegister(1, 31), 0);
    // glyph 0: rows F0 90 90 90 F0
    m.execute(Instruction::SetIR(0), 0);
    m.execute(Instruction::Draw(0, 1, 2), 0);
    // row 0 of the sprite at y = 31: columns 62, 63, 0, 1 set
    assert!(m.pixel(62, 31) && m.pixel(63, 31) && m.pixel(0, 31) && m.pixel(1, 31));
    assert!(!m.pixel(2, 31));
    // row 1 of the sprite wraps to y = 0: 0x90 sets columns 62 and 1
    assert!(m.pixel(62, 0) && !m.pixel(63, 0) && !m.pixel(0, 0) && m.pixel(1, 0));
}

#[test]
fn clear_blanks_display() {
    let mut m = Machine::new();
    m.execute(Instruction::Draw(0, 0, 5), 0);
    m.step();
    assert!(!m.display_dirty());
    m.execute(Instruction::Clear, 0);
    assert!(m.display_dirty());
    assert!(display(&m).iter().all(|p| !p));
}

#[test]
fn call_then_return() {
    let mut m = machine_with(vec![0x23, 0x00]);
    let depth = m.stack_depth();
    assert_eq!(m.step(), Status::Running);
    assert_eq!(m.pc(), 0x300);
    assert_eq!(m.stack_depth(), depth + 1);
    assert_eq!(m.execute(Instruction::Return, 0), Status::Running);
    assert_eq!(m.pc(), 0x202);
    assert_eq!(m.stack_depth(), depth);
}

#[test]
fn return_on_empty_stack_underflows() {
    let mut m = Machine::new();
    assert_eq!(m.execute(Instruction::Return, 0), Status::Halted(HaltReason::StackUnderflow));
    assert_eq!(m.pc(), 0x200);
}

#[test]
fn call_on_full_stack_overflows() {
    let mut m = Machine::with_stack_depth(1);
    assert_eq!(m.execute(Instruction::Call(0x300), 0), Status::Running);
    assert_eq!(m.execute(Instruction::Call(0x400), 0), Status::Halted(HaltReason::StackOverflow));
    assert_eq!(m.pc(), 0x300);
    assert_eq!(m.stack_depth(), 1);
}

#[test]
fn invalid_word_halts_without_change() {
    let mut m = machine_with(vec![0x60, 0x2A, 0x50, 0x01]);
    m.step();
    m.execute(Instruction::Draw(0, 0, 5), 0);
    let regs = registers(&m);
    let pixels = display(&m);
    let pc = m.pc();
    assert_eq!(m.step(), Status::Halted(HaltReason::DecodeHalt));
    assert_eq!(registers(&m), regs);
    assert_eq!(display(&m), pixels);
    assert_eq!(m.pc(), pc);
}

#[test]
fn delay_timer_ticks_down_to_zero() {
    let mut m = Machine::new();
    m.set_timer(Timer::Delay, 5);
    for _ in 0..5 {
        m.tick_timers();
    }
    assert_eq!(m.get_timer(Timer::Delay), 0);
    m.tick_timers();
    assert_eq!(m.get_timer(Timer::Delay), 0);
}

#[test]
fn sound_timer_beeps_once() {
    let mut m = Machine::new();
    m.execute(Instruction::SetRegister(4, 2), 0);
    m.execute(Instruction::SetSoundTimer(4), 0);
    assert_eq!(m.get_timer(Timer::Sound), 2);
    assert!(!m.tick_timers());
    assert!(m.tick_timers());
    assert!(!m.tick_timers());
}

#[test]
fn timer_register_transfer() {
    let mut m = Machine::new();
    m.execute(Instruction::SetRegister(4, 42), 0);
    m.execute(Instruction::SetDelayTimer(4), 0);
    m.execute(Instruction::TimerX(7), 0);
    assert_eq!(m.register(7), 42);
}

#[test]
fn skips() {
    let mut m = Machine::new();
    m.execute(Instruction::SetRegister(1, 3), 0);
    m.execute(Instruction::SetRegister(2, 3), 0);
    let pc = m.pc();
    m.execute(Instruction::SkipEq(1, 3), 0);
    assert_eq!(m.pc(), pc + 4);
    m.execute(Instruction::SkipNotEq(1, 3), 0);
    assert_eq!(m.pc(), pc + 6);
    m.execute(Instruction::SkipEqXY(1, 2), 0);
    assert_eq!(m.pc(), pc + 10);
    m.execute(Instruction::SkipNotEqXY(1, 2), 0);
    assert_eq!(m.pc(), pc + 12);
    m.execute(Instruction::SetRegister(2, 4), 0);
    m.execute(Instruction::SkipNotEqXY(1, 2), 0);
    assert_eq!(m.pc(), pc + 18);
}

#[test]
fn key_skips() {
    let mut m = Machine::new();
    m.execute(Instruction::SetRegister(0, 0xB), 0);
    let pc = m.pc();
    m.execute(Instruction::KeyPressedX(0), 0);
    assert_eq!(m.pc(), pc + 2);
    m.execute(Instruction::KeyNotPressedX(0), 0);
    assert_eq!(m.pc(), pc + 6);
    m.set_key(0xB, true);
    m.execute(Instruction::KeyPressedX(0), 0);
    assert_eq!(m.pc(), pc + 10);
    m.execute(Instruction::KeyNotPressedX(0), 0);
    assert_eq!(m.pc(), pc + 12);
}

#[test]
fn key_wait_spins_until_a_key_is_down() {
    let mut m = Machine::new();
    let pc = m.pc();
    assert_eq!(m.execute(Instruction::KeyPressX(3), 0), Status::Running);
    assert_eq!(m.pc(), pc);
    m.set_key(9, true);
    m.set_key(5, true);
    m.execute(Instruction::KeyPressX(3), 0);
    assert_eq!(m.register(3), 5);
    assert_eq!(m.pc(), pc + 2);
}

#[test]
fn index_register_ops() {
    let mut m = Machine::new();
    m.execute(Instruction::SetIR(0x300), 0);
    m.execute(Instruction::SetRegister(1, 0x20), 0);
    m.execute(Instruction::MemAdd(1), 0);
    assert_eq!(m.index_register(), 0x320);
    m.execute(Instruction::SetRegister(2, 7), 0);
    m.execute(Instruction::SpriteX(2), 0);
    assert_eq!(m.index_register(), 35);
}

#[test]
fn bcd_stores_digits() {
    let mut m = Machine::new();
    m.execute(Instruction::SetRegister(6, 254), 0);
    m.execute(Instruction::SetIR(0x400), 0);
    m.execute(Instruction::BCD(6), 0);
    assert_eq!(m.memory_at(0x400), 2);
    assert_eq!(m.memory_at(0x401), 5);
    assert_eq!(m.memory_at(0x402), 4);
    assert_eq!(m.index_register(), 0x400);
}

#[test]
fn dump_and_load_registers() {
    let mut m = Machine::new();
    for r in 0..4 {
        m.execute(Instruction::SetRegister(r, 10 + r as u8), 0);
    }
    m.execute(Instruction::SetIR(0x500), 0);
    m.execute(Instruction::DumpX(2), 0);
    assert_eq!(m.memory_at(0x500), 10);
    assert_eq!(m.memory_at(0x502), 12);
    assert_eq!(m.memory_at(0x503), 0);
    assert_eq!(m.index_register(), 0x500);
    for r in 0..4 {
        m.execute(Instruction::SetRegister(r, 0), 0);
    }
    m.execute(Instruction::LoadX(1), 0);
    assert_eq!(m.register(0), 10);
    assert_eq!(m.register(1), 11);
    assert_eq!(m.register(2), 0);
    assert_eq!(m.index_register(), 0x500);
}

#[test]
fn jumps() {
    let mut m = Machine::new();
    m.execute(Instruction::JumpTo(0x345), 0);
    assert_eq!(m.pc(), 0x345);
    m.execute(Instruction::SetRegister(0, 0x10), 0);
    m.execute(Instruction::Flow(0x300), 0);
    assert_eq!(m.pc(), 0x310);
    m.execute(Instruction::SetRegister(0, 0xFF), 0);
    m.execute(Instruction::Flow(0xFFF), 0);
    assert_eq!(m.pc(), 0x0FE);
}

#[test]
fn random_is_masked() {
    let mut m = machine_with(vec![0xC3, 0x0F, 0xC4, 0x00]);
    for _ in 0..2 {
        assert_eq!(m.step(), Status::Running);
    }
    assert!(m.register(3) <= 0x0F);
    assert_eq!(m.register(4), 0);
    for _ in 0..32 {
        m.execute(Instruction::RandX(5, 0xF0), 0x3C);
        assert_eq!(m.register(5), 0x30);
    }
}
