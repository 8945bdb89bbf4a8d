use chipinho::constants::{
    DISPLAY_SIZE, FONT_BEGIN_ADDR, MAX_STACK_SIZE, MEMORY_SIZE, NUM_REGISTERS, PROGRAM_BEGIN_ADDR,
    RANDOM_SEED,
};
use chipinho::emulator::Emulator;
use chipinho::error::Error;
use chipinho::font::{FONT_SET, FONT_SET_SIZE};
use chipinho::instruction::Instruction;

const NO_KEYS: [bool; 16] = [false; 16];

type Snapshot = (
    (u16, u16, u8, u8, Option<u8>, u8, u16),
    Vec<u16>,
    [u8; NUM_REGISTERS],
    Vec<u8>,
    Vec<bool>,
);

fn snapshot(emulator: &Emulator) -> Snapshot {
    (
        (
            emulator.program_counter(),
            emulator.index(),
            emulator.delay_timer(),
            emulator.sound_timer(),
            emulator.waiting_for_key(),
            emulator.last_random_u8(),
            emulator.stack_size(),
        ),
        emulator.stack().to_vec(),
        *emulator.registers(),
        emulator.memory().to_vec(),
        emulator.vram().to_vec(),
    )
}

fn boot(program: &[u8]) -> Emulator {
    let mut emulator = Emulator::new();
    assert_eq!(emulator.load_program(program), Ok(()));
    emulator
}

fn run(emulator: &mut Emulator, ticks: usize) {
    for _ in 0..ticks {
        assert_eq!(emulator.tick(&NO_KEYS), Ok(()));
    }
}

fn only_key(key: usize) -> [bool; 16] {
    let mut keypad = [false; 16];
    keypad[key] = true;
    keypad
}

#[test]
fn new_machine_is_blank() {
    let emulator = Emulator::new();
    assert!(emulator.vram().iter().all(|pixel| !*pixel));
    assert_eq!(emulator.vram().len(), DISPLAY_SIZE);
    assert_eq!(*emulator.registers(), [0u8; NUM_REGISTERS]);
    assert_eq!(emulator.stack_size(), 0);
    assert!(emulator.stack().is_empty());
    assert_eq!(emulator.delay_timer(), 0);
    assert_eq!(emulator.sound_timer(), 0);
    assert_eq!(emulator.index(), 0);
    assert_eq!(emulator.waiting_for_key(), None);
    assert_eq!(emulator.last_random_u8(), RANDOM_SEED);
    assert_eq!(emulator.last_random_u8(), 123);
    assert_eq!(emulator.program_counter(), PROGRAM_BEGIN_ADDR);
    assert_eq!(emulator.program_counter(), 0x200);
    assert!(!emulator.should_beep());
    let memory = emulator.memory();
    assert_eq!(memory.len(), MEMORY_SIZE);
    let font_begin = FONT_BEGIN_ADDR as usize;
    assert_eq!(&memory[font_begin..font_begin + FONT_SET_SIZE], &FONT_SET[..]);
    assert!(memory[..font_begin].iter().all(|byte| *byte == 0));
    assert!(memory[font_begin + FONT_SET_SIZE..].iter().all(|byte| *byte == 0));
}

#[test]
fn glyph_table_holds_the_sixteen_digits() {
    let emulator = Emulator::new();
    let memory = emulator.memory();
    assert_eq!(&memory[0x50..0x55], &[0xF0, 0x90, 0x90, 0x90, 0xF0]);
    assert_eq!(&memory[0x55..0x5A], &[0x20, 0x60, 0x20, 0x20, 0x70]);
    assert_eq!(&memory[0x9B..0xA0], &[0xF0, 0x80, 0xF0, 0x80, 0x80]);
}

#[test]
fn load_program_round_trip() {
    let program: Vec<u8> = (0..1000u32).map(|i| (i * 7 + 3) as u8).collect();
    let mut emulator = Emulator::new();
    let fresh = snapshot(&emulator);
    assert_eq!(emulator.load_program(&program), Ok(()));
    let memory = emulator.memory();
    assert_eq!(&memory[0x200..0x200 + program.len()], &program[..]);
    assert_eq!(&memory[..0x200], &fresh.3[..0x200]);
    assert!(memory[0x200 + program.len()..].iter().all(|byte| *byte == 0));
    let loaded = snapshot(&emulator);
    assert_eq!(loaded.0, fresh.0);
    assert_eq!(loaded.1, fresh.1);
    assert_eq!(loaded.2, fresh.2);
    assert_eq!(loaded.4, fresh.4);
}

#[test]
fn load_program_accepts_what_just_fits() {
    let program: Vec<u8> = (0..3584u32).map(|i| (i % 251) as u8 + 1).collect();
    let mut emulator = Emulator::new();
    assert_eq!(emulator.load_program(&program), Ok(()));
    assert_eq!(&emulator.memory()[0x200..], &program[..]);
    assert_eq!(emulator.memory()[4095], program[3583]);
}

#[test]
fn load_program_rejects_what_does_not_fit() {
    let program = vec![0xAAu8; 3585];
    let mut emulator = Emulator::new();
    let fresh = snapshot(&emulator);
    assert_eq!(emulator.load_program(&program), Err(Error::NotEnoughMemoryForProgram));
    assert_eq!(snapshot(&emulator), fresh);
    let huge = vec![0x55u8; 70000];
    assert_eq!(emulator.load_program(&huge), Err(Error::NotEnoughMemoryForProgram));
    assert_eq!(snapshot(&emulator), fresh);
}

#[test]
fn load_program_of_nothing_changes_nothing() {
    let mut emulator = Emulator::new();
    let fresh = snapshot(&emulator);
    assert_eq!(emulator.load_program(&[]), Ok(()));
    assert_eq!(snapshot(&emulator), fresh);
}

#[test]
fn second_load_keeps_the_tail_of_a_longer_program() {
    let mut emulator = boot(&[1, 2, 3, 4]);
    assert_eq!(emulator.load_program(&[9, 8]), Ok(()));
    assert_eq!(&emulator.memory()[0x200..0x205], &[9, 8, 3, 4, 0]);
}

#[test]
fn load_then_add_gives_eight() {
    let mut emulator = boot(&[0x60, 0x05, 0x70, 0x03]);
    assert_eq!(emulator.get_opcode(), Ok(Instruction::Op6xkk(0, 5)));
    assert_eq!(emulator.tick(&NO_KEYS), Ok(()));
    assert_eq!(emulator.registers()[0], 5);
    assert_eq!(emulator.program_counter(), 0x202);
    assert_eq!(emulator.get_opcode(), Ok(Instruction::Op7xkk(0, 3)));
    assert_eq!(emulator.tick(&NO_KEYS), Ok(()));
    assert_eq!(emulator.registers()[0], 8);
    assert_eq!(emulator.program_counter(), 0x204);
}

#[test]
fn get_opcode_puts_the_first_byte_above_the_second() {
    let emulator = boot(&[0xA1, 0x23]);
    assert_eq!(emulator.get_opcode(), Ok(Instruction::OpAnnn(0x123)));
    let before = snapshot(&emulator);
    let _ = emulator.get_opcode();
    assert_eq!(snapshot(&emulator), before);
}

#[test]
fn add_with_carry() {
    let mut emulator = boot(&[0x60, 0xFA, 0x61, 0x0A, 0x80, 0x14]);
    run(&mut emulator, 3);
    assert_eq!(emulator.registers()[0], 4);
    assert_eq!(emulator.registers()[1], 10);
    assert_eq!(emulator.registers()[15], 1);
}

#[test]
fn add_without_carry() {
    let mut emulator = boot(&[0x60, 0x01, 0x61, 0x01, 0x80, 0x14]);
    run(&mut emulator, 3);
    assert_eq!(emulator.registers()[0], 2);
    assert_eq!(emulator.registers()[15], 0);
}

#[test]
fn add_clears_a_carry_left_by_an_earlier_sum() {
    let mut emulator = boot(&[0x60, 0xFF, 0x61, 0x01, 0x80, 0x14, 0x80, 0x14]);
    run(&mut emulator, 3);
    assert_eq!(emulator.registers()[0], 0);
    assert_eq!(emulator.registers()[15], 1);
    run(&mut emulator, 1);
    assert_eq!(emulator.registers()[0], 1);
    assert_eq!(emulator.registers()[15], 0);
}

#[test]
fn add_into_the_flag_register_keeps_the_sum() {
    let mut emulator = boot(&[0x6F, 0xFA, 0x61, 0x0A, 0x8F, 0x14]);
    run(&mut emulator, 3);
    assert_eq!(emulator.registers()[15], 4);
}

#[test]
fn literal_add_wraps_and_leaves_the_flag() {
    let mut emulator = boot(&[0x60, 0xFF, 0x70, 0x02]);
    run(&mut emulator, 2);
    assert_eq!(emulator.registers()[0], 1);
    assert_eq!(emulator.registers()[15], 0);
}

#[test]
fn subtract_sets_flag_only_when_strictly_greater() {
    let mut emulator = boot(&[0x60, 0x0A, 0x61, 0x03, 0x80, 0x15]);
    run(&mut emulator, 3);
    assert_eq!(emulator.registers()[0], 7);
    assert_eq!(emulator.registers()[15], 1);

    let mut emulator = boot(&[0x60, 0x03, 0x61, 0x0A, 0x80, 0x15]);
    run(&mut emulator, 3);
    assert_eq!(emulator.registers()[0], 249);
    assert_eq!(emulator.registers()[15], 0);

    let mut emulator = boot(&[0x60, 0x09, 0x61, 0x09, 0x80, 0x15]);
    run(&mut emulator, 3);
    assert_eq!(emulator.registers()[0], 0);
    assert_eq!(emulator.registers()[15], 0);
}

#[test]
fn reverse_subtract_takes_the_first_from_the_second() {
    let mut emulator = boot(&[0x60, 0x03, 0x61, 0x0A, 0x80, 0x17]);
    run(&mut emulator, 3);
    assert_eq!(emulator.registers()[0], 7);
    assert_eq!(emulator.registers()[1], 10);
    assert_eq!(emulator.registers()[15], 1);

    let mut emulator = boot(&[0x60, 0x0A, 0x61, 0x03, 0x80, 0x17]);
    run(&mut emulator, 3);
    assert_eq!(emulator.registers()[0], 249);
    assert_eq!(emulator.registers()[15], 0);
}

#[test]
fn shift_right_in_place() {
    let mut emulator = boot(&[0x60, 0x85, 0x61, 0xFF, 0x80, 0x16, 0x80, 0x16]);
    run(&mut emulator, 3);
    assert_eq!(emulator.registers()[0], 0x42);
    assert_eq!(emulator.registers()[1], 0xFF);
    assert_eq!(emulator.registers()[15], 1);
    run(&mut emulator, 1);
    assert_eq!(emulator.registers()[0], 0x21);
    assert_eq!(emulator.registers()[15], 0);
}

#[test]
fn shift_left_in_place() {
    let mut emulator = boot(&[0x60, 0x85, 0x61, 0xFF, 0x80, 0x1E, 0x80, 0x1E]);
    run(&mut emulator, 3);
    assert_eq!(emulator.registers()[0], 0x0A);
    assert_eq!(emulator.registers()[1], 0xFF);
    assert_eq!(emulator.registers()[15], 1);
    run(&mut emulator, 1);
    assert_eq!(emulator.registers()[0], 0x14);
    assert_eq!(emulator.registers()[15], 0);
}

#[test]
fn copy_and_bitwise_operations() {
    let program = [
        0x60, 0xCC, 0x61, 0xAA, 0x82, 0x00, 0x82, 0x11, 0x83, 0x00, 0x83, 0x12, 0x84, 0x00, 0x84,
        0x13, 0x85, 0x10,
    ];
    let mut emulator = boot(&program);
    run(&mut emulator, 9);
    assert_eq!(emulator.registers()[2], 0xCC | 0xAA);
    assert_eq!(emulator.registers()[3], 0xCC & 0xAA);
    assert_eq!(emulator.registers()[4], 0xCC ^ 0xAA);
    assert_eq!(emulator.registers()[5], 0xAA);
    assert_eq!(emulator.registers()[15], 0);
    assert_eq!(emulator.program_counter(), 0x200 + 18);
}

#[test]
fn skip_if_equal_to_literal() {
    let mut emulator = boot(&[0x60, 0x07, 0x30, 0x07]);
    run(&mut emulator, 2);
    assert_eq!(emulator.program_counter(), 0x206);
    let mut emulator = boot(&[0x60, 0x07, 0x30, 0x08]);
    run(&mut emulator, 2);
    assert_eq!(emulator.program_counter(), 0x204);
}

#[test]
fn skip_if_different_from_literal() {
    let mut emulator = boot(&[0x60, 0x07, 0x40, 0x08]);
    run(&mut emulator, 2);
    assert_eq!(emulator.program_counter(), 0x206);
    let mut emulator = boot(&[0x60, 0x07, 0x40, 0x07]);
    run(&mut emulator, 2);
    assert_eq!(emulator.program_counter(), 0x204);
}

#[test]
fn skip_on_register_comparison() {
    let mut emulator = boot(&[0x60, 0x07, 0x61, 0x07, 0x50, 0x10]);
    run(&mut emulator, 3);
    assert_eq!(emulator.program_counter(), 0x208);
    let mut emulator = boot(&[0x60, 0x07, 0x61, 0x08, 0x50, 0x10]);
    run(&mut emulator, 3);
    assert_eq!(emulator.program_counter(), 0x206);
    let mut emulator = boot(&[0x60, 0x07, 0x61, 0x08, 0x90, 0x10]);
    run(&mut emulator, 3);
    assert_eq!(emulator.program_counter(), 0x208);
    let mut emulator = boot(&[0x60, 0x07, 0x61, 0x07, 0x90, 0x10]);
    run(&mut emulator, 3);
    assert_eq!(emulator.program_counter(), 0x206);
}

#[test]
fn skipped_instruction_is_not_carried_out() {
    let mut emulator = boot(&[0x30, 0x00, 0x61, 0x11, 0x62, 0x22]);
    run(&mut emulator, 2);
    assert_eq!(emulator.registers()[1], 0);
    assert_eq!(emulator.registers()[2], 0x22);
}

#[test]
fn jumps_set_the_program_counter() {
    let mut emulator = boot(&[0x12, 0x08]);
    run(&mut emulator, 1);
    assert_eq!(emulator.program_counter(), 0x208);
    let mut emulator = boot(&[0x03, 0x45]);
    run(&mut emulator, 1);
    assert_eq!(emulator.program_counter(), 0x345);
    assert_eq!(emulator.stack_size(), 0);
}

#[test]
fn call_pushes_and_return_pops() {
    let mut emulator = boot(&[0x22, 0x04, 0x00, 0x00, 0x00, 0xEE]);
    run(&mut emulator, 1);
    assert_eq!(emulator.program_counter(), 0x204);
    assert_eq!(emulator.stack_size(), 1);
    assert_eq!(emulator.stack(), &[0x200]);
    run(&mut emulator, 1);
    assert_eq!(emulator.program_counter(), 0x200);
    assert_eq!(emulator.stack_size(), 0);
}

#[test]
fn nested_calls_return_in_reverse_order() {
    let mut emulator = boot(&[0x22, 0x04, 0x00, 0x00, 0x22, 0x08, 0x00, 0x00, 0x00, 0xEE]);
    run(&mut emulator, 2);
    assert_eq!(emulator.stack_size(), 2);
    assert_eq!(emulator.stack(), &[0x200, 0x204]);
    assert_eq!(emulator.program_counter(), 0x208);
    run(&mut emulator, 1);
    assert_eq!(emulator.program_counter(), 0x204);
    assert_eq!(emulator.stack_size(), 1);
}

#[test]
fn call_on_a_full_stack_fails() {
    let mut emulator = boot(&[0x22, 0x00]);
    run(&mut emulator, MAX_STACK_SIZE);
    assert_eq!(emulator.stack_size(), 16);
    assert_eq!(emulator.stack(), &[0x200; MAX_STACK_SIZE]);
    let before = snapshot(&emulator);
    assert_eq!(emulator.tick(&NO_KEYS), Err(Error::StackOverflow));
    assert_eq!(snapshot(&emulator), before);
    assert_eq!(emulator.tick(&NO_KEYS), Err(Error::StackOverflow));
}

#[test]
fn return_on_an_empty_stack_fails() {
    let mut emulator = boot(&[0x00, 0xEE]);
    let before = snapshot(&emulator);
    assert_eq!(emulator.tick(&NO_KEYS), Err(Error::StackUnderflow));
    assert_eq!(snapshot(&emulator), before);
}

#[test]
fn undecodable_instruction_fails_the_tick() {
    let mut emulator = boot(&[0x60, 0x01, 0xF0, 0xFF]);
    run(&mut emulator, 1);
    let before = snapshot(&emulator);
    assert_eq!(emulator.get_opcode(), Err(Error::InvalidInstruction(0xF0FF)));
    assert_eq!(emulator.tick(&NO_KEYS), Err(Error::InvalidInstruction(0xF0FF)));
    assert_eq!(snapshot(&emulator), before);
}

#[test]
fn failed_tick_does_not_count_timers_down() {
    let mut emulator = boot(&[0x60, 0x09, 0xF0, 0x15, 0xF0, 0x18, 0x00, 0xEE]);
    run(&mut emulator, 3);
    assert_eq!(emulator.delay_timer(), 7);
    assert_eq!(emulator.sound_timer(), 8);
    assert_eq!(emulator.tick(&NO_KEYS), Err(Error::StackUnderflow));
    assert_eq!(emulator.delay_timer(), 7);
    assert_eq!(emulator.sound_timer(), 8);
}

#[test]
fn fetch_at_the_last_byte_fails_with_the_address_behind_it() {
    let mut emulator = boot(&[0x1F, 0xFF]);
    run(&mut emulator, 1);
    assert_eq!(emulator.program_counter(), 0xFFF);
    let before = snapshot(&emulator);
    assert_eq!(emulator.get_opcode(), Err(Error::OutOfBoundsMemoryAccess(0x1000)));
    assert_eq!(emulator.tick(&NO_KEYS), Err(Error::OutOfBoundsMemoryAccess(0x1000)));
    assert_eq!(snapshot(&emulator), before);
}

#[test]
fn fetch_behind_memory_fails_with_the_program_counter() {
    let mut program = vec![0u8; 3584];
    program[0] = 0x1F;
    program[1] = 0xFE;
    program[3582] = 0x30;
    program[3583] = 0x00;
    let mut emulator = boot(&program);
    run(&mut emulator, 2);
    assert_eq!(emulator.program_counter(), 0x1002);
    assert_eq!(emulator.get_opcode(), Err(Error::OutOfBoundsMemoryAccess(0x1002)));
    assert_eq!(emulator.tick(&NO_KEYS), Err(Error::OutOfBoundsMemoryAccess(0x1002)));
}

#[test]
fn index_register_instructions() {
    let mut emulator = boot(&[0xA1, 0x23, 0x60, 0x10, 0xB3, 0x00, 0x61, 0xFF, 0xF1, 0x1E]);
    run(&mut emulator, 1);
    assert_eq!(emulator.index(), 0x123);
    run(&mut emulator, 2);
    assert_eq!(emulator.index(), 0x310);
    assert_eq!(emulator.program_counter(), 0x206);
    run(&mut emulator, 2);
    assert_eq!(emulator.index(), 0x310 + 0xFF);
}

#[test]
fn index_add_wraps_at_sixteen_bits() {
    let mut emulator = boot(&[0x60, 0xFF, 0xAF, 0xFF, 0xF0, 0x1E, 0x12, 0x04]);
    run(&mut emulator, 2);
    run(&mut emulator, 2 * 240);
    assert_eq!(emulator.index() as u32, 4095 + 240 * 255);
    run(&mut emulator, 1);
    assert_eq!(emulator.index(), 14);
}

#[test]
fn font_address_uses_the_low_digit() {
    let program = [0x60, 0x0A, 0xF0, 0x29, 0x60, 0x1A, 0xF0, 0x29, 0x60, 0x00, 0xF0, 0x29];
    let mut emulator = boot(&program);
    run(&mut emulator, 2);
    assert_eq!(emulator.index(), 0x50 + 10 * 5);
    assert_eq!(&emulator.memory()[130..135], &[0xF0, 0x90, 0xF0, 0x90, 0x90]);
    run(&mut emulator, 2);
    assert_eq!(emulator.index(), 130);
    run(&mut emulator, 2);
    assert_eq!(emulator.index(), 0x50);
}

#[test]
fn decimal_digits_are_stored_at_the_index() {
    let program = [0x60, 0xEA, 0xA3, 0x00, 0xF0, 0x33, 0x60, 0x07, 0xA3, 0x10, 0xF0, 0x33];
    let mut emulator = boot(&program);
    run(&mut emulator, 3);
    assert_eq!(&emulator.memory()[0x300..0x304], &[2, 3, 4, 0]);
    assert_eq!(emulator.index(), 0x300);
    run(&mut emulator, 3);
    assert_eq!(&emulator.memory()[0x310..0x313], &[0, 0, 7]);
    let mut emulator = boot(&[0x60, 0xFF, 0xA3, 0x00, 0xF0, 0x33]);
    run(&mut emulator, 3);
    assert_eq!(&emulator.memory()[0x300..0x303], &[2, 5, 5]);
}

#[test]
fn registers_are_stored_up_to_and_including_the_named_one() {
    let program = [0x60, 0x11, 0x61, 0x22, 0x62, 0x33, 0x63, 0x44, 0xA3, 0x00, 0xF2, 0x55];
    let mut emulator = boot(&program);
    run(&mut emulator, 6);
    assert_eq!(&emulator.memory()[0x300..0x304], &[0x11, 0x22, 0x33, 0x00]);
    assert_eq!(emulator.index(), 0x300);
    assert_eq!(emulator.program_counter(), 0x20C);
}

#[test]
fn registers_are_loaded_up_to_and_including_the_named_one() {
    let program = [0x6A, 0x77, 0xA2, 0x08, 0xF2, 0x65, 0x00, 0x00, 0x0A, 0x0B, 0x0C, 0x0D];
    let mut emulator = boot(&program);
    run(&mut emulator, 3);
    assert_eq!(&emulator.registers()[..4], &[0x0A, 0x0B, 0x0C, 0x00]);
    assert_eq!(emulator.registers()[10], 0x77);
    assert_eq!(emulator.index(), 0x208);
}

#[test]
fn store_and_load_of_all_registers() {
    let mut program = Vec::new();
    for register in 0..16u8 {
        program.extend_from_slice(&[0x60 | register, register * 3 + 1]);
    }
    program.extend_from_slice(&[0xA4, 0x00, 0xFF, 0x55]);
    for register in 0..16u8 {
        program.extend_from_slice(&[0x60 | register, 0]);
    }
    program.extend_from_slice(&[0xFF, 0x65]);
    let mut emulator = boot(&program);
    run(&mut emulator, 18);
    let expected: Vec<u8> = (0..16u8).map(|register| register * 3 + 1).collect();
    assert_eq!(&emulator.memory()[0x400..0x410], &expected[..]);
    run(&mut emulator, 16);
    assert_eq!(*emulator.registers(), [0u8; 16]);
    run(&mut emulator, 1);
    assert_eq!(&emulator.registers()[..], &expected[..]);
}

#[test]
fn access_through_the_index_that_leaves_memory_fails() {
    let mut emulator = boot(&[0xAF, 0xFF, 0xF0, 0x33]);
    run(&mut emulator, 1);
    let before = snapshot(&emulator);
    assert_eq!(emulator.tick(&NO_KEYS), Err(Error::OutOfBoundsMemoryAccess(0x1000)));
    assert_eq!(snapshot(&emulator), before);

    let mut emulator = boot(&[0xAF, 0xFF, 0xF1, 0x55]);
    run(&mut emulator, 1);
    assert_eq!(emulator.tick(&NO_KEYS), Err(Error::OutOfBoundsMemoryAccess(0x1000)));

    let mut emulator = boot(&[0xAF, 0xFF, 0xF1, 0x65]);
    run(&mut emulator, 1);
    assert_eq!(emulator.tick(&NO_KEYS), Err(Error::OutOfBoundsMemoryAccess(0x1000)));

    let mut emulator = boot(&[0xAF, 0xFF, 0xD0, 0x02]);
    run(&mut emulator, 1);
    assert_eq!(emulator.tick(&NO_KEYS), Err(Error::OutOfBoundsMemoryAccess(0x1000)));
}

#[test]
fn access_through_the_index_up_to_the_last_byte_succeeds() {
    let program = [0x60, 0x5A, 0xAF, 0xFF, 0xF0, 0x55, 0x60, 0x00, 0xF0, 0x65, 0xD0, 0x01];
    let mut emulator = boot(&program);
    run(&mut emulator, 3);
    assert_eq!(emulator.memory()[0xFFF], 0x5A);
    run(&mut emulator, 2);
    assert_eq!(emulator.registers()[0], 0x5A);
    run(&mut emulator, 1);
    assert_eq!(emulator.program_counter(), 0x20C);

    let mut emulator = boot(&[0x60, 0x7B, 0xAF, 0xFD, 0xF0, 0x33]);
    run(&mut emulator, 3);
    assert_eq!(&emulator.memory()[0xFFD..], &[1, 2, 3]);
}

#[test]
fn access_through_an_index_behind_memory_reports_the_index() {
    let mut emulator = boot(&[0x60, 0xFF, 0xAF, 0xFF, 0xF0, 0x1E, 0xF0, 0x33]);
    run(&mut emulator, 3);
    assert_eq!(emulator.index(), 4350);
    assert_eq!(emulator.tick(&NO_KEYS), Err(Error::OutOfBoundsMemoryAccess(4350)));
    assert_eq!(emulator.program_counter(), 0x206);
}

#[test]
fn sprite_without_rows_reads_nothing() {
    let mut emulator = boot(&[0x60, 0xFF, 0xAF, 0xFF, 0xF0, 0x1E, 0x6F, 0x09, 0xD0, 0x00]);
    run(&mut emulator, 5);
    assert!(emulator.vram().iter().all(|pixel| !*pixel));
    assert_eq!(emulator.registers()[15], 0);
    assert_eq!(emulator.program_counter(), 0x20A);
}

#[test]
fn delay_timer_decays_to_zero_and_stays() {
    let program = [0x60, 0x03, 0xF0, 0x15, 0x61, 0x00, 0x61, 0x00, 0x61, 0x00, 0x61, 0x00];
    let mut emulator = boot(&program);
    run(&mut emulator, 2);
    assert_eq!(emulator.delay_timer(), 2);
    run(&mut emulator, 1);
    assert_eq!(emulator.delay_timer(), 1);
    run(&mut emulator, 1);
    assert_eq!(emulator.delay_timer(), 0);
    run(&mut emulator, 1);
    assert_eq!(emulator.delay_timer(), 0);
    run(&mut emulator, 1);
    assert_eq!(emulator.delay_timer(), 0);
}

#[test]
fn sound_timer_stops_the_beep_at_zero() {
    let mut emulator = boot(&[0x60, 0x03, 0xF0, 0x18, 0x61, 0x00, 0x61, 0x00, 0x61, 0x00]);
    assert!(!emulator.should_beep());
    run(&mut emulator, 2);
    assert_eq!(emulator.sound_timer(), 2);
    assert!(emulator.should_beep());
    run(&mut emulator, 1);
    assert_eq!(emulator.sound_timer(), 1);
    assert!(emulator.should_beep());
    run(&mut emulator, 1);
    assert_eq!(emulator.sound_timer(), 0);
    assert!(!emulator.should_beep());
    run(&mut emulator, 1);
    assert!(!emulator.should_beep());
}

#[test]
fn timers_run_independently() {
    let program = [0x60, 0x05, 0xF0, 0x15, 0x61, 0x02, 0xF1, 0x18, 0x62, 0x00, 0x62, 0x00];
    let mut emulator = boot(&program);
    run(&mut emulator, 4);
    assert_eq!(emulator.delay_timer(), 2);
    assert_eq!(emulator.sound_timer(), 1);
    run(&mut emulator, 1);
    assert_eq!(emulator.delay_timer(), 1);
    assert_eq!(emulator.sound_timer(), 0);
    run(&mut emulator, 1);
    assert_eq!(emulator.delay_timer(), 0);
    assert_eq!(emulator.sound_timer(), 0);
}

#[test]
fn delay_timer_is_read_before_it_counts_down() {
    let mut emulator = boot(&[0x60, 0x09, 0xF0, 0x15, 0xF1, 0x07]);
    run(&mut emulator, 3);
    assert_eq!(emulator.registers()[1], 8);
    assert_eq!(emulator.delay_timer(), 7);
}

#[test]
fn key_wait_holds_the_machine_until_the_key_is_down() {
    let program = [0x62, 0x0A, 0xF2, 0x15, 0x60, 0x05, 0xF0, 0x0A, 0x61, 0x07];
    let mut emulator = boot(&program);
    run(&mut emulator, 4);
    assert_eq!(emulator.waiting_for_key(), Some(0));
    assert_eq!(emulator.program_counter(), 0x208);
    assert_eq!(emulator.delay_timer(), 7);
    let waiting = snapshot(&emulator);

    for _ in 0..5 {
        assert_eq!(emulator.tick(&NO_KEYS), Ok(()));
        assert_eq!(snapshot(&emulator), waiting);
    }
    let mut others = [true; 16];
    others[5] = false;
    assert_eq!(emulator.tick(&others), Ok(()));
    assert_eq!(snapshot(&emulator), waiting);

    assert_eq!(emulator.tick(&only_key(5)), Ok(()));
    assert_eq!(emulator.waiting_for_key(), None);
    assert_eq!(emulator.registers()[0], 5);
    assert_eq!(emulator.registers()[1], 0);
    assert_eq!(emulator.program_counter(), 0x208);
    assert_eq!(emulator.delay_timer(), 7);

    assert_eq!(emulator.tick(&NO_KEYS), Ok(()));
    assert_eq!(emulator.registers()[1], 7);
    assert_eq!(emulator.program_counter(), 0x20A);
    assert_eq!(emulator.delay_timer(), 6);
}

#[test]
fn key_wait_is_recorded_for_the_named_register() {
    let mut emulator = boot(&[0x6B, 0x0F, 0xFB, 0x0A, 0x00, 0xE0]);
    run(&mut emulator, 2);
    assert_eq!(emulator.waiting_for_key(), Some(0xB));
    assert_eq!(emulator.tick(&only_key(14)), Ok(()));
    assert_eq!(emulator.waiting_for_key(), Some(0xB));
    assert_eq!(emulator.tick(&only_key(15)), Ok(()));
    assert_eq!(emulator.waiting_for_key(), None);
    assert_eq!(emulator.registers()[0xB], 15);
}

#[test]
fn key_wait_for_a_key_that_the_pad_lacks_never_ends() {
    let mut emulator = boot(&[0x60, 0x10, 0xF0, 0x0A]);
    run(&mut emulator, 2);
    let waiting = snapshot(&emulator);
    assert_eq!(emulator.tick(&[true; 16]), Ok(()));
    assert_eq!(snapshot(&emulator), waiting);
}

#[test]
fn waiting_machine_does_not_fail_on_what_follows() {
    let mut emulator = boot(&[0xF0, 0x0A, 0xFF, 0xFF]);
    run(&mut emulator, 1);
    assert_eq!(emulator.tick(&[false; 16]), Ok(()));
    assert_eq!(emulator.tick(&only_key(0)), Ok(()));
    assert_eq!(emulator.tick(&only_key(0)), Err(Error::InvalidInstruction(0xFFFF)));
}

#[test]
fn skip_if_key_pressed() {
    let mut emulator = boot(&[0x60, 0x03, 0xE0, 0x9E]);
    run(&mut emulator, 1);
    assert_eq!(emulator.tick(&only_key(3)), Ok(()));
    assert_eq!(emulator.program_counter(), 0x206);

    let mut emulator = boot(&[0x60, 0x03, 0xE0, 0x9E]);
    run(&mut emulator, 1);
    assert_eq!(emulator.tick(&only_key(4)), Ok(()));
    assert_eq!(emulator.program_counter(), 0x204);
}

#[test]
fn skip_if_key_not_pressed() {
    let mut emulator = boot(&[0x60, 0x03, 0xE0, 0xA1]);
    run(&mut emulator, 1);
    assert_eq!(emulator.tick(&only_key(3)), Ok(()));
    assert_eq!(emulator.program_counter(), 0x204);

    let mut emulator = boot(&[0x60, 0x03, 0xE0, 0xA1]);
    run(&mut emulator, 1);
    assert_eq!(emulator.tick(&only_key(4)), Ok(()));
    assert_eq!(emulator.program_counter(), 0x206);
}

#[test]
fn key_that_the_pad_lacks_counts_as_not_pressed() {
    let mut emulator = boot(&[0x60, 0x13, 0xE0, 0x9E, 0xE0, 0xA1]);
    run(&mut emulator, 1);
    assert_eq!(emulator.tick(&[true; 16]), Ok(()));
    assert_eq!(emulator.program_counter(), 0x204);
    assert_eq!(emulator.tick(&[true; 16]), Ok(()));
    assert_eq!(emulator.program_counter(), 0x208);
}

#[test]
fn random_bytes_follow_the_generator() {
    let mut emulator = boot(&[0xC0, 0xFF, 0xC1, 0x0F, 0xC2, 0xFF, 0xC3, 0x00]);
    run(&mut emulator, 1);
    assert_eq!(emulator.registers()[0], 172);
    assert_eq!(emulator.last_random_u8(), 172);
    run(&mut emulator, 1);
    assert_eq!(emulator.registers()[1], 61 & 0x0F);
    assert_eq!(emulator.last_random_u8(), 61);
    run(&mut emulator, 1);
    assert_eq!(emulator.registers()[2], 46);
    run(&mut emulator, 1);
    assert_eq!(emulator.registers()[3], 0);
    assert_eq!(emulator.last_random_u8(), 127);
    assert_eq!(emulator.registers()[15], 0);
}

#[test]
fn two_machines_with_the_same_input_stay_the_same() {
    let program = [
        0xC0, 0xFF, 0xC1, 0x3F, 0xC2, 0x1F, 0xA0, 0x50, 0xD1, 0x25, 0xF0, 0x15, 0xF1, 0x18, 0x80,
        0x14, 0xE0, 0x9E, 0x12, 0x00, 0x12, 0x00,
    ];
    let mut first = boot(&program);
    let mut second = boot(&program);
    for step in 0..200usize {
        let keypad = only_key(step % 16);
        assert_eq!(first.tick(&keypad), second.tick(&keypad));
        assert_eq!(snapshot(&first), snapshot(&second));
    }
    assert!(first.vram().iter().any(|pixel| *pixel));
}
