use vstd::prelude::*;
use vstd::slice::slice_subrange;
use crate::constants::{
    DISPLAY_SIZE,
    FLAG_REGISTER,
    FONT_BEGIN_ADDR,
    INSTRUCTION_SIZE,
    MAX_STACK_SIZE,
    MEMORY_SIZE,
    NUM_KEYS,
    NUM_REGISTERS,
    PROGRAM_BEGIN_ADDR,
    RANDOM_INCREMENT,
    RANDOM_MODULE,
    RANDOM_MULTIPLIER,
    RANDOM_SEED,
};
use crate::display::{collides, draw_sprite, drawn};
use crate::error::Error;
use crate::font::{FONT_SET, FONT_SET_SIZE, FONT_SIZE};
use crate::instruction::Instruction;
use crate::machine::{initial_memory, next_random, overwritten, pressed, Machine};

verus! {

/// The virtual machine: memory, registers, call stack, display, timers, the
/// random generator and the key wait, all owned by one value.
pub struct Emulator {
    program_counter: u16,
    index: u16,
    delay_timer: u8,
    sound_timer: u8,
    waiting_for_key: Option<u8>,
    last_random_u8: u8,
    stack_size: u16,
    registers: [u8; NUM_REGISTERS],
    stack: [u16; MAX_STACK_SIZE],
    memory: [u8; MEMORY_SIZE],
    vram: [bool; DISPLAY_SIZE],
}

impl View for Emulator {
    type V = Machine;

    closed spec fn view(&self) -> Machine {
        Machine {
            program_counter: self.program_counter,
            index: self.index,
            delay_timer: self.delay_timer,
            sound_timer: self.sound_timer,
            waiting_for_key: self.waiting_for_key,
            last_random_u8: self.last_random_u8,
            registers: self.registers@,
            stack: self.stack@.take(self.stack_size as int),
            memory: self.memory@,
            vram: self.vram@,
        }
    }
}

/// What the shifts and masks used on register values compute, as far as the
/// solver for bit vectors is needed to see it.
proof fn lemma_byte_bits_raw(value: u8)
    by (bit_vector)
    ensures
        value & 1 == value % 2,
        value >> 1 == value / 2,
        value >> 7 == value / 128,
        value << 1 == (value % 128) * 2,
        value & 0x0F == value % 16,
{
}

/// Shifts and masks on a byte, said with division and remainder.
proof fn lemma_byte_bits(value: u8)
    ensures
        value & 1 == value % 2,
        value >> 1 == value / 2,
        value >> 7 == value / 128,
        value << 1 == (value * 2) % 256,
        value & 0x0F == value % 16,
{
    lemma_byte_bits_raw(value);
    assert((value % 128) * 2 == (value * 2) % 256);
}

/// Wrapping sums and differences of bytes, said with remainders.
proof fn lemma_byte_wrapping(first: u8, second: u8)
    ensures
        vstd::wrapping::u8_specs::wrapping_add(first, second) == (first + second) % 256,
        vstd::wrapping::u8_specs::wrapping_sub(first, second) == (first - second) % 256,
{
}

/// A wrapping sum of sixteen-bit values, said with a remainder.
proof fn lemma_word_wrapping(first: u16, second: u16)
    ensures
        vstd::wrapping::u16_specs::wrapping_add(first, second) == (first + second) % 0x10000,
{
}

/// Joining two bytes by shifting and or-ing puts the first above the second.
proof fn lemma_word_bits(high: u8, low: u8)
    by (bit_vector)
    ensures
        ((high as u16) << 8) | (low as u16) == (high as u16) * 256 + (low as u16),
{
}

/// Tells whether key number `key` is held down in `keypad`.
fn is_pressed(keypad: &[bool; NUM_KEYS], key: u8) -> (held: bool)
    ensures
        held == pressed(keypad@, key),
{
    (key as usize) < NUM_KEYS && keypad[key as usize]
}

impl Emulator {
    /// The stack depth stays within the stack, and a key wait names a register
    /// that exists.
    #[verifier::type_invariant]
    spec fn inv(&self) -> bool {
        &&& self.stack_size <= MAX_STACK_SIZE
        &&& (self.waiting_for_key matches Some(register) ==> register < NUM_REGISTERS)
    }

    /// Builds a machine in its initial state.
    pub fn new() -> (emulator: Emulator)
        ensures
            emulator@ == Machine::initial(),
            emulator@.wf(),
            emulator@.memory.subrange(
                FONT_BEGIN_ADDR as int,
                FONT_BEGIN_ADDR + FONT_SET_SIZE,
            ) == FONT_SET@,
    {
        let mut memory = [0u8; MEMORY_SIZE];
        let mut i: usize = 0;
        while i < FONT_SET_SIZE
            invariant
                i <= FONT_SET_SIZE,
                forall|address: int|
                    0 <= address < MEMORY_SIZE ==> memory@[address] == if FONT_BEGIN_ADDR
                        <= address < FONT_BEGIN_ADDR + i {
                        FONT_SET@[address - FONT_BEGIN_ADDR]
                    } else {
                        0u8
                    },
            decreases FONT_SET_SIZE - i,
        {
            memory[FONT_BEGIN_ADDR as usize + i] = FONT_SET[i];
            i += 1;
        }
        let emulator = Emulator {
            program_counter: PROGRAM_BEGIN_ADDR,
            index: 0,
            delay_timer: 0,
            sound_timer: 0,
            waiting_for_key: None,
            last_random_u8: RANDOM_SEED,
            stack_size: 0,
            registers: [0; NUM_REGISTERS],
            stack: [0; MAX_STACK_SIZE],
            memory,
            vram: [false; DISPLAY_SIZE],
        };
        proof {
            assert(emulator@.memory =~= initial_memory());
            assert(emulator@.registers =~= Machine::initial().registers);
            assert(emulator@.vram =~= Machine::initial().vram);
            assert(emulator@.stack =~= Machine::initial().stack);
            assert(initial_memory().subrange(
                FONT_BEGIN_ADDR as int,
                FONT_BEGIN_ADDR + FONT_SET_SIZE,
            ) =~= FONT_SET@);
        }
        emulator
    }

    /// Writes `program` into memory from the program start on.
    ///
    /// A program that does not fit between the program start and the end of
    /// memory is refused, and nothing is written. What a longer program loaded
    /// earlier left behind the end of `program` stays.
    pub fn load_program(&mut self, program: &[u8]) -> (result: Result<(), Error>)
        ensures
            program@.len() <= Machine::program_capacity() ==> result is Ok && final(self)@ == old(
                self,
            )@.loaded(program@),
            program@.len() > Machine::program_capacity() ==> result == Err::<(), Error>(
                Error::NotEnoughMemoryForProgram,
            ) && final(self)@ == old(self)@,
            result is Ok ==> final(self)@.memory.subrange(
                PROGRAM_BEGIN_ADDR as int,
                PROGRAM_BEGIN_ADDR + program@.len(),
            ) == program@,
            final(self)@.wf(),
    {
        proof {
            use_type_invariant(&*self);
        }
        if program.len() > MEMORY_SIZE - PROGRAM_BEGIN_ADDR as usize {
            return Err(Error::NotEnoughMemoryForProgram);
        }
        let ghost before = self.memory@;
        let mut i: usize = 0;
        while i < program.len()
            invariant
                i <= program@.len() <= MEMORY_SIZE - PROGRAM_BEGIN_ADDR,
                self.inv(),
                self.memory@ == overwritten(before, PROGRAM_BEGIN_ADDR as int, program@.take(i as int)),
                self.program_counter == old(self).program_counter,
                self.index == old(self).index,
                self.delay_timer == old(self).delay_timer,
                self.sound_timer == old(self).sound_timer,
                self.waiting_for_key == old(self).waiting_for_key,
                self.last_random_u8 == old(self).last_random_u8,
                self.stack_size == old(self).stack_size,
                self.registers == old(self).registers,
                self.stack == old(self).stack,
                self.vram == old(self).vram,
            decreases program@.len() - i,
        {
            self.memory[PROGRAM_BEGIN_ADDR as usize + i] = program[i];
            i += 1;
            assert(self.memory@ =~= overwritten(
                before,
                PROGRAM_BEGIN_ADDR as int,
                program@.take(i as int),
            ));
        }
        assert(program@.take(i as int) =~= program@);
        assert(self@.memory.subrange(
            PROGRAM_BEGIN_ADDR as int,
            PROGRAM_BEGIN_ADDR + program@.len(),
        ) =~= program@);
        Ok(())
    }

    /// Advances the random generator by one step and returns the byte it
    /// arrives at.
    fn get_random_u8(&mut self) -> (byte: u8)
        ensures
            byte == next_random(old(self)@.last_random_u8),
            final(self)@ == (Machine { last_random_u8: byte, ..old(self)@ }),
    {
        proof {
            use_type_invariant(&*self);
        }
        self.last_random_u8 = RANDOM_MULTIPLIER.wrapping_mul(self.last_random_u8).wrapping_add(
            RANDOM_INCREMENT,
        ) % RANDOM_MODULE;
        self.last_random_u8
    }

    /// Reads the instruction that the program counter points to, without
    /// changing anything.
    pub fn get_opcode(&self) -> (result: Result<Instruction, Error>)
        ensures
            result == self@.current_instruction(),
            result matches Ok(instruction) ==> instruction.wf(),
    {
        let address: usize = self.program_counter as usize;
        if address >= MEMORY_SIZE {
            return Err(Error::OutOfBoundsMemoryAccess(self.program_counter));
        }
        if address + 1 >= MEMORY_SIZE {
            return Err(Error::OutOfBoundsMemoryAccess(self.program_counter + 1));
        }
        let first_byte: u8 = self.memory[address];
        let second_byte: u8 = self.memory[address + 1];
        proof {
            lemma_word_bits(first_byte, second_byte);
        }
        let raw_opcode: u16 = ((first_byte as u16) << 8) | (second_byte as u16);
        Instruction::parse(raw_opcode)
    }

    /// Tells whether `count` bytes can be accessed from the index register on.
    fn check_access(&self, count: usize) -> (result: Result<(), Error>)
        requires
            count <= NUM_REGISTERS,
        ensures
            result == match self@.access_fault(count as int) {
                Some(error) => Err::<(), Error>(error),
                None => Ok::<(), Error>(()),
            },
    {
        if count > 0 && self.index as usize + count > MEMORY_SIZE {
            if self.index as usize >= MEMORY_SIZE {
                Err(Error::OutOfBoundsMemoryAccess(self.index))
            } else {
                Err(Error::OutOfBoundsMemoryAccess(MEMORY_SIZE as u16))
            }
        } else {
            Ok(())
        }
    }

    /// Tells whether `opcode` can be carried out in the present state.
    fn check_opcode(&self, opcode: Instruction) -> (result: Result<(), Error>)
        requires
            opcode.wf(),
        ensures
            result == match self@.fault(opcode) {
                Some(error) => Err::<(), Error>(error),
                None => Ok::<(), Error>(()),
            },
    {
        proof {
            use_type_invariant(self);
        }
        match opcode {
            Instruction::Op00EE => if self.stack_size == 0 {
                Err(Error::StackUnderflow)
            } else {
                Ok(())
            },
            Instruction::Op2nnn(_) => if self.stack_size as usize >= MAX_STACK_SIZE {
                Err(Error::StackOverflow)
            } else {
                Ok(())
            },
            Instruction::OpDxyn(_, _, n) => self.check_access(n as usize),
            Instruction::OpFx33(_) => self.check_access(3),
            Instruction::OpFx55(x) => self.check_access(x as usize + 1),
            Instruction::OpFx65(x) => self.check_access(x as usize + 1),
            _ => Ok(()),
        }
    }

    /// Moves the program counter to the next instruction.
    fn advance(&mut self)
        requires
            old(self)@.program_counter < MEMORY_SIZE,
        ensures
            final(self)@ == (Machine { program_counter: old(self)@.next(), ..old(self)@ }),
    {
        proof {
            use_type_invariant(&*self);
        }
        self.program_counter += INSTRUCTION_SIZE;
    }

    /// Moves the program counter past the next instruction if `taken` holds,
    /// and to the next instruction otherwise.
    fn branch(&mut self, taken: bool)
        requires
            old(self)@.program_counter < MEMORY_SIZE,
        ensures
            final(self)@ == (Machine { program_counter: old(self)@.branch(taken), ..old(self)@ }),
    {
        proof {
            use_type_invariant(&*self);
        }
        if taken {
            self.program_counter += 2 * INSTRUCTION_SIZE;
        } else {
            self.program_counter += INSTRUCTION_SIZE;
        }
    }

    /// Writes `value` to register `x` and moves to the next instruction.
    fn set_register(&mut self, x: u8, value: u8)
        requires
            x < NUM_REGISTERS,
            old(self)@.program_counter < MEMORY_SIZE,
        ensures
            final(self)@ == old(self)@.with_register(x, value),
    {
        proof {
            use_type_invariant(&*self);
        }
        self.registers[x as usize] = value;
        self.program_counter += INSTRUCTION_SIZE;
    }

    /// Writes `flag` to the flag register, then `value` to register `x`, and
    /// moves to the next instruction.
    fn set_flag_and_register(&mut self, flag: u8, x: u8, value: u8)
        requires
            x < NUM_REGISTERS,
            old(self)@.program_counter < MEMORY_SIZE,
        ensures
            final(self)@ == old(self)@.with_flag_and_register(flag, x, value),
    {
        proof {
            use_type_invariant(&*self);
        }
        self.registers[FLAG_REGISTER] = flag;
        self.registers[x as usize] = value;
        self.program_counter += INSTRUCTION_SIZE;
    }

    /// Draws the sprite of `height` rows that the index register points to, at
    /// the position `x`, `y`, and records in the flag register whether a pixel
    /// was turned off.
    fn draw(&mut self, x: u8, y: u8, height: u8)
        requires
            height < 16,
            old(self)@.access_fault(height as int) is None,
            old(self)@.program_counter < MEMORY_SIZE,
        ensures
            final(self)@ == (Machine {
                vram: drawn(old(self)@.vram, old(self)@.sprite(height), x, y),
                ..old(self)@.with_register(
                    FLAG_REGISTER as u8,
                    if collides(old(self)@.vram, old(self)@.sprite(height), x, y) {
                        1
                    } else {
                        0
                    },
                )
            }),
    {
        proof {
            use_type_invariant(&*self);
        }
        let collision: bool = draw_sprite(
            &mut self.vram,
            &self.memory,
            self.index as usize,
            height as usize,
            x,
            y,
        );
        self.registers[FLAG_REGISTER] = if collision {
            1
        } else {
            0
        };
        self.program_counter += INSTRUCTION_SIZE;
    }

    /// Writes the hundreds, tens and units of `value` to the three bytes that
    /// the index register points to.
    fn store_digits(&mut self, value: u8)
        requires
            old(self)@.access_fault(3) is None,
            old(self)@.program_counter < MEMORY_SIZE,
        ensures
            final(self)@ == (Machine {
                memory: overwritten(
                    old(self)@.memory,
                    old(self)@.index as int,
                    seq![(value / 100) as u8, ((value / 10) % 10) as u8, (value % 10) as u8],
                ),
                program_counter: old(self)@.next(),
                ..old(self)@
            }),
    {
        proof {
            use_type_invariant(&*self);
        }
        let start: usize = self.index as usize;
        self.memory[start] = value / 100;
        self.memory[start + 1] = (value / 10) % 10;
        self.memory[start + 2] = value % 10;
        self.program_counter += INSTRUCTION_SIZE;
        assert(self.memory@ =~= overwritten(
            old(self)@.memory,
            old(self)@.index as int,
            seq![(value / 100) as u8, ((value / 10) % 10) as u8, (value % 10) as u8],
        ));
    }

    /// Copies registers 0 to `last` to memory, from the index register on.
    fn store_registers(&mut self, last: u8)
        requires
            last < NUM_REGISTERS,
            old(self)@.access_fault(last + 1) is None,
            old(self)@.program_counter < MEMORY_SIZE,
        ensures
            final(self)@ == (Machine {
                memory: overwritten(
                    old(self)@.memory,
                    old(self)@.index as int,
                    old(self)@.registers.take(last + 1),
                ),
                program_counter: old(self)@.next(),
                ..old(self)@
            }),
    {
        proof {
            use_type_invariant(&*self);
        }
        let ghost before = self@;
        let start: usize = self.index as usize;
        let count: usize = last as usize + 1;
        let mut i: usize = 0;
        assert(self.memory@ =~= overwritten(before.memory, start as int, before.registers.take(0)));
        while i < count
            invariant
                i <= count <= NUM_REGISTERS,
                start + count <= MEMORY_SIZE,
                start == before.index,
                self.inv(),
                self.memory@ == overwritten(
                    before.memory,
                    start as int,
                    before.registers.take(i as int),
                ),
                self@ == (Machine { memory: self.memory@, ..before }),
            decreases count - i,
        {
            self.memory[start + i] = self.registers[i];
            i += 1;
            assert(self.memory@ =~= overwritten(
                before.memory,
                start as int,
                before.registers.take(i as int),
            ));
        }
        self.program_counter += INSTRUCTION_SIZE;
    }

    /// Copies memory, from the index register on, to registers 0 to `last`.
    fn load_registers(&mut self, last: u8)
        requires
            last < NUM_REGISTERS,
            old(self)@.access_fault(last + 1) is None,
            old(self)@.program_counter < MEMORY_SIZE,
        ensures
            final(self)@ == (Machine {
                registers: overwritten(
                    old(self)@.registers,
                    0,
                    old(self)@.memory.subrange(
                        old(self)@.index as int,
                        old(self)@.index + last + 1,
                    ),
                ),
                program_counter: old(self)@.next(),
                ..old(self)@
            }),
    {
        proof {
            use_type_invariant(&*self);
        }
        let ghost before = self@;
        let start: usize = self.index as usize;
        let count: usize = last as usize + 1;
        let mut i: usize = 0;
        assert(self.registers@ =~= overwritten(
            before.registers,
            0,
            before.memory.subrange(start as int, start + 0),
        ));
        while i < count
            invariant
                i <= count <= NUM_REGISTERS,
                start + count <= MEMORY_SIZE,
                start == before.index,
                self.inv(),
                self.registers@ == overwritten(
                    before.registers,
                    0,
                    before.memory.subrange(start as int, start + i),
                ),
                self@ == (Machine { registers: self.registers@, ..before }),
            decreases count - i,
        {
            self.registers[i] = self.memory[start + i];
            i += 1;
            assert(self.registers@ =~= overwritten(
                before.registers,
                0,
                before.memory.subrange(start as int, start + i),
            ));
        }
        self.program_counter += INSTRUCTION_SIZE;
    }

    /// Carries out `opcode`, with `keypad` as the keys held down.
    ///
    /// Nothing can go wrong here: the state must let the instruction pass, and
    /// the program counter must have been fit to fetch from.
    fn run_opcode(&mut self, opcode: Instruction, keypad: &[bool; NUM_KEYS])
        requires
            opcode.wf(),
            old(self)@.fault(opcode) is None,
            old(self)@.program_counter < MEMORY_SIZE,
        ensures
            final(self)@ == old(self)@.executed(opcode, keypad@),
    {
        proof {
            use_type_invariant(&*self);
        }
        let ghost before = self@;
        match opcode {
            Instruction::Op0nnn(addr) => {
                self.program_counter = addr;
            },
            Instruction::Op00E0 => {
                self.vram = [false; DISPLAY_SIZE];
                self.advance();
                assert(self@.vram =~= before.executed(opcode, keypad@).vram);
            },
            Instruction::Op00EE => {
                self.stack_size -= 1;
                self.program_counter = self.stack[self.stack_size as usize];
                assert(self@.stack =~= before.stack.drop_last());
            },
            Instruction::Op1nnn(addr) => {
                self.program_counter = addr;
            },
            Instruction::Op2nnn(addr) => {
                self.stack[self.stack_size as usize] = self.program_counter;
                self.stack_size += 1;
                self.program_counter = addr;
                assert(self@.stack =~= before.stack.push(before.program_counter));
            },
            Instruction::Op3xkk(register_index, value) => {
                self.branch(self.registers[register_index as usize] == value);
            },
            Instruction::Op4xkk(register_index, value) => {
                self.branch(self.registers[register_index as usize] != value);
            },
            Instruction::Op5xy0(register_index1, register_index2) => {
                self.branch(
                    self.registers[register_index1 as usize]
                        == self.registers[register_index2 as usize],
                );
            },
            Instruction::Op6xkk(register_index, value) => {
                self.set_register(register_index, value);
            },
            Instruction::Op7xkk(register_index, value) => {
                proof {
                    lemma_byte_wrapping(self.registers[register_index as int], value);
                }
                let sum: u8 = self.registers[register_index as usize].wrapping_add(value);
                self.set_register(register_index, sum);
            },
            Instruction::Op8xy0(register_index1, register_index2) => {
                self.set_register(register_index1, self.registers[register_index2 as usize]);
            },
            Instruction::Op8xy1(register_index1, register_index2) => {
                self.set_register(
                    register_index1,
                    self.registers[register_index1 as usize]
                        | self.registers[register_index2 as usize],
                );
            },
            Instruction::Op8xy2(register_index1, register_index2) => {
                self.set_register(
                    register_index1,
                    self.registers[register_index1 as usize]
                        & self.registers[register_index2 as usize],
                );
            },
            Instruction::Op8xy3(register_index1, register_index2) => {
                self.set_register(
                    register_index1,
                    self.registers[register_index1 as usize]
                        ^ self.registers[register_index2 as usize],
                );
            },
            Instruction::Op8xy4(register_index1, register_index2) => {
                let first: u8 = self.registers[register_index1 as usize];
                let second: u8 = self.registers[register_index2 as usize];
                let carry: u8 = if first as u16 + second as u16 > 255 {
                    1
                } else {
                    0
                };
                proof {
                    lemma_byte_wrapping(first, second);
                }
                self.set_flag_and_register(carry, register_index1, first.wrapping_add(second));
            },
            Instruction::Op8xy5(register_index1, register_index2) => {
                let first: u8 = self.registers[register_index1 as usize];
                let second: u8 = self.registers[register_index2 as usize];
                let greater: u8 = if first > second {
                    1
                } else {
                    0
                };
                proof {
                    lemma_byte_wrapping(first, second);
                }
                self.set_flag_and_register(greater, register_index1, first.wrapping_sub(second));
            },
            Instruction::Op8xy6(register_index1, _) => {
                let value: u8 = self.registers[register_index1 as usize];
                proof {
                    lemma_byte_bits(value);
                }
                self.set_flag_and_register(value & 0x1, register_index1, value >> 1);
            },
            Instruction::Op8xy7(register_index1, register_index2) => {
                let first: u8 = self.registers[register_index1 as usize];
                let second: u8 = self.registers[register_index2 as usize];
                let greater: u8 = if second > first {
                    1
                } else {
                    0
                };
                proof {
                    lemma_byte_wrapping(second, first);
                }
                self.set_flag_and_register(greater, register_index1, second.wrapping_sub(first));
            },
            Instruction::Op8xyE(register_index1, _) => {
                let value: u8 = self.registers[register_index1 as usize];
                proof {
                    lemma_byte_bits(value);
                }
                self.set_flag_and_register(value >> 7, register_index1, value << 1);
            },
            Instruction::Op9xy0(register_index1, register_index2) => {
                self.branch(
                    self.registers[register_index1 as usize]
                        != self.registers[register_index2 as usize],
                );
            },
            Instruction::OpAnnn(addr) => {
                self.index = addr;
                self.advance();
            },
            Instruction::OpBnnn(addr) => {
                self.index = addr + self.registers[0] as u16;
                self.advance();
            },
            Instruction::OpCxkk(register_index, value) => {
                let byte: u8 = self.get_random_u8();
                self.set_register(register_index, byte & value);
            },
            Instruction::OpDxyn(register_index1, register_index2, value) => {
                self.draw(
                    self.registers[register_index1 as usize],
                    self.registers[register_index2 as usize],
                    value,
                );
            },
            Instruction::OpEx9E(register_index) => {
                self.branch(is_pressed(keypad, self.registers[register_index as usize]));
            },
            Instruction::OpExA1(register_index) => {
                self.branch(!is_pressed(keypad, self.registers[register_index as usize]));
            },
            Instruction::OpFx07(register_index) => {
                self.set_register(register_index, self.delay_timer);
            },
            Instruction::OpFx0A(register_index) => {
                self.waiting_for_key = Some(register_index);
                self.advance();
            },
            Instruction::OpFx15(register_index) => {
                self.delay_timer = self.registers[register_index as usize];
                self.advance();
            },
            Instruction::OpFx18(register_index) => {
                self.sound_timer = self.registers[register_index as usize];
                self.advance();
            },
            Instruction::OpFx1E(register_index) => {
                proof {
                    lemma_word_wrapping(self.index, self.registers[register_index as int] as u16);
                }
                self.index = self.index.wrapping_add(self.registers[register_index as usize] as u16);
                self.advance();
            },
            Instruction::OpFx29(register_index) => {
                let value: u8 = self.registers[register_index as usize];
                proof {
                    lemma_byte_bits(value);
                }
                self.index = FONT_BEGIN_ADDR + (value & 0x0F) as u16 * FONT_SIZE as u16;
                self.advance();
            },
            Instruction::OpFx33(register_index) => {
                self.store_digits(self.registers[register_index as usize]);
            },
            Instruction::OpFx55(register_index) => {
                self.store_registers(register_index);
            },
            Instruction::OpFx65(register_index) => {
                self.load_registers(register_index);
            },
        }
    }

    /// Advances the machine by one step, with `keypad` as the keys held down.
    ///
    /// A machine that waits for a key only looks whether that key is held
    /// down. Any other machine fetches the instruction at the program counter,
    /// decodes it, carries it out and then counts both timers down. Whatever
    /// stands in the way is reported, and the machine is then left as it was.
    pub fn tick(&mut self, keypad: &[bool; NUM_KEYS]) -> (result: Result<(), Error>)
        ensures
            result == old(self)@.tick_result(),
            final(self)@ == old(self)@.ticked(keypad@),
            final(self)@.wf(),
    {
        proof {
            use_type_invariant(&*self);
        }
        match self.waiting_for_key {
            Some(register) => {
                let key: u8 = self.registers[register as usize];
                if is_pressed(keypad, key) {
                    self.registers[register as usize] = key;
                    self.waiting_for_key = None;
                    assert(self@.registers =~= old(self)@.resumed(register).registers);
                }
                return Ok(());
            },
            None => {},
        }
        let opcode: Instruction = match self.get_opcode() {
            Ok(opcode) => opcode,
            Err(error) => {
                return Err(error);
            },
        };
        match self.check_opcode(opcode) {
            Ok(()) => {},
            Err(error) => {
                return Err(error);
            },
        }
        self.run_opcode(opcode, keypad);
        proof {
            use_type_invariant(&*self);
        }
        if self.delay_timer > 0 {
            self.delay_timer -= 1;
        }
        if self.sound_timer > 0 {
            self.sound_timer -= 1;
        }
        proof {
            use_type_invariant(&*self);
        }
        Ok(())
    }

    /// Whether the sound timer runs, so that the host should sound its tone.
    pub fn should_beep(&self) -> (beep: bool)
        ensures
            beep == (self@.sound_timer > 0),
    {
        self.sound_timer > 0
    }

    /// The address of the instruction that the next step carries out.
    pub fn program_counter(&self) -> (value: u16)
        ensures
            value == self@.program_counter,
    {
        self.program_counter
    }

    /// The index register.
    pub fn index(&self) -> (value: u16)
        ensures
            value == self@.index,
    {
        self.index
    }

    /// The delay timer.
    pub fn delay_timer(&self) -> (value: u8)
        ensures
            value == self@.delay_timer,
    {
        self.delay_timer
    }

    /// The sound timer.
    pub fn sound_timer(&self) -> (value: u8)
        ensures
            value == self@.sound_timer,
    {
        self.sound_timer
    }

    /// The register through which the machine waits for a key, if it waits.
    pub fn waiting_for_key(&self) -> (register: Option<u8>)
        ensures
            register == self@.waiting_for_key,
    {
        self.waiting_for_key
    }

    /// The byte that the random generator produced last, or its seed.
    pub fn last_random_u8(&self) -> (value: u8)
        ensures
            value == self@.last_random_u8,
    {
        self.last_random_u8
    }

    /// The number of calls that have not returned yet.
    pub fn stack_size(&self) -> (depth: u16)
        ensures
            depth == self@.stack.len(),
    {
        proof {
            use_type_invariant(self);
        }
        self.stack_size
    }

    /// The return addresses of the calls that have not returned yet, the
    /// oldest first.
    pub fn stack(&self) -> (frames: &[u16])
        ensures
            frames@ == self@.stack,
    {
        proof {
            use_type_invariant(self);
        }
        let frames = slice_subrange(self.stack.as_slice(), 0, self.stack_size as usize);
        assert(frames@ =~= self@.stack);
        frames
    }

    /// The registers, read-only.
    pub fn registers(&self) -> (registers: &[u8; NUM_REGISTERS])
        ensures
            registers@ == self@.registers,
    {
        &self.registers
    }

    /// The whole memory, read-only.
    pub fn memory(&self) -> (memory: &[u8; MEMORY_SIZE])
        ensures
            memory@ == self@.memory,
    {
        &self.memory
    }

    /// The pixels of the display, row by row, read-only.
    pub fn vram(&self) -> (vram: &[bool; DISPLAY_SIZE])
        ensures
            vram@ == self@.vram,
    {
        &self.vram
    }
}

} // verus!
