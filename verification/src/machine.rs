use vstd::prelude::*;
use crate::constants::{
    DISPLAY_SIZE,
    FLAG_REGISTER,
    FONT_BEGIN_ADDR,
    INSTRUCTION_SIZE,
    MAX_STACK_SIZE,
    MEMORY_SIZE,
    NUM_REGISTERS,
    PROGRAM_BEGIN_ADDR,
    RANDOM_INCREMENT,
    RANDOM_MODULE,
    RANDOM_MULTIPLIER,
    RANDOM_SEED,
};
use crate::display::{collides, drawn, lemma_draw_twice_restores, sprite_covers, sprite_rows};
use crate::error::Error;
use crate::font::{FONT_SET, FONT_SET_SIZE, FONT_SIZE};
use crate::instruction::Instruction;

verus! {

/// The state of the virtual machine as a mathematical value.
///
/// `stack` holds the return addresses of the calls that have not returned yet,
/// the oldest first, so its length is the depth of the stack. `vram` holds the
/// pixels row by row, 64 to a row. `waiting_for_key` names the register through
/// which the machine waits for a key, if it waits.
pub struct Machine {
    pub program_counter: u16,
    pub index: u16,
    pub delay_timer: u8,
    pub sound_timer: u8,
    pub waiting_for_key: Option<u8>,
    pub last_random_u8: u8,
    pub registers: Seq<u8>,
    pub stack: Seq<u16>,
    pub memory: Seq<u8>,
    pub vram: Seq<bool>,
}

/// Whether key number `key` is held down in the snapshot `keypad`. A number
/// that names no key of the pad is not held down.
pub open spec fn pressed(keypad: Seq<bool>, key: u8) -> bool {
    key < keypad.len() && keypad[key as int]
}

/// The sixteen-bit value made of `high` as its upper and `low` as its lower byte.
pub open spec fn word(high: u8, low: u8) -> u16 {
    (high * 256 + low) as u16
}

/// The byte that follows `last` in the generator's sequence: a linear
/// congruential step in arithmetic modulo 256, reduced by the modulus.
pub open spec fn next_random(last: u8) -> u8 {
    ((((RANDOM_MULTIPLIER * last) % 256 + RANDOM_INCREMENT) % 256) % (RANDOM_MODULE as int)) as u8
}

/// The first address outside memory that an access of one or more bytes
/// beginning at `start` touches, given that it touches one.
pub open spec fn first_outside(start: u16) -> u16 {
    if start >= MEMORY_SIZE {
        start
    } else {
        MEMORY_SIZE as u16
    }
}

/// Memory as a fresh machine has it: the glyph table at its place, zero elsewhere.
pub open spec fn initial_memory() -> Seq<u8> {
    Seq::new(
        MEMORY_SIZE as nat,
        |address: int|
            if FONT_BEGIN_ADDR <= address < FONT_BEGIN_ADDR + FONT_SET_SIZE {
                FONT_SET@[address - FONT_BEGIN_ADDR]
            } else {
                0u8
            },
    )
}

/// `memory` with `bytes` written over it from `start` on.
pub open spec fn overwritten(memory: Seq<u8>, start: int, bytes: Seq<u8>) -> Seq<u8> {
    Seq::new(
        memory.len(),
        |address: int|
            if start <= address < start + bytes.len() {
                bytes[address - start]
            } else {
                memory[address]
            },
    )
}

impl Machine {
    /// Whether the parts of the state have the sizes of the machine: sixteen
    /// registers, 4096 bytes, 2048 pixels, at most sixteen return addresses,
    /// and a register that exists where the machine waits for a key.
    pub open spec fn wf(self) -> bool {
        &&& self.registers.len() == NUM_REGISTERS
        &&& self.memory.len() == MEMORY_SIZE
        &&& self.vram.len() == DISPLAY_SIZE
        &&& self.stack.len() <= MAX_STACK_SIZE
        &&& (self.waiting_for_key matches Some(register) ==> register < NUM_REGISTERS)
    }

    /// The machine as it is built: nothing drawn, every register and both
    /// timers zero, an empty stack, the program counter at the program start,
    /// the generator at its seed, and only the glyph table in memory.
    pub open spec fn initial() -> Machine {
        Machine {
            program_counter: PROGRAM_BEGIN_ADDR,
            index: 0,
            delay_timer: 0,
            sound_timer: 0,
            waiting_for_key: None,
            last_random_u8: RANDOM_SEED,
            registers: Seq::new(NUM_REGISTERS as nat, |i: int| 0u8),
            stack: Seq::empty(),
            memory: initial_memory(),
            vram: Seq::new(DISPLAY_SIZE as nat, |i: int| false),
        }
    }

    /// The longest program that fits between the program start and the end of
    /// memory.
    pub open spec fn program_capacity() -> int {
        MEMORY_SIZE - PROGRAM_BEGIN_ADDR
    }

    /// The machine after `program` has been written at the program start.
    pub open spec fn loaded(self, program: Seq<u8>) -> Machine {
        Machine {
            memory: overwritten(self.memory, PROGRAM_BEGIN_ADDR as int, program),
            ..self
        }
    }

    /// What fetching at the program counter gives: the two bytes found there as
    /// one value, the first byte above the second, or the first address of the
    /// two that lies outside memory.
    pub open spec fn fetched(self) -> Result<u16, Error> {
        if self.program_counter >= self.memory.len() {
            Err(Error::OutOfBoundsMemoryAccess(self.program_counter))
        } else if self.program_counter + 1 >= self.memory.len() {
            Err(Error::OutOfBoundsMemoryAccess((self.program_counter + 1) as u16))
        } else {
            Ok(
                word(
                    self.memory[self.program_counter as int],
                    self.memory[self.program_counter + 1],
                ),
            )
        }
    }

    /// The instruction at the program counter, or why there is none.
    pub open spec fn current_instruction(self) -> Result<Instruction, Error> {
        match self.fetched() {
            Ok(raw) => Instruction::parsed(raw),
            Err(error) => Err(error),
        }
    }

    /// What keeps `instruction` from being carried out in this state, if
    /// anything does: a call on a full stack, a return on an empty one, or an
    /// access through the index register that leaves memory.
    pub open spec fn fault(self, instruction: Instruction) -> Option<Error> {
        match instruction {
            Instruction::Op00EE => if self.stack.len() == 0 {
                Some(Error::StackUnderflow)
            } else {
                None
            },
            Instruction::Op2nnn(_) => if self.stack.len() >= MAX_STACK_SIZE {
                Some(Error::StackOverflow)
            } else {
                None
            },
            Instruction::OpDxyn(_, _, n) => self.access_fault(n as int),
            Instruction::OpFx33(_) => self.access_fault(3),
            Instruction::OpFx55(x) => self.access_fault(x + 1),
            Instruction::OpFx65(x) => self.access_fault(x + 1),
            _ => None,
        }
    }

    /// The error of an access to `count` bytes that begin at the index
    /// register, if one of them lies outside memory.
    pub open spec fn access_fault(self, count: int) -> Option<Error> {
        if count > 0 && self.index + count > self.memory.len() {
            Some(Error::OutOfBoundsMemoryAccess(first_outside(self.index)))
        } else {
            None
        }
    }

    /// The rows of the sprite of `height` rows that the index register points to.
    pub open spec fn sprite(self, height: u8) -> Seq<u8> {
        sprite_rows(self.memory, self.index as int, height as int)
    }

    /// The program counter one instruction further.
    pub open spec fn next(self) -> u16 {
        (self.program_counter + INSTRUCTION_SIZE) as u16
    }

    /// The program counter two instructions further: past the instruction that
    /// a taken skip leaves out.
    pub open spec fn skipped(self) -> u16 {
        (self.program_counter + 2 * INSTRUCTION_SIZE) as u16
    }

    /// The program counter after a conditional skip.
    pub open spec fn branch(self, taken: bool) -> u16 {
        if taken {
            self.skipped()
        } else {
            self.next()
        }
    }

    /// This state with register `x` holding `value` and the program counter at
    /// the next instruction.
    pub open spec fn with_register(self, x: u8, value: u8) -> Machine {
        Machine {
            registers: self.registers.update(x as int, value),
            program_counter: self.next(),
            ..self
        }
    }

    /// This state with the flag register holding `flag`, then register `x`
    /// holding `value`, and the program counter at the next instruction. Where
    /// `x` is the flag register itself, `value` is what it holds in the end.
    pub open spec fn with_flag_and_register(self, flag: u8, x: u8, value: u8) -> Machine {
        Machine {
            registers: self.registers.update(FLAG_REGISTER as int, flag).update(x as int, value),
            program_counter: self.next(),
            ..self
        }
    }

    /// The state after `instruction` has been carried out, with `keypad` as the
    /// keys held down. It is meant for a well-formed instruction that
    /// `fault` lets pass.
    pub open spec fn executed(self, instruction: Instruction, keypad: Seq<bool>) -> Machine {
        let v = self.registers;
        match instruction {
            Instruction::Op0nnn(nnn) => Machine { program_counter: nnn, ..self },
            Instruction::Op00E0 => Machine {
                vram: Seq::new(self.vram.len(), |i: int| false),
                program_counter: self.next(),
                ..self
            },
            Instruction::Op00EE => Machine {
                program_counter: self.stack.last(),
                stack: self.stack.drop_last(),
                ..self
            },
            Instruction::Op1nnn(nnn) => Machine { program_counter: nnn, ..self },
            Instruction::Op2nnn(nnn) => Machine {
                stack: self.stack.push(self.program_counter),
                program_counter: nnn,
                ..self
            },
            Instruction::Op3xkk(x, kk) => Machine {
                program_counter: self.branch(v[x as int] == kk),
                ..self
            },
            Instruction::Op4xkk(x, kk) => Machine {
                program_counter: self.branch(v[x as int] != kk),
                ..self
            },
            Instruction::Op5xy0(x, y) => Machine {
                program_counter: self.branch(v[x as int] == v[y as int]),
                ..self
            },
            Instruction::Op6xkk(x, kk) => self.with_register(x, kk),
            Instruction::Op7xkk(x, kk) => self.with_register(x, ((v[x as int] + kk) % 256) as u8),
            Instruction::Op8xy0(x, y) => self.with_register(x, v[y as int]),
            Instruction::Op8xy1(x, y) => self.with_register(x, v[x as int] | v[y as int]),
            Instruction::Op8xy2(x, y) => self.with_register(x, v[x as int] & v[y as int]),
            Instruction::Op8xy3(x, y) => self.with_register(x, v[x as int] ^ v[y as int]),
            Instruction::Op8xy4(x, y) => self.with_flag_and_register(
                if v[x as int] + v[y as int] > 255 {
                    1
                } else {
                    0
                },
                x,
                ((v[x as int] + v[y as int]) % 256) as u8,
            ),
            Instruction::Op8xy5(x, y) => self.with_flag_and_register(
                if v[x as int] > v[y as int] {
                    1
                } else {
                    0
                },
                x,
                ((v[x as int] - v[y as int]) % 256) as u8,
            ),
            Instruction::Op8xy6(x, _) => self.with_flag_and_register(
                (v[x as int] % 2) as u8,
                x,
                (v[x as int] / 2) as u8,
            ),
            Instruction::Op8xy7(x, y) => self.with_flag_and_register(
                if v[y as int] > v[x as int] {
                    1
                } else {
                    0
                },
                x,
                ((v[y as int] - v[x as int]) % 256) as u8,
            ),
            Instruction::Op8xyE(x, _) => self.with_flag_and_register(
                (v[x as int] / 128) as u8,
                x,
                ((v[x as int] * 2) % 256) as u8,
            ),
            Instruction::Op9xy0(x, y) => Machine {
                program_counter: self.branch(v[x as int] != v[y as int]),
                ..self
            },
            Instruction::OpAnnn(nnn) => Machine {
                index: nnn,
                program_counter: self.next(),
                ..self
            },
            Instruction::OpBnnn(nnn) => Machine {
                index: (nnn + v[0]) as u16,
                program_counter: self.next(),
                ..self
            },
            Instruction::OpCxkk(x, kk) => Machine {
                last_random_u8: next_random(self.last_random_u8),
                ..self.with_register(x, next_random(self.last_random_u8) & kk)
            },
            Instruction::OpDxyn(x, y, n) => {
                let rows = self.sprite(n);
                Machine {
                    vram: drawn(self.vram, rows, v[x as int], v[y as int]),
                    ..self.with_register(
                        FLAG_REGISTER as u8,
                        if collides(self.vram, rows, v[x as int], v[y as int]) {
                            1
                        } else {
                            0
                        },
                    )
                }
            },
            Instruction::OpEx9E(x) => Machine {
                program_counter: self.branch(pressed(keypad, v[x as int])),
                ..self
            },
            Instruction::OpExA1(x) => Machine {
                program_counter: self.branch(!pressed(keypad, v[x as int])),
                ..self
            },
            Instruction::OpFx07(x) => self.with_register(x, self.delay_timer),
            Instruction::OpFx0A(x) => Machine {
                waiting_for_key: Some(x),
                program_counter: self.next(),
                ..self
            },
            Instruction::OpFx15(x) => Machine {
                delay_timer: v[x as int],
                program_counter: self.next(),
                ..self
            },
            Instruction::OpFx18(x) => Machine {
                sound_timer: v[x as int],
                program_counter: self.next(),
                ..self
            },
            Instruction::OpFx1E(x) => Machine {
                index: ((self.index + v[x as int]) % 0x10000) as u16,
                program_counter: self.next(),
                ..self
            },
            Instruction::OpFx29(x) => Machine {
                index: (FONT_BEGIN_ADDR + (v[x as int] % 16) * FONT_SIZE) as u16,
                program_counter: self.next(),
                ..self
            },
            Instruction::OpFx33(x) => Machine {
                memory: overwritten(
                    self.memory,
                    self.index as int,
                    seq![
                        (v[x as int] / 100) as u8,
                        ((v[x as int] / 10) % 10) as u8,
                        (v[x as int] % 10) as u8,
                    ],
                ),
                program_counter: self.next(),
                ..self
            },
            Instruction::OpFx55(x) => Machine {
                memory: overwritten(self.memory, self.index as int, v.take(x + 1)),
                program_counter: self.next(),
                ..self
            },
            Instruction::OpFx65(x) => Machine {
                registers: overwritten(
                    v,
                    0,
                    self.memory.subrange(self.index as int, self.index + x + 1),
                ),
                program_counter: self.next(),
                ..self
            },
        }
    }

    /// This state with each timer that is not zero one lower.
    pub open spec fn counted_down(self) -> Machine {
        Machine {
            delay_timer: if self.delay_timer > 0 {
                (self.delay_timer - 1) as u8
            } else {
                0
            },
            sound_timer: if self.sound_timer > 0 {
                (self.sound_timer - 1) as u8
            } else {
                0
            },
            ..self
        }
    }

    /// The state in which a wait through register `register` ends: the
    /// register receives the number of the key, and the machine waits no more.
    pub open spec fn resumed(self, register: u8) -> Machine {
        Machine {
            registers: self.registers.update(register as int, self.registers[register as int]),
            waiting_for_key: None,
            ..self
        }
    }

    /// What one tick reports.
    ///
    /// While the machine waits for a key nothing can fail. Otherwise the tick
    /// fails where there is no instruction at the program counter, or where
    /// the instruction found there cannot be carried out.
    pub open spec fn tick_result(self) -> Result<(), Error> {
        if self.waiting_for_key is Some {
            Ok(())
        } else {
            match self.current_instruction() {
                Err(error) => Err(error),
                Ok(instruction) => match self.fault(instruction) {
                    Some(error) => Err(error),
                    None => Ok(()),
                },
            }
        }
    }

    /// The state after one tick with `keypad` as the keys held down.
    ///
    /// A machine that waits for a key stays as it is until that key is held
    /// down; the tick that sees it held down ends the wait and does no more.
    /// A machine that does not wait carries out the instruction at the program
    /// counter and then counts both timers down. A tick that fails changes
    /// nothing.
    pub open spec fn ticked(self, keypad: Seq<bool>) -> Machine {
        match self.waiting_for_key {
            Some(register) => if pressed(keypad, self.registers[register as int]) {
                self.resumed(register)
            } else {
                self
            },
            None => match self.current_instruction() {
                Err(_) => self,
                Ok(instruction) => if self.fault(instruction) is Some {
                    self
                } else {
                    self.executed(instruction, keypad).counted_down()
                },
            },
        }
    }

    /// The state after one tick for each snapshot of `snapshots`, in order.
    pub open spec fn ticked_all(self, snapshots: Seq<Seq<bool>>) -> Machine
        decreases snapshots.len(),
    {
        if snapshots.len() == 0 {
            self
        } else {
            self.ticked_all(snapshots.drop_last()).ticked(snapshots.last())
        }
    }
}

/// One more snapshot means one more tick after the ticks for the others.
pub proof fn lemma_ticked_all_push(machine: Machine, snapshots: Seq<Seq<bool>>, keypad: Seq<bool>)
    ensures
        machine.ticked_all(snapshots.push(keypad)) == machine.ticked_all(snapshots).ticked(keypad),
{
    assert(snapshots.push(keypad).drop_last() =~= snapshots);
}

/// Ticks keep the sizes of the machine's parts.
pub proof fn lemma_ticked_wf(machine: Machine, keypad: Seq<bool>)
    requires
        machine.wf(),
    ensures
        machine.ticked(keypad).wf(),
{
    if machine.waiting_for_key is None {
        if let Ok(instruction) = machine.current_instruction() {
            Instruction::lemma_decoded_wf(machine.fetched()->Ok_0);
        }
    }
}

/// The machine is deterministic: two machines in the same state that are given
/// the same snapshots, tick by tick, are in the same state after every tick,
/// and so agree on the display, the registers, both timers and the random
/// generator; and their ticks report the same.
pub proof fn lemma_ticks_deterministic(
    first: Machine,
    second: Machine,
    snapshots: Seq<Seq<bool>>,
    ticks: int,
)
    requires
        first == second,
        0 <= ticks <= snapshots.len(),
    ensures
        first.ticked_all(snapshots.take(ticks)) == second.ticked_all(snapshots.take(ticks)),
        first.ticked_all(snapshots.take(ticks)).vram == second.ticked_all(
            snapshots.take(ticks),
        ).vram,
        first.ticked_all(snapshots.take(ticks)).registers == second.ticked_all(
            snapshots.take(ticks),
        ).registers,
        first.ticked_all(snapshots.take(ticks)).delay_timer == second.ticked_all(
            snapshots.take(ticks),
        ).delay_timer,
        first.ticked_all(snapshots.take(ticks)).sound_timer == second.ticked_all(
            snapshots.take(ticks),
        ).sound_timer,
        first.ticked_all(snapshots.take(ticks)).last_random_u8 == second.ticked_all(
            snapshots.take(ticks),
        ).last_random_u8,
        first.ticked_all(snapshots.take(ticks)).tick_result() == second.ticked_all(
            snapshots.take(ticks),
        ).tick_result(),
{
}

/// A machine that waits for a key through `register` is left exactly as it is
/// by a tick that does not show that key held down: no instruction is carried
/// out and no timer counts down. A tick that shows the key held down writes
/// the key's number to the register, ends the wait and changes nothing else;
/// the tick after it is an ordinary step. Neither of the two ticks can fail.
pub proof fn lemma_key_wait(machine: Machine, register: u8, keypad: Seq<bool>, later: Seq<bool>)
    requires
        machine.wf(),
        machine.waiting_for_key == Some(register),
    ensures
        machine.tick_result() is Ok,
        !pressed(keypad, machine.registers[register as int]) ==> machine.ticked(keypad) == machine,
        pressed(keypad, machine.registers[register as int]) ==> {
            let key = machine.registers[register as int];
            let resumed = machine.ticked(keypad);
            &&& key < keypad.len() && keypad[key as int]
            &&& resumed.registers[register as int] == key
            &&& resumed == (Machine { waiting_for_key: None, ..machine })
            &&& resumed.ticked(later) == match resumed.current_instruction() {
                Err(_) => resumed,
                Ok(instruction) => if resumed.fault(instruction) is Some {
                    resumed
                } else {
                    resumed.executed(instruction, later).counted_down()
                },
            }
        },
{
    assert(machine.registers.update(register as int, machine.registers[register as int])
        =~= machine.registers);
}

/// Carrying out the await-key instruction for `register` makes the machine
/// wait through that register, moves to the next instruction and changes
/// nothing else.
pub proof fn lemma_await_key(machine: Machine, register: u8, keypad: Seq<bool>)
    ensures
        machine.executed(Instruction::OpFx0A(register), keypad) == (Machine {
            waiting_for_key: Some(register),
            program_counter: machine.next(),
            ..machine
        }),
        machine.executed(Instruction::OpFx0A(register), keypad).counted_down().waiting_for_key
            == Some(register),
{
}

/// Carrying out the same draw instruction twice in a row gives back the
/// display as it was, provided that neither coordinate is read from the flag
/// register, which the first draw overwrites. The second draw raises the flag
/// exactly when the sprite has a set bit on a pixel that was off before the
/// first draw.
pub proof fn lemma_draw_instruction_twice(machine: Machine, x: u8, y: u8, n: u8, keypad: Seq<bool>)
    requires
        machine.wf(),
        x != FLAG_REGISTER,
        y != FLAG_REGISTER,
        x < NUM_REGISTERS,
        y < NUM_REGISTERS,
    ensures
        ({
            let draw = Instruction::OpDxyn(x, y, n);
            let twice = machine.executed(draw, keypad).executed(draw, keypad);
            let rows = machine.sprite(n);
            &&& twice.vram == machine.vram
            &&& twice.registers[FLAG_REGISTER as int] == (if exists|pixel: int|
                0 <= pixel < machine.vram.len() && !machine.vram[pixel] && #[trigger] sprite_covers(
                    rows,
                    machine.registers[x as int],
                    machine.registers[y as int],
                    pixel,
                ) {
                1u8
            } else {
                0u8
            })
        }),
{
    let draw = Instruction::OpDxyn(x, y, n);
    let once = machine.executed(draw, keypad);
    let rows = machine.sprite(n);
    assert(once.sprite(n) == rows);
    assert(once.registers[x as int] == machine.registers[x as int]);
    assert(once.registers[y as int] == machine.registers[y as int]);
    lemma_draw_twice_restores(
        machine.vram,
        rows,
        machine.registers[x as int],
        machine.registers[y as int],
    );
}

/// A tick that fails leaves the machine exactly as it was.
pub proof fn lemma_failed_tick_changes_nothing(machine: Machine, keypad: Seq<bool>)
    ensures
        machine.tick_result() is Err ==> machine.ticked(keypad) == machine,
{
}

/// A tick that carries out an instruction lowers by one each timer that is not
/// zero, unless the instruction itself sets that timer; a timer at zero stays
/// there. A tick that fails, and a tick of a machine that waits for a key,
/// leave both timers alone.
pub proof fn lemma_timers_count_down(machine: Machine, keypad: Seq<bool>)
    requires
        machine.wf(),
    ensures
        machine.waiting_for_key is Some || machine.tick_result() is Err ==> {
            &&& machine.ticked(keypad).delay_timer == machine.delay_timer
            &&& machine.ticked(keypad).sound_timer == machine.sound_timer
        },
        machine.waiting_for_key is None && machine.tick_result() is Ok ==> {
            let instruction = machine.current_instruction()->Ok_0;
            &&& instruction !is OpFx15 ==> machine.ticked(keypad).delay_timer == if machine.delay_timer
                > 0 {
                machine.delay_timer - 1
            } else {
                0
            }
            &&& instruction !is OpFx18 ==> machine.ticked(keypad).sound_timer == if machine.sound_timer
                > 0 {
                machine.sound_timer - 1
            } else {
                0
            }
        },
{
}

/// Loading a program leaves the glyph table as it is.
pub proof fn lemma_load_keeps_glyphs(machine: Machine, program: Seq<u8>)
    requires
        machine.wf(),
    ensures
        machine.loaded(program).memory.subrange(
            FONT_BEGIN_ADDR as int,
            FONT_BEGIN_ADDR + FONT_SET_SIZE,
        ) == machine.memory.subrange(FONT_BEGIN_ADDR as int, FONT_BEGIN_ADDR + FONT_SET_SIZE),
{
    assert(machine.loaded(program).memory.subrange(
        FONT_BEGIN_ADDR as int,
        FONT_BEGIN_ADDR + FONT_SET_SIZE,
    ) =~= machine.memory.subrange(FONT_BEGIN_ADDR as int, FONT_BEGIN_ADDR + FONT_SET_SIZE));
}

/// Only two instructions write to memory: the one that stores decimal digits
/// and the one that stores registers. Carrying out any other leaves all of
/// memory, and with it the glyph table, as it is; so does a store at an index
/// behind the glyph table.
pub proof fn lemma_executed_keeps_memory(
    machine: Machine,
    instruction: Instruction,
    keypad: Seq<bool>,
)
    requires
        machine.wf(),
    ensures
        !(instruction is OpFx33 || instruction is OpFx55) ==> machine.executed(
            instruction,
            keypad,
        ).memory == machine.memory,
        machine.index >= FONT_BEGIN_ADDR + FONT_SET_SIZE ==> machine.executed(
            instruction,
            keypad,
        ).memory.subrange(FONT_BEGIN_ADDR as int, FONT_BEGIN_ADDR + FONT_SET_SIZE)
            == machine.memory.subrange(FONT_BEGIN_ADDR as int, FONT_BEGIN_ADDR + FONT_SET_SIZE),
{
    if machine.index >= FONT_BEGIN_ADDR + FONT_SET_SIZE {
        assert(machine.executed(instruction, keypad).memory.subrange(
            FONT_BEGIN_ADDR as int,
            FONT_BEGIN_ADDR + FONT_SET_SIZE,
        ) =~= machine.memory.subrange(FONT_BEGIN_ADDR as int, FONT_BEGIN_ADDR + FONT_SET_SIZE));
    }
}

/// A tick writes to memory only by carrying out one of the two storing
/// instructions: any other tick leaves all of memory as it is, and a tick
/// with the index register behind the glyph table leaves that table as it is.
pub proof fn lemma_tick_keeps_memory(machine: Machine, keypad: Seq<bool>)
    requires
        machine.wf(),
    ensures
        !(machine.current_instruction() matches Ok(instruction) && (instruction is OpFx33
            || instruction is OpFx55)) ==> machine.ticked(keypad).memory == machine.memory,
        machine.index >= FONT_BEGIN_ADDR + FONT_SET_SIZE ==> machine.ticked(keypad).memory.subrange(
            FONT_BEGIN_ADDR as int,
            FONT_BEGIN_ADDR + FONT_SET_SIZE,
        ) == machine.memory.subrange(FONT_BEGIN_ADDR as int, FONT_BEGIN_ADDR + FONT_SET_SIZE),
{
    if machine.waiting_for_key is None {
        if let Ok(instruction) = machine.current_instruction() {
            lemma_executed_keeps_memory(machine, instruction, keypad);
        }
    }
}

} // verus!
