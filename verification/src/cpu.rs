//! The processor: the machine's state in executable form, and the cycle that fetches,
//! decodes and carries out one instruction.

use crate::display::{blank, Display, FONT_SET};
use crate::instruction::{decode, Instruction};
use crate::keypad::{all_released, Keypad, Keystate};
use crate::state::{
    alu, alu_flag, alu_known, alu_value, cycle_result, cycle_state, fetchable, initial_memory, initial_state,
    successor, ticked, verdict, with_loaded, with_program, with_registers, word_at, Error,
    Outcome, Quirks, State, FLAG, FONT_SIZE, GLYPH_SIZE, MEMORY_SIZE, PROGRAM_LIMIT,
    PROGRAM_START, REGISTER_COUNT, STACK_DEPTH,
};
use vstd::prelude::*;

verus! {

/// The processor with its memory, its display and its key pad.
pub struct Cpu {
    /// The index register.
    pub i: u16,
    /// The program counter.
    pub pc: u16,
    /// Memory; the glyphs lie in the first 80 bytes, a program from 0x200 on.
    pub memory: [u8; MEMORY_SIZE],
    /// The registers V0 to VF.
    pub v: [u8; REGISTER_COUNT],
    /// The display.
    pub display: Display,
    /// The key pad.
    pub keypad: Keypad,
    /// The call stack.
    pub stack: [u16; STACK_DEPTH],
    /// The number of return addresses on the stack.
    pub sp: u8,
    /// The delay timer.
    pub delay_timer: u8,
    /// The sound timer.
    pub sound_timer: u8,
    /// The interpreter's choices.
    pub quirks: Quirks,
}

impl View for Cpu {
    type V = State;

    open spec fn view(&self) -> State {
        State {
            i: self.i,
            pc: self.pc,
            memory: self.memory@,
            v: self.v@,
            screen: self.display@,
            dirty: self.display.dirty,
            keys: self.keypad@,
            stack: self.stack@,
            sp: self.sp,
            delay_timer: self.delay_timer,
            sound_timer: self.sound_timer,
            quirks: self.quirks,
        }
    }
}

/// The big-endian word at `index` and `index + 1`.
pub fn read_word(memory: &[u8; MEMORY_SIZE], index: u16) -> (word: u16)
    requires
        index < MEMORY_SIZE - 1,
    ensures
        word == word_at(memory@, index as int),
{
    let hi: u8 = memory[index as usize];
    let lo: u8 = memory[index as usize + 1];
    assert((hi as u16) << 8 | (lo as u16) == hi * 256 + lo) by (bit_vector);
    (hi as u16) << 8 | (lo as u16)
}

impl Cpu {
    /// A processor in its initial state, with no key pressed, which shifts register X.
    pub fn new() -> (cpu: Cpu)
        ensures
            cpu@ == initial_state(all_released(), (Quirks { shift_reads_y: false })),
            cpu@.inv(),
    {
        Cpu::with_quirks(Quirks { shift_reads_y: false })
    }

    /// A processor in its initial state, with no key pressed and the given choices.
    pub fn with_quirks(quirks: Quirks) -> (cpu: Cpu)
        ensures
            cpu@ == initial_state(all_released(), quirks),
            cpu@.inv(),
    {
        let mut cpu = Cpu {
            i: 0,
            pc: 0,
            memory: [0u8; MEMORY_SIZE],
            v: [0u8; REGISTER_COUNT],
            display: Display::new(),
            keypad: Keypad::new(),
            stack: [0u16; STACK_DEPTH],
            sp: 0,
            delay_timer: 0,
            sound_timer: 0,
            quirks,
        };
        cpu.reset();
        cpu
    }

    /// Puts the machine back into its initial state. The keys stay as they are.
    pub fn reset(&mut self)
        ensures
            final(self)@ == initial_state(old(self)@.keys, old(self)@.quirks),
            final(self)@.inv(),
    {
        self.i = 0;
        self.pc = PROGRAM_START;
        self.memory = [0u8; MEMORY_SIZE];
        self.v = [0u8; REGISTER_COUNT];
        self.stack = [0u16; STACK_DEPTH];
        self.sp = 0;
        self.delay_timer = 0;
        self.sound_timer = 0;
        self.display.clear();
        let mut k: usize = 0;
        while k < FONT_SIZE
            invariant
                k <= FONT_SIZE,
                forall|a: int| 0 <= a < k ==> self.memory@[a] == FONT_SET[a],
                forall|a: int| k <= a < MEMORY_SIZE ==> self.memory@[a] == 0,
                self.i == 0,
                self.pc == PROGRAM_START,
                self.v@ == Seq::new(REGISTER_COUNT as nat, |k: int| 0u8),
                self.stack@ == Seq::new(STACK_DEPTH as nat, |k: int| 0u16),
                self.sp == 0,
                self.delay_timer == 0,
                self.sound_timer == 0,
                self.display@ == blank(),
                self.display.dirty,
                self.keypad == old(self).keypad,
                self.quirks == old(self).quirks,
            decreases FONT_SIZE - k,
        {
            self.memory[k] = FONT_SET[k];
            k += 1;
        }
        proof {
            self.keypad.lemma_len();
            assert(self.memory@ =~= initial_memory());
            assert(self@ =~= initial_state(old(self)@.keys, old(self)@.quirks));
        }
    }

    /// One tick of the timer clock: each timer that is not zero goes down by one.
    pub fn decrement_timers(&mut self)
        ensures
            final(self)@ == ticked(old(self)@),
    {
        if self.delay_timer > 0 {
            self.delay_timer -= 1;
        }
        if self.sound_timer > 0 {
            self.sound_timer -= 1;
        }
    }

    /// Moves the program counter past the instruction, and past the next one too
    /// where `skip` holds.
    fn skip_if(&mut self, skip: bool)
        requires
            fetchable(old(self)@),
        ensures
            final(self)@ == old(self)@.skipping(skip),
    {
        if skip {
            self.pc += 4;
        } else {
            self.pc += 2;
        }
    }

    /// Moves the program counter past the instruction and puts `value` into register
    /// `x`.
    fn load(&mut self, x: usize, value: u8)
        requires
            fetchable(old(self)@),
            x < REGISTER_COUNT,
        ensures
            final(self)@ == old(self)@.loaded(x as int, value),
    {
        self.pc += 2;
        self.v[x] = value;
    }

    /// Moves the program counter past the instruction and writes the flag, then the
    /// value.
    fn load_flagged(&mut self, x: usize, value: u8, flag: u8)
        requires
            fetchable(old(self)@),
            x < REGISTER_COUNT,
        ensures
            final(self)@ == old(self)@.flagged(x as int, value, flag),
    {
        self.pc += 2;
        self.v[FLAG] = flag;
        self.v[x] = value;
    }

    /// Clear-screen and return, the two instructions of class 0.
    fn op_system(&mut self, ins: &Instruction) -> (res: Result<Outcome, Error>)
        requires
            fetchable(old(self)@),
            ins.wf(),
            ins.class == 0,
        ensures
            final(self)@ == successor(old(self)@, ins.word, 0),
            res == verdict(old(self)@, ins.word),
    {
        if ins.word == 0x00EE {
            if self.sp == 0 {
                return Err(Error::StackUnderflow);
            }
            if self.sp as usize > STACK_DEPTH {
                return Err(Error::StackOverflow);
            }
            self.sp -= 1;
            self.pc = self.stack[self.sp as usize];
            Ok(Outcome::Executed)
        } else if ins.word == 0x00E0 || ins.word == 0x0000 {
            self.display.clear();
            self.pc += 2;
            Ok(Outcome::Executed)
        } else {
            self.pc += 2;
            Ok(Outcome::Unknown(ins.word))
        }
    }

    /// Call: pushes the address behind the instruction and jumps.
    fn op_call(&mut self, ins: &Instruction) -> (res: Result<Outcome, Error>)
        requires
            fetchable(old(self)@),
            ins.wf(),
            ins.class == 2,
        ensures
            final(self)@ == successor(old(self)@, ins.word, 0),
            res == verdict(old(self)@, ins.word),
    {
        if self.sp as usize >= STACK_DEPTH {
            return Err(Error::StackOverflow);
        }
        self.stack[self.sp as usize] = self.pc + 2;
        self.sp += 1;
        self.pc = ins.nnn;
        Ok(Outcome::Executed)
    }

    /// The register-to-register instructions of class 8.
    fn op_alu(&mut self, ins: &Instruction) -> (res: Result<Outcome, Error>)
        requires
            fetchable(old(self)@),
            ins.x < REGISTER_COUNT,
            ins.y < REGISTER_COUNT,
        ensures
            final(self)@ == alu(old(self)@, ins.x as int, ins.y as int, ins.n as int),
            res == if alu_known(ins.n as int) {
                Ok::<Outcome, Error>(Outcome::Executed)
            } else {
                Ok(Outcome::Unknown(ins.word))
            },
    {
        let x: usize = ins.x as usize;
        let a: u8 = self.v[x];
        let b: u8 = self.v[ins.y as usize];
        let src: u8 = if self.quirks.shift_reads_y {
            b
        } else {
            a
        };
        if ins.n > 7 && ins.n != 0xE {
            self.pc += 2;
            return Ok(Outcome::Unknown(ins.word));
        }
        let (value, flag) = alu_values(ins.n, a, b, src);
        match flag {
            Some(f) => self.load_flagged(x, value, f),
            None => self.load(x, value),
        }
        Ok(Outcome::Executed)
    }

    /// Draw-sprite: XOR-draws the `n` bytes at the index register at the place that
    /// registers X and Y name, and reports a collision in the flag register.
    fn op_draw(&mut self, ins: &Instruction) -> (res: Result<Outcome, Error>)
        requires
            fetchable(old(self)@),
            ins.wf(),
            ins.class == 0xD,
        ensures
            final(self)@ == successor(old(self)@, ins.word, 0),
            res == verdict(old(self)@, ins.word),
            old(self)@.inv() ==> final(self)@.inv(),
    {
        let at: usize = self.i as usize;
        let n: usize = ins.n as usize;
        if at + n > MEMORY_SIZE {
            return Err(Error::MemoryOutOfRange);
        }
        let xpos: usize = self.v[ins.x as usize] as usize;
        let ypos: usize = self.v[ins.y as usize] as usize;
        let collision = self.display.draw(xpos, ypos, &self.memory[at..at + n]);
        self.v[FLAG] = if collision {
            1
        } else {
            0
        };
        self.pc += 2;
        Ok(Outcome::Executed)
    }

    /// The two skip instructions of class E, which look at the key whose index
    /// register X holds.
    fn op_keys(&mut self, ins: &Instruction) -> (res: Result<Outcome, Error>)
        requires
            fetchable(old(self)@),
            ins.wf(),
            ins.class == 0xE,
        ensures
            final(self)@ == successor(old(self)@, ins.word, 0),
            res == verdict(old(self)@, ins.word),
    {
        if ins.nn != 0x9E && ins.nn != 0xA1 {
            self.pc += 2;
            return Ok(Outcome::Unknown(ins.word));
        }
        let key: usize = self.v[ins.x as usize] as usize;
        if key >= 16 {
            return Err(Error::KeyOutOfRange);
        }
        let pressed: bool = match self.keypad.get_key_state(key) {
            Keystate::Pressed => true,
            Keystate::Released => false,
        };
        self.skip_if(pressed == (ins.nn == 0x9E));
        Ok(Outcome::Executed)
    }

    /// Store-registers: copies the registers 0 to `x` to memory at the index register.
    fn store_registers(&mut self, x: usize)
        requires
            x < REGISTER_COUNT,
            old(self).i + x + 1 <= MEMORY_SIZE,
        ensures
            final(self)@ == (State {
                memory: with_registers(
                    old(self)@.memory,
                    old(self).i as int,
                    old(self)@.v,
                    x + 1,
                ),
                ..old(self)@
            }),
    {
        let at: usize = self.i as usize;
        let mut k: usize = 0;
        while k <= x
            invariant
                k <= x + 1,
                x < REGISTER_COUNT,
                at == old(self).i,
                at + x + 1 <= MEMORY_SIZE,
                self@ == (State {
                    memory: with_registers(old(self)@.memory, at as int, old(self)@.v, k as int),
                    ..old(self)@
                }),
            decreases x + 1 - k,
        {
            self.memory[at + k] = self.v[k];
            k += 1;
            assert(self@.memory =~= with_registers(
                old(self)@.memory,
                at as int,
                old(self)@.v,
                k as int,
            ));
        }
    }

    /// Load-registers: reads the registers 0 to `x` from memory at the index register.
    fn load_registers(&mut self, x: usize)
        requires
            x < REGISTER_COUNT,
            old(self).i + x + 1 <= MEMORY_SIZE,
        ensures
            final(self)@ == (State {
                v: with_loaded(old(self)@.v, old(self)@.memory, old(self).i as int, x + 1),
                ..old(self)@
            }),
    {
        let at: usize = self.i as usize;
        let mut k: usize = 0;
        while k <= x
            invariant
                k <= x + 1,
                x < REGISTER_COUNT,
                at == old(self).i,
                at + x + 1 <= MEMORY_SIZE,
                self@ == (State {
                    v: with_loaded(old(self)@.v, old(self)@.memory, at as int, k as int),
                    ..old(self)@
                }),
            decreases x + 1 - k,
        {
            self.v[k] = self.memory[at + k];
            k += 1;
            assert(self@.v =~= with_loaded(
                old(self)@.v,
                old(self)@.memory,
                at as int,
                k as int,
            ));
        }
    }

    /// The instructions of class F: timers, the index register, and blocks of memory.
    fn op_misc(&mut self, ins: &Instruction) -> (res: Result<Outcome, Error>)
        requires
            fetchable(old(self)@),
            ins.wf(),
            ins.class == 0xF,
        ensures
            final(self)@ == successor(old(self)@, ins.word, 0),
            res == verdict(old(self)@, ins.word),
    {
        let x: usize = ins.x as usize;
        let at: usize = self.i as usize;
        let value: u8 = self.v[x];
        match ins.nn {
            0x07 => {
                let delay: u8 = self.delay_timer;
                self.load(x, delay);
            },
            0x0A => {
                return Ok(Outcome::AwaitingKey(ins.x));
            },
            0x15 => {
                self.delay_timer = value;
                self.pc += 2;
            },
            0x18 => {
                self.sound_timer = value;
                self.pc += 2;
            },
            0x1E => {
                self.i = ((self.i as u32 + value as u32) % 0x10000) as u16;
                self.pc += 2;
            },
            0x29 => {
                self.i = value as u16 * GLYPH_SIZE;
                self.pc += 2;
            },
            0x33 => {
                if at + 3 > MEMORY_SIZE {
                    return Err(Error::MemoryOutOfRange);
                }
                self.memory[at] = value / 100;
                self.memory[at + 1] = (value / 10) % 10;
                self.memory[at + 2] = value % 10;
                self.pc += 2;
            },
            0x55 => {
                if at + x + 1 > MEMORY_SIZE {
                    return Err(Error::MemoryOutOfRange);
                }
                self.store_registers(x);
                self.pc += 2;
            },
            0x65 => {
                if at + x + 1 > MEMORY_SIZE {
                    return Err(Error::MemoryOutOfRange);
                }
                self.load_registers(x);
                self.pc += 2;
            },
            _ => {
                self.pc += 2;
                return Ok(Outcome::Unknown(ins.word));
            },
        }
        Ok(Outcome::Executed)
    }

    /// Carries out one decoded instruction, with `random` as the byte that a
    /// random-and draws.
    fn process_opcode(&mut self, ins: &Instruction, random: u8) -> (res: Result<Outcome, Error>)
        requires
            fetchable(old(self)@),
            ins.wf(),
        ensures
            final(self)@ == successor(old(self)@, ins.word, random),
            res == verdict(old(self)@, ins.word),
            old(self)@.inv() ==> final(self)@.inv(),
    {
        let x: usize = ins.x as usize;
        let y: usize = ins.y as usize;
        match ins.class {
            0x0 => {
                return self.op_system(ins);
            },
            0x1 => {
                self.pc = ins.nnn;
            },
            0x2 => {
                return self.op_call(ins);
            },
            0x3 => {
                let skip: bool = self.v[x] == ins.nn;
                self.skip_if(skip);
            },
            0x4 => {
                let skip: bool = self.v[x] != ins.nn;
                self.skip_if(skip);
            },
            0x5 => {
                let skip: bool = self.v[x] == self.v[y];
                self.skip_if(skip);
            },
            0x6 => {
                self.load(x, ins.nn);
            },
            0x7 => {
                let sum: u16 = (self.v[x] as u16 + ins.nn as u16) % 256;
                self.load(x, sum as u8);
            },
            0x8 => {
                return self.op_alu(ins);
            },
            0x9 => {
                let skip: bool = self.v[x] != self.v[y];
                self.skip_if(skip);
            },
            0xA => {
                self.i = ins.nnn;
                self.pc += 2;
            },
            0xB => {
                self.pc = self.v[0] as u16 + ins.nnn;
            },
            0xC => {
                self.load(x, random & ins.nn);
            },
            0xD => {
                return self.op_draw(ins);
            },
            0xE => {
                return self.op_keys(ins);
            },
            _ => {
                return self.op_misc(ins);
            },
        }
        Ok(Outcome::Executed)
    }

    /// One cycle with a given random byte: fetches the word at the program counter,
    /// decodes it and carries it out. A random-and instruction takes `random` as the
    /// byte it draws; no other instruction looks at it.
    ///
    /// A cycle that fails leaves the machine as it was. It fails where the program
    /// counter leaves no room for a word, on a call with a full stack, on a return
    /// with an empty one, and on an instruction that reaches beyond memory or asks for
    /// a key that is no key.
    pub fn run_with(&mut self, random: u8) -> (res: Result<Outcome, Error>)
        ensures
            final(self)@ == cycle_state(old(self)@, random),
            res == cycle_result(old(self)@),
            old(self)@.inv() ==> final(self)@.inv(),
    {
        if self.pc as usize >= MEMORY_SIZE - 1 {
            return Err(Error::MemoryOutOfRange);
        }
        let ins = decode(read_word(&self.memory, self.pc));
        self.process_opcode(&ins, random)
    }

    /// One cycle: fetches the word at the program counter, decodes it and carries it
    /// out. A random-and instruction draws its byte from the random number generator,
    /// so the state that such a cycle leaves is that of [`Cpu::run_with`] for some
    /// byte.
    pub fn run(&mut self) -> (res: Result<Outcome, Error>)
        ensures
            exists|random: u8| final(self)@ == cycle_state(old(self)@, random),
            res == cycle_result(old(self)@),
            old(self)@.inv() ==> final(self)@.inv(),
    {
        if self.pc as usize >= MEMORY_SIZE - 1 {
            assert(self@ == cycle_state(old(self)@, 0));
            return Err(Error::MemoryOutOfRange);
        }
        let ins = decode(read_word(&self.memory, self.pc));
        let random: u8 = if ins.class == 0xC {
            random_byte()
        } else {
            0
        };
        let res = self.process_opcode(&ins, random);
        assert(self@ == cycle_state(old(self)@, random));
        res
    }
}

/// The value and the flag of the class-8 instruction with low nibble `n`, from what
/// the registers X and Y hold and what a shift reads.
fn alu_values(n: u8, a: u8, b: u8, src: u8) -> (out: (u8, Option<u8>))
    requires
        alu_known(n as int),
    ensures
        out.0 == alu_value(n as int, a, b, src),
        out.1 == alu_flag(n as int, a, b, src),
{
    match n {
        0x0 => (b, None),
        0x1 => (a | b, None),
        0x2 => (a & b, None),
        0x3 => (a ^ b, None),
        0x4 => {
            let sum: u16 = a as u16 + b as u16;
            if sum > 255 {
                ((sum - 256) as u8, Some(1))
            } else {
                (sum as u8, Some(0))
            }
        },
        0x5 => {
            if a >= b {
                (a - b, Some(1))
            } else {
                ((256 + a as u16 - b as u16) as u8, Some(0))
            }
        },
        0x6 => {
            assert(src >> 1 == src / 2 && src & 1 == src % 2) by (bit_vector);
            (src >> 1, Some(src & 1))
        },
        0x7 => {
            if b >= a {
                (b - a, Some(1))
            } else {
                ((256 + b as u16 - a as u16) as u8, Some(0))
            }
        },
        _ => {
            assert(src << 1 == (src * 2) % 256 && src >> 7 == src / 128) by (bit_vector);
            (src << 1, Some(src >> 7))
        },
    }
}

/// Calls `rand::random::<u8>()`, which takes the next 32 bits of the thread's
/// generator and returns the low eight. Nothing is claimed of the byte: every value
/// may come back, and two calls may differ. The generator is seeded by the operating
/// system on its first use in a thread and panics if that fails.
#[verifier::external_body]
fn random_byte() -> u8 {
    rand::random::<u8>()
}

/// Runs one cycle of `cpu`, as [`Cpu::run`] does.
pub fn execute_cycle(cpu: &mut Cpu) -> (res: Result<Outcome, Error>)
    ensures
        exists|random: u8| final(cpu)@ == cycle_state(old(cpu)@, random),
        res == cycle_result(old(cpu)@),
        old(cpu)@.inv() ==> final(cpu)@.inv(),
{
    cpu.run()
}

/// Puts `cpu` back into its initial state, as [`Cpu::reset`] does.
pub fn reset(cpu: &mut Cpu)
    ensures
        final(cpu)@ == initial_state(old(cpu)@.keys, old(cpu)@.quirks),
        final(cpu)@.inv(),
{
    cpu.reset()
}

/// The frame to present: the cells of the display and the flag that says whether they
/// changed. Reading changes nothing; the host clears the flag once it has presented
/// the frame.
pub fn draw(cpu: &Cpu) -> (frame: &Display)
    ensures
        *frame == cpu.display,
{
    &cpu.display
}

/// Copies `rom` into memory from the load address on. A program of more than
/// [`PROGRAM_LIMIT`] bytes is refused, and the machine stays as it was.
pub fn load_rom(cpu: &mut Cpu, rom: &[u8]) -> (res: Result<(), Error>)
    ensures
        rom@.len() > PROGRAM_LIMIT ==> res == Err::<(), Error>(Error::ProgramTooLarge)
            && final(cpu)@ == old(cpu)@,
        rom@.len() <= PROGRAM_LIMIT ==> res is Ok && final(cpu)@ == (State {
            memory: with_program(old(cpu)@.memory, rom@),
            ..old(cpu)@
        }),
{
    let len: usize = rom.len();
    if len > PROGRAM_LIMIT {
        return Err(Error::ProgramTooLarge);
    }
    let mut k: usize = 0;
    while k < len
        invariant
            k <= len == rom@.len(),
            len <= PROGRAM_LIMIT,
            cpu@ == (State {
                memory: with_program(old(cpu)@.memory, rom@.take(k as int)),
                ..old(cpu)@
            }),
        decreases len - k,
    {
        cpu.memory[PROGRAM_START as usize + k] = rom[k];
        k += 1;
        assert(cpu@.memory =~= with_program(old(cpu)@.memory, rom@.take(k as int)));
    }
    assert(rom@.take(len as int) =~= rom@);
    Ok(())
}

} // verus!
