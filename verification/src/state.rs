//! The mathematical model of the machine, and what each instruction does to it.
//!
//! A [`State`] holds registers, memory, stack, timers, screen and keys as plain
//! sequences. [`successor`] and [`verdict`] say what one instruction word makes of a
//! state; [`cycle_state`] and [`cycle_result`] add the fetch in front of it. The
//! executable engine is proved against these functions.

use crate::display::{binary, blank, collided, drawn, shaped, FONT_SET};
use crate::instruction::{class_of, n_of, nn_of, nnn_of, x_of, y_of};
use crate::keypad::{Keystate, KEY_COUNT};
use vstd::prelude::*;

verus! {

/// Bytes of memory.
pub const MEMORY_SIZE: usize = 4096;

/// Where a loaded program begins; the glyphs lie below it.
pub const PROGRAM_START: u16 = 0x200;

/// Return addresses that the call stack holds.
pub const STACK_DEPTH: usize = 16;

/// General-purpose registers, the flag register among them.
pub const REGISTER_COUNT: usize = 16;

/// The index of the flag register, which carry, borrow and collision are reported in.
pub const FLAG: usize = 0xF;

/// Bytes of one built-in glyph.
pub const GLYPH_SIZE: u16 = 5;

/// Bytes of the sixteen glyphs together.
pub const FONT_SIZE: usize = 80;

/// The most bytes that a program may have: what lies between the load address and the
/// end of memory.
pub const PROGRAM_LIMIT: usize = MEMORY_SIZE - 0x200;

/// Points on which interpreters of this instruction set have differed.
#[derive(Clone, Copy, Debug, PartialEq, Eq, Structural)]
pub struct Quirks {
    /// The register that the two shift instructions read: register Y where this is
    /// set, register X where it is not. Either way the result goes to register X.
    pub shift_reads_y: bool,
}

/// Why the engine could not go on.
#[derive(Clone, Copy, Debug, PartialEq, Eq, Structural)]
pub enum Error {
    /// A call with sixteen return addresses already on the stack.
    StackOverflow,
    /// A return with no return address on the stack.
    StackUnderflow,
    /// A fetch, a sprite or a block of registers that reaches beyond the last byte of
    /// memory.
    MemoryOutOfRange,
    /// A key instruction on a register that holds no key index.
    KeyOutOfRange,
    /// A program that does not fit between the load address and the end of memory.
    ProgramTooLarge,
}

/// What a cycle that did not fail has done.
#[derive(Clone, Copy, Debug, PartialEq, Eq, Structural)]
pub enum Outcome {
    /// The instruction was carried out.
    Executed,
    /// The word names no instruction; nothing but the program counter has changed.
    Unknown(u16),
    /// The machine stands on a wait-for-key instruction, which will put the key into
    /// the register of this index.
    AwaitingKey(u8),
}

/// The machine as a mathematical value.
#[verifier::ext_equal]
pub struct State {
    /// The index register.
    pub i: u16,
    /// The program counter.
    pub pc: u16,
    /// The 4096 bytes of memory.
    pub memory: Seq<u8>,
    /// The sixteen registers.
    pub v: Seq<u8>,
    /// The cells of the display, rows of columns.
    pub screen: Seq<Seq<u8>>,
    /// Whether the display changed since it was presented.
    pub dirty: bool,
    /// The sixteen key states.
    pub keys: Seq<Keystate>,
    /// The sixteen slots of the call stack.
    pub stack: Seq<u16>,
    /// The number of return addresses on the stack.
    pub sp: u8,
    /// The delay timer.
    pub delay_timer: u8,
    /// The sound timer.
    pub sound_timer: u8,
    /// The interpreter's choices.
    pub quirks: Quirks,
}

/// Memory as it is after a reset: the glyphs, then zeros.
pub open spec fn initial_memory() -> Seq<u8> {
    Seq::new(
        MEMORY_SIZE as nat,
        |a: int|
            if a < FONT_SIZE {
                FONT_SET[a]
            } else {
                0u8
            },
    )
}

/// The state that a reset leaves: the program counter at the load address, the glyphs
/// in memory, a blank display marked changed, and zero everywhere else. The keys and
/// the interpreter's choices are not the machine's to reset.
pub open spec fn initial_state(keys: Seq<Keystate>, quirks: Quirks) -> State {
    State {
        i: 0,
        pc: PROGRAM_START,
        memory: initial_memory(),
        v: Seq::new(REGISTER_COUNT as nat, |k: int| 0u8),
        screen: blank(),
        dirty: true,
        keys,
        stack: Seq::new(STACK_DEPTH as nat, |k: int| 0u16),
        sp: 0,
        delay_timer: 0,
        sound_timer: 0,
        quirks,
    }
}

/// Memory with `rom` copied in from the load address on.
pub open spec fn with_program(memory: Seq<u8>, rom: Seq<u8>) -> Seq<u8> {
    Seq::new(
        memory.len(),
        |a: int|
            if PROGRAM_START <= a < PROGRAM_START + rom.len() {
                rom[a - PROGRAM_START]
            } else {
                memory[a]
            },
    )
}

/// The state after one tick of the timer clock: each timer that is not zero has gone
/// down by one.
pub open spec fn ticked(s: State) -> State {
    State {
        delay_timer: if s.delay_timer > 0 {
            (s.delay_timer - 1) as u8
        } else {
            0
        },
        sound_timer: if s.sound_timer > 0 {
            (s.sound_timer - 1) as u8
        } else {
            0
        },
        ..s
    }
}

/// The big-endian word at `addr` and `addr + 1`.
pub open spec fn word_at(memory: Seq<u8>, addr: int) -> u16 {
    (memory[addr] as int * 256 + memory[addr + 1] as int) as u16
}

/// One or zero.
pub open spec fn bit(b: bool) -> u8 {
    if b {
        1
    } else {
        0
    }
}

impl State {
    /// Whether every part of the state has the size that the machine gives it.
    pub open spec fn sized(self) -> bool {
        &&& self.memory.len() == MEMORY_SIZE
        &&& self.v.len() == REGISTER_COUNT
        &&& self.stack.len() == STACK_DEPTH
        &&& self.keys.len() == KEY_COUNT
        &&& shaped(self.screen)
    }

    /// What holds of every state that the engine reaches: the stack pointer stays
    /// within the stack, and every cell of the screen is 0 or 1.
    pub open spec fn inv(self) -> bool {
        &&& self.sized()
        &&& self.sp <= STACK_DEPTH
        &&& binary(self.screen)
    }

    /// The state with the program counter moved by `by`.
    pub open spec fn moved(self, by: int) -> State {
        State { pc: (self.pc + by) as u16, ..self }
    }

    /// The state past the instruction, and past the one behind it where `skip` holds.
    pub open spec fn skipping(self, skip: bool) -> State {
        if skip {
            self.moved(4)
        } else {
            self.moved(2)
        }
    }

    /// The state past the instruction, with `value` in register `x`.
    pub open spec fn loaded(self, x: int, value: u8) -> State {
        State { v: self.v.update(x, value), ..self.moved(2) }
    }

    /// The state past the instruction, with `flag` in the flag register and then
    /// `value` in register `x`: where `x` is the flag register, the value stays.
    pub open spec fn flagged(self, x: int, value: u8, flag: u8) -> State {
        State { v: self.v.update(FLAG as int, flag).update(x, value), ..self.moved(2) }
    }

    /// The register that a shift reads.
    pub open spec fn shift_source(self, x: int, y: int) -> u8 {
        if self.quirks.shift_reads_y {
            self.v[y]
        } else {
            self.v[x]
        }
    }

    /// The `n` bytes of memory from the index register on.
    pub open spec fn sprite(self, n: int) -> Seq<u8> {
        self.memory.subrange(self.i as int, self.i + n)
    }
}

/// Whether a class-8 instruction with low nibble `n` is assigned.
pub open spec fn alu_known(n: int) -> bool {
    0 <= n <= 7 || n == 0xE
}

/// What the class-8 instruction with low nibble `n` puts into register X, where `a`
/// and `b` are what the registers X and Y hold and `src` is what a shift reads.
pub open spec fn alu_value(n: int, a: u8, b: u8, src: u8) -> u8 {
    if n == 0 {
        b
    } else if n == 1 {
        a | b
    } else if n == 2 {
        a & b
    } else if n == 3 {
        a ^ b
    } else if n == 4 {
        ((a + b) % 256) as u8
    } else if n == 5 {
        ((a - b) % 256) as u8
    } else if n == 6 {
        src / 2
    } else if n == 7 {
        ((b - a) % 256) as u8
    } else {
        ((src * 2) % 256) as u8
    }
}

/// What the class-8 instruction with low nibble `n` puts into the flag register:
/// nothing for load, OR, AND and XOR; the carry of an addition; 1 for a subtraction
/// that borrows nothing; the bit that a shift pushes out.
pub open spec fn alu_flag(n: int, a: u8, b: u8, src: u8) -> Option<u8> {
    if n == 4 {
        Some(bit(a + b > 255))
    } else if n == 5 {
        Some(bit(a >= b))
    } else if n == 6 {
        Some(src % 2)
    } else if n == 7 {
        Some(bit(b >= a))
    } else if n == 0xE {
        Some(src / 128)
    } else {
        None
    }
}

/// The state after a register-to-register instruction (class 8) with low nibble `n`.
/// The operands are read before anything is written, and the flag is written before
/// the result.
pub open spec fn alu(s: State, x: int, y: int, n: int) -> State {
    let a = s.v[x];
    let b = s.v[y];
    let src = s.shift_source(x, y);
    if !alu_known(n) {
        s.moved(2)
    } else {
        match alu_flag(n, a, b, src) {
            Some(flag) => s.flagged(x, alu_value(n, a, b, src), flag),
            None => s.loaded(x, alu_value(n, a, b, src)),
        }
    }
}

/// The memory with the decimal digits of `value` at `at`, `at + 1` and `at + 2`.
pub open spec fn with_digits(memory: Seq<u8>, at: int, value: u8) -> Seq<u8> {
    memory.update(at, value / 100).update(at + 1, (value / 10) % 10).update(at + 2, value % 10)
}

/// The memory with the `count` first registers copied to `at` and the bytes behind it.
pub open spec fn with_registers(memory: Seq<u8>, at: int, v: Seq<u8>, count: int) -> Seq<u8> {
    Seq::new(memory.len(), |a: int| if at <= a < at + count { v[a - at] } else { memory[a] })
}

/// The registers with the `count` first ones read from `at` and the bytes behind it.
pub open spec fn with_loaded(v: Seq<u8>, memory: Seq<u8>, at: int, count: int) -> Seq<u8> {
    Seq::new(v.len(), |k: int| if k < count { memory[at + k] } else { v[k] })
}

/// Whether `word` names an instruction. The classes 1 to 7, 9 and A to D are told by
/// the high nibble alone; class 8 is told apart by its low nibble, the classes E and F
/// by their low byte. In class 0 three words are assigned: 0x00E0 and the all-zero
/// word, which both clear the screen, and 0x00EE, which returns.
pub open spec fn known(word: u16) -> bool {
    let class = class_of(word);
    let nn = nn_of(word);
    if class == 0 {
        word == 0x0000 || word == 0x00E0 || word == 0x00EE
    } else if class == 8 {
        alu_known(n_of(word))
    } else if class == 0xE {
        nn == 0x9E || nn == 0xA1
    } else if class == 0xF {
        nn == 0x07 || nn == 0x0A || nn == 0x15 || nn == 0x18 || nn == 0x1E || nn == 0x29 || nn
            == 0x33 || nn == 0x55 || nn == 0x65
    } else {
        true
    }
}

/// The error that carrying out `word` in state `s` runs into, if any.
pub open spec fn fault(s: State, word: u16) -> Option<Error> {
    let class = class_of(word);
    let x = x_of(word);
    let nn = nn_of(word);
    if word == 0x00EE && s.sp == 0 {
        Some(Error::StackUnderflow)
    } else if word == 0x00EE && s.sp > STACK_DEPTH {
        Some(Error::StackOverflow)
    } else if class == 2 && s.sp >= STACK_DEPTH {
        Some(Error::StackOverflow)
    } else if class == 0xD && s.i + n_of(word) > MEMORY_SIZE {
        Some(Error::MemoryOutOfRange)
    } else if class == 0xE && (nn == 0x9E || nn == 0xA1) && s.v[x] >= 16 {
        Some(Error::KeyOutOfRange)
    } else if class == 0xF && nn == 0x33 && s.i + 3 > MEMORY_SIZE {
        Some(Error::MemoryOutOfRange)
    } else if class == 0xF && (nn == 0x55 || nn == 0x65) && s.i + x + 1 > MEMORY_SIZE {
        Some(Error::MemoryOutOfRange)
    } else {
        None
    }
}

/// What carrying out `word` in state `s` reports.
pub open spec fn verdict(s: State, word: u16) -> Result<Outcome, Error> {
    match fault(s, word) {
        Some(e) => Err(e),
        None => if !known(word) {
            Ok(Outcome::Unknown(word))
        } else if class_of(word) == 0xF && nn_of(word) == 0x0A {
            Ok(Outcome::AwaitingKey(x_of(word) as u8))
        } else {
            Ok(Outcome::Executed)
        },
    }
}

/// The state after the class-F instruction `word`, where it is assigned and does not
/// fail.
pub open spec fn misc(s: State, word: u16) -> State {
    let x = x_of(word);
    let nn = nn_of(word);
    let at = s.i as int;
    if nn == 0x07 {
        s.loaded(x, s.delay_timer)
    } else if nn == 0x0A {
        s
    } else if nn == 0x15 {
        State { delay_timer: s.v[x], ..s.moved(2) }
    } else if nn == 0x18 {
        State { sound_timer: s.v[x], ..s.moved(2) }
    } else if nn == 0x1E {
        State { i: ((s.i + s.v[x]) % 0x10000) as u16, ..s.moved(2) }
    } else if nn == 0x29 {
        State { i: (s.v[x] * GLYPH_SIZE) as u16, ..s.moved(2) }
    } else if nn == 0x33 {
        State { memory: with_digits(s.memory, at, s.v[x]), ..s.moved(2) }
    } else if nn == 0x55 {
        State { memory: with_registers(s.memory, at, s.v, x + 1), ..s.moved(2) }
    } else {
        State { v: with_loaded(s.v, s.memory, at, x + 1), ..s.moved(2) }
    }
}

/// The state after `word` was carried out in state `s`, with `random` as the byte
/// that a random-and instruction draws. A word that fails leaves the state as it was;
/// one that names no instruction moves the program counter and nothing else; a
/// wait-for-key leaves the machine standing on it.
pub open spec fn successor(s: State, word: u16, random: u8) -> State {
    let class = class_of(word);
    let x = x_of(word);
    let y = y_of(word);
    let n = n_of(word);
    let nn = nn_of(word) as u8;
    let nnn = nnn_of(word) as u16;
    if fault(s, word) is Some {
        s
    } else if !known(word) {
        s.moved(2)
    } else if class == 0 {
        if word == 0x00EE {
            State { sp: (s.sp - 1) as u8, pc: s.stack[s.sp - 1], ..s }
        } else {
            State { screen: blank(), dirty: true, ..s.moved(2) }
        }
    } else if class == 1 {
        State { pc: nnn, ..s }
    } else if class == 2 {
        State {
            stack: s.stack.update(s.sp as int, (s.pc + 2) as u16),
            sp: (s.sp + 1) as u8,
            pc: nnn,
            ..s
        }
    } else if class == 3 {
        s.skipping(s.v[x] == nn)
    } else if class == 4 {
        s.skipping(s.v[x] != nn)
    } else if class == 5 {
        s.skipping(s.v[x] == s.v[y])
    } else if class == 6 {
        s.loaded(x, nn)
    } else if class == 7 {
        s.loaded(x, ((s.v[x] + nn) % 256) as u8)
    } else if class == 8 {
        alu(s, x, y, n)
    } else if class == 9 {
        s.skipping(s.v[x] != s.v[y])
    } else if class == 0xA {
        State { i: nnn, ..s.moved(2) }
    } else if class == 0xB {
        State { pc: (s.v[0] + nnn) as u16, ..s }
    } else if class == 0xC {
        s.loaded(x, random & nn)
    } else if class == 0xD {
        let sprite = s.sprite(n);
        let hit = collided(s.screen, sprite, n as nat, s.v[x] as int, s.v[y] as int);
        State {
            screen: drawn(s.screen, sprite, n as nat, s.v[x] as int, s.v[y] as int),
            dirty: true,
            v: s.v.update(FLAG as int, bit(hit)),
            ..s.moved(2)
        }
    } else if class == 0xE {
        let pressed = s.keys[s.v[x] as int] == Keystate::Pressed;
        s.skipping(pressed == (nn == 0x9E))
    } else {
        misc(s, word)
    }
}

/// Whether a word can be fetched at the program counter: both of its bytes lie in
/// memory.
pub open spec fn fetchable(s: State) -> bool {
    s.pc < MEMORY_SIZE - 1
}

/// The word that the program counter points at.
pub open spec fn fetched(s: State) -> u16 {
    word_at(s.memory, s.pc as int)
}

/// What one cycle of a machine in state `s` reports.
pub open spec fn cycle_result(s: State) -> Result<Outcome, Error> {
    if fetchable(s) {
        verdict(s, fetched(s))
    } else {
        Err(Error::MemoryOutOfRange)
    }
}

/// The state after one cycle of a machine in state `s`: fetch, then carry out.
pub open spec fn cycle_state(s: State, random: u8) -> State {
    if fetchable(s) {
        successor(s, fetched(s), random)
    } else {
        s
    }
}

} // verus!
