//! The instruction decoder: a 16-bit word and the fields that it is made of.

use vstd::prelude::*;

verus! {

/// The high nibble of `word`, which selects the class of the instruction.
pub open spec fn class_of(word: u16) -> int {
    word as int / 4096
}

/// Bits 8 to 11 of `word`: the index of register X.
pub open spec fn x_of(word: u16) -> int {
    (word as int / 256) % 16
}

/// Bits 4 to 7 of `word`: the index of register Y.
pub open spec fn y_of(word: u16) -> int {
    (word as int / 16) % 16
}

/// Bits 0 to 3 of `word`: the immediate nibble N.
pub open spec fn n_of(word: u16) -> int {
    word as int % 16
}

/// Bits 0 to 7 of `word`: the immediate byte NN.
pub open spec fn nn_of(word: u16) -> int {
    word as int % 256
}

/// Bits 0 to 11 of `word`: the immediate address NNN.
pub open spec fn nnn_of(word: u16) -> int {
    word as int % 4096
}

/// Register index X of an instruction word.
pub fn arg_x(opcode: u16) -> (x: usize)
    ensures
        x == x_of(opcode),
        x < 16,
{
    assert((opcode & 0x0F00) >> 8 == (opcode / 256) % 16) by (bit_vector);
    ((opcode & 0x0F00) >> 8) as usize
}

/// Register index Y of an instruction word.
pub fn arg_y(opcode: u16) -> (y: usize)
    ensures
        y == y_of(opcode),
        y < 16,
{
    assert((opcode & 0x00F0) >> 4 == (opcode / 16) % 16) by (bit_vector);
    ((opcode & 0x00F0) >> 4) as usize
}

/// Immediate address NNN of an instruction word.
pub fn arg_nnn(opcode: u16) -> (nnn: u16)
    ensures
        nnn == nnn_of(opcode),
        nnn < 4096,
{
    assert(opcode & 0x0FFF == opcode % 4096) by (bit_vector);
    opcode & 0x0FFF
}

/// Immediate byte NN of an instruction word.
pub fn arg_nn(opcode: u16) -> (nn: u8)
    ensures
        nn == nn_of(opcode),
{
    assert(opcode & 0x00FF == opcode % 256) by (bit_vector);
    (opcode & 0x00FF) as u8
}

/// Immediate nibble N of an instruction word.
pub fn arg_n(opcode: u16) -> (n: u8)
    ensures
        n == n_of(opcode),
        n < 16,
{
    assert(opcode & 0x000F == opcode % 16) by (bit_vector);
    (opcode & 0x000F) as u8
}

/// A decoded instruction: the word as it was fetched, and every field read out of it.
#[derive(Clone, Copy, Debug, PartialEq, Eq, Structural)]
pub struct Instruction {
    /// The word itself.
    pub word: u16,
    /// The high nibble.
    pub class: u8,
    /// Register index X.
    pub x: u8,
    /// Register index Y.
    pub y: u8,
    /// Immediate nibble.
    pub n: u8,
    /// Immediate byte.
    pub nn: u8,
    /// Immediate address.
    pub nnn: u16,
}

/// The instruction that `word` decodes to.
pub open spec fn decoded(word: u16) -> Instruction {
    Instruction {
        word,
        class: class_of(word) as u8,
        x: x_of(word) as u8,
        y: y_of(word) as u8,
        n: n_of(word) as u8,
        nn: nn_of(word) as u8,
        nnn: nnn_of(word) as u16,
    }
}

/// The word spelled by four nibbles, each taken modulo 16.
pub open spec fn assembled(class: int, x: int, y: int, n: int) -> int {
    (class % 16) * 4096 + (x % 16) * 256 + (y % 16) * 16 + n % 16
}

impl Instruction {
    /// The word that the class and the nibbles X, Y and N of `self` spell.
    pub open spec fn encoded(self) -> int {
        assembled(self.class as int, self.x as int, self.y as int, self.n as int)
    }

    /// Whether every field of `self` is the matching part of `self.word`.
    pub open spec fn wf(self) -> bool {
        self == decoded(self.word)
    }

    /// Puts the class and the three nibbles back together.
    pub fn encode(&self) -> (word: u16)
        ensures
            word == self.encoded(),
    {
        let c: u16 = (self.class % 16) as u16;
        let x: u16 = (self.x % 16) as u16;
        let y: u16 = (self.y % 16) as u16;
        let n: u16 = (self.n % 16) as u16;
        c * 4096 + x * 256 + y * 16 + n
    }
}

/// Splits `word` into its fields. Every word decodes; whether it names an operation is
/// for the engine to say.
pub fn decode(word: u16) -> (ins: Instruction)
    ensures
        ins == decoded(word),
{
    assert(word >> 12 == word / 4096) by (bit_vector);
    Instruction {
        word,
        class: (word >> 12) as u8,
        x: arg_x(word) as u8,
        y: arg_y(word) as u8,
        n: arg_n(word),
        nn: arg_nn(word),
        nnn: arg_nnn(word),
    }
}

/// Decoding a word and putting the fields back together gives the word again, and the
/// wider immediates are made of the same nibbles.
pub proof fn lemma_decode_encode(word: u16)
    ensures
        decoded(word).encoded() == word,
        assembled(class_of(word), x_of(word), y_of(word), n_of(word)) == word,
        nn_of(word) == y_of(word) * 16 + n_of(word),
        nnn_of(word) == x_of(word) * 256 + y_of(word) * 16 + n_of(word),
        decoded(word).wf(),
{
    assert((word / 4096) % 16 == word / 4096) by (bit_vector);
    assert((word / 4096) * 4096 + ((word / 256) % 16) * 256 + ((word / 16) % 16) * 16 + word % 16
        == word) by (bit_vector);
    assert(word % 256 == ((word / 16) % 16) * 16 + word % 16) by (bit_vector);
    assert(word % 4096 == ((word / 256) % 16) * 256 + ((word / 16) % 16) * 16 + word % 16)
        by (bit_vector);
}

} // verus!
