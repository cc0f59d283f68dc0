//! Decoding of a fetched 16-bit word into its addressable fields.

use vstd::prelude::*;

verus! {

/// The opcode nibble of a word: bits 12 to 15.
pub open spec fn opcode_of(word: u16) -> u8 {
    (word / 4096) as u8
}

/// The register index X of a word: bits 8 to 11.
pub open spec fn x_of(word: u16) -> u8 {
    ((word / 256) % 16) as u8
}

/// The register index Y of a word: bits 4 to 7.
pub open spec fn y_of(word: u16) -> u8 {
    ((word / 16) % 16) as u8
}

/// The sub-opcode nibble N of a word: bits 0 to 3.
pub open spec fn n_of(word: u16) -> u8 {
    (word % 16) as u8
}

/// The immediate byte KK of a word: bits 0 to 7.
pub open spec fn kk_of(word: u16) -> u8 {
    (word % 256) as u8
}

/// The address NNN of a word: bits 0 to 11.
pub open spec fn nnn_of(word: u16) -> u16 {
    word % 4096
}

/// The word whose four nibbles, from the highest down, are the arguments.
pub open spec fn word_of_nibbles(opcode: u8, x: u8, y: u8, n: u8) -> int {
    opcode * 4096 + x * 256 + y * 16 + n
}

/// The big-endian word made of two bytes.
pub open spec fn word_of_bytes(high: u8, low: u8) -> u16 {
    (high * 256 + low) as u16
}

proof fn lemma_fields_as_bits(word: u16)
    by (bit_vector)
    ensures
        (word & 0xF000) >> 12 == word / 4096,
        (word & 0x0F00) >> 8 == (word / 256) % 16,
        (word & 0x00F0) >> 4 == (word / 16) % 16,
        word & 0xF == word % 16,
        word & 0x0FFF == word % 4096,
        (word as u8) == word % 256,
        (word as u8) & 0xF == word % 16,
{
}

proof fn lemma_bytes_as_bits(high: u8, low: u8)
    by (bit_vector)
    ensures
        ((high as u16) << 8) | (low as u16) == high * 256 + low,
{
}

/// One fetched instruction: an immutable view over a 16-bit word.
#[derive(Debug, Clone, Copy)]
pub struct Instruction {
    value: u16,
}

impl View for Instruction {
    type V = u16;

    closed spec fn view(&self) -> u16 {
        self.value
    }
}

impl Instruction {
    pub fn new(value: u16) -> (instruction: Instruction)
        ensures
            instruction@ == value,
    {
        Instruction { value }
    }

    /// The instruction whose first byte is `high` and whose second is `low`.
    pub fn from_be_bytes(high: u8, low: u8) -> (instruction: Instruction)
        ensures
            instruction@ == word_of_bytes(high, low),
    {
        proof {
            lemma_bytes_as_bits(high, low);
        }
        Instruction { value: ((high as u16) << 8) | (low as u16) }
    }

    /// The word as it was fetched.
    pub fn value(&self) -> (value: u16)
        ensures
            value == self@,
    {
        self.value
    }

    /// The four nibbles of the word, from the highest down.
    pub fn nibbles(&self) -> (nibbles: (u8, u8, u8, u8))
        ensures
            nibbles == (opcode_of(self@), x_of(self@), y_of(self@), n_of(self@)),
    {
        proof {
            lemma_fields_as_bits(self.value);
        }
        let first_nibble: u8 = ((self.value & 0xF000) >> 12) as u8;
        let second_nibble: u8 = ((self.value & 0x0F00) >> 8) as u8;
        let third_nibble: u8 = ((self.value & 0x00F0) >> 4) as u8;
        let fourth_nibble: u8 = (self.value & 0xF) as u8;
        (first_nibble, second_nibble, third_nibble, fourth_nibble)
    }

    /// nnn or addr: the lowest 12 bits of the instruction.
    pub fn nnn(&self) -> (nnn: u16)
        ensures
            nnn == nnn_of(self@),
    {
        proof {
            lemma_fields_as_bits(self.value);
        }
        self.value & 0x0FFF
    }

    /// n or nibble: the lowest 4 bits of the instruction.
    pub fn n(&self) -> (n: u8)
        ensures
            n == n_of(self@),
    {
        proof {
            lemma_fields_as_bits(self.value);
        }
        #[verifier::truncate]
        (self.value as u8) & 0xF
    }

    /// x: the lower 4 bits of the high byte of the instruction.
    pub fn x(&self) -> (x: u8)
        ensures
            x == x_of(self@),
    {
        proof {
            lemma_fields_as_bits(self.value);
        }
        ((self.value & 0x0F00) >> 8) as u8
    }

    /// y: the upper 4 bits of the low byte of the instruction.
    pub fn y(&self) -> (y: u8)
        ensures
            y == y_of(self@),
    {
        proof {
            lemma_fields_as_bits(self.value);
        }
        ((self.value & 0x00F0) >> 4) as u8
    }

    /// kk or byte: the lowest 8 bits of the instruction.
    pub fn kk(&self) -> (kk: u8)
        ensures
            kk == kk_of(self@),
    {
        proof {
            lemma_fields_as_bits(self.value);
        }
        #[verifier::truncate]
        (self.value as u8)
    }
}

/// Decoding a word into its four nibbles and putting them together again
/// gives the word back; the immediate byte and the address are the word with
/// its upper nibbles masked off.
pub proof fn lemma_decode_encode_round_trip(word: u16)
    ensures
        word_of_nibbles(opcode_of(word), x_of(word), y_of(word), n_of(word)) == word,
        word_of_nibbles(0, 0, y_of(word), n_of(word)) == kk_of(word),
        word_of_nibbles(0, x_of(word), y_of(word), n_of(word)) == nnn_of(word),
        opcode_of(word) < 16,
        x_of(word) < 16,
        y_of(word) < 16,
        n_of(word) < 16,
{
    let w: int = word as int;
    assert(w == (w / 4096) * 4096 + ((w / 256) % 16) * 256 + ((w / 16) % 16) * 16 + w % 16
        && w % 256 == ((w / 16) % 16) * 16 + w % 16
        && w % 4096 == ((w / 256) % 16) * 256 + ((w / 16) % 16) * 16 + w % 16
        && w / 4096 < 16) by (nonlinear_arith)
        requires
            0 <= w < 65536,
    ;
}

} // verus!
