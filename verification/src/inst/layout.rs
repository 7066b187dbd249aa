//! The layout of an instruction word: its fields, and how a word is
//! built from them.

use vstd::prelude::*;

verus! {

/// Bits 15-12 of an instruction word: the opcode.
pub open spec fn opcode(word: u16) -> u16 {
    word / 0x1000
}

/// Bits 11-8 of an instruction word: the destination register.
pub open spec fn dst(word: u16) -> u16 {
    word / 0x100 % 0x10
}

/// Bit 7 of an instruction word: set where the second operand is an
/// immediate.
pub open spec fn imm_flag(word: u16) -> bool {
    word / 0x80 % 2 == 1
}

/// Bits 6-0 of an instruction word.
pub open spec fn low7(word: u16) -> u16 {
    word % 0x80
}

/// Bits 3-0 of an instruction word.
pub open spec fn low4(word: u16) -> u16 {
    word % 0x10
}

/// The word with opcode `opcode`, destination `dst` and low byte `low`.
pub open spec fn word_of(opcode: u16, dst: u16, low: u16) -> u16 {
    (opcode % 0x10 * 0x1000 + dst % 0x10 * 0x100 + low % 0x100) as u16
}

/// The masks and shifts that read the fields of a word agree with the
/// fields' arithmetic definitions.
pub proof fn lemma_fields(word: u16)
    by (bit_vector)
    ensures
        word >> 12 == word / 0x1000,
        (word & 0x0f00) >> 8 == word / 0x100 % 0x10,
        (word & 0x0080 == 0) == (word / 0x80 % 2 == 0),
        word & 0x007f == word % 0x80,
        word & 0x000f == word % 0x10,
        (word & 0x0070) >> 4 == word / 0x10 % 0x8,
        (word & 0x0030) >> 4 == word / 0x10 % 0x4,
        (word & 0x0700) >> 8 == word / 0x100 % 0x8,
        (word & 0x0800 == 0) == (word / 0x800 % 2 == 0),
        ((word ^ 0x0040) & 0x00c0 == 0) == (word / 0x40 % 4 == 1),
{
}

/// A word is built back from its fields, but for the bits that the layout
/// of its family does not read.
pub proof fn lemma_rebuild(word: u16)
    by (bit_vector)
    ensures
        !imm_flag(word) ==> word_of(opcode(word), dst(word), low4(word)) == word & 0xff8f,
        imm_flag(word) ==> word_of(opcode(word), dst(word), (0x80 + low7(word)) as u16) == word,
        word / 0x40 % 4 == 0 ==> word_of(opcode(word), dst(word), low4(word)) == word & 0xffcf,
        word / 0x40 % 4 == 1 ==> word_of(opcode(word), dst(word), 0x40) == word & 0xffc0,
        !imm_flag(word) ==> word_of(
            opcode(word),
            dst(word),
            (word / 0x10 % 4 * 0x10 + low4(word)) as u16,
        ) == word & 0xffbf,
        !imm_flag(word) ==> word_of(
            opcode(word),
            dst(word),
            (word / 0x10 % 8 * 0x10 + low4(word)) as u16,
        ) == word,
        imm_flag(word) ==> word_of(
            opcode(word),
            dst(word),
            (0x80 + word / 0x10 % 8 * 0x10 + low4(word)) as u16,
        ) == word,
        imm_flag(word) ==> word / 0x40 % 4 >= 2,
        !imm_flag(word) ==> word / 0x40 % 4 < 2,
        dst(word) == word / 0x800 % 2 * 8 + word / 0x100 % 8,
        opcode(word) == word / 0x2000 * 2 + word / 0x1000 % 2,
        opcode(word) == word / 0x4000 * 4 + word / 0x1000 % 4,
{
}

/// The fields of a word that is built from an opcode, a destination and
/// a low byte are those that it was built from.
pub proof fn lemma_word_fields(o: u16, d: u16, l: u16)
    by (bit_vector)
    requires
        o < 0x10,
        d < 0x10,
        l < 0x100,
    ensures
        opcode(word_of(o, d, l)) == o,
        dst(word_of(o, d, l)) == d,
        imm_flag(word_of(o, d, l)) == (l >= 0x80),
        low7(word_of(o, d, l)) == l % 0x80,
        low4(word_of(o, d, l)) == l % 0x10,
        word_of(o, d, l) / 0x10 % 8 == l / 0x10 % 8,
        word_of(o, d, l) / 0x10 % 4 == l / 0x10 % 4,
        word_of(o, d, l) / 0x40 % 4 == l / 0x40,
        word_of(o, d, l) / 0x100 % 8 == d % 8,
        word_of(o, d, l) / 0x800 % 2 == d / 8,
        word_of(o, d, l) / 0x2000 == o / 2,
        word_of(o, d, l) / 0x1000 % 2 == o % 2,
        word_of(o, d, l) / 0x4000 == o / 4,
        word_of(o, d, l) / 0x1000 % 4 == o % 4,
{
}

/// Joining an opcode, a destination and a low byte with shifts and masks
/// builds the word that [`word_of`] describes.
proof fn lemma_pack(opcode: u16, dst: u16, low: u16)
    by (bit_vector)
    ensures
        ((opcode & 0xf) << 12) | ((dst << 8) & 0x0f00) | (low & 0x00ff) == opcode % 0x10 * 0x1000
            + dst % 0x10 * 0x100 + low % 0x100,
{
}

/// Builds the word with opcode `opcode`, destination `dst` and low byte
/// `low`.
pub fn pack(opcode: u16, dst: u16, low: u16) -> (word: u16)
    ensures
        word == word_of(opcode, dst, low),
{
    proof {
        lemma_pack(opcode, dst, low);
    }
    ((opcode & 0xf) << 12) | ((dst << 8) & 0x0f00) | (low & 0x00ff)
}

/// Reads the opcode of a word.
pub fn opcode_of(word: u16) -> (r: u16)
    ensures
        r == opcode(word),
        r < 16,
{
    proof {
        lemma_fields(word);
    }
    word >> 12
}

/// Reads the destination register of a word.
pub fn dst_of(word: u16) -> (r: u16)
    ensures
        r == dst(word),
        r < 16,
{
    proof {
        lemma_fields(word);
    }
    (word & 0x0f00) >> 8
}

/// The bits of a low byte that holds a mode above four bits of operand,
/// with or without the flag of an immediate.
pub proof fn lemma_mode_bits(c: u16, y: u16)
    by (bit_vector)
    requires
        c < 8,
        y < 0x10,
    ensures
        ((c * 0x10 + y) as u16) / 0x10 % 8 == c,
        ((c * 0x10 + 0x80 + y) as u16) / 0x10 % 8 == c,
        c < 4 ==> ((c * 0x10 + y) as u16) / 0x10 % 4 == c,
        ((c * 0x10 + y) as u16) % 0x10 == y,
        ((c * 0x10 + 0x80 + y) as u16) % 0x10 == y,
        c * 0x10 + y < 0x80,
        0x80 <= c * 0x10 + 0x80 + y < 0x100,
{
}

} // verus!
