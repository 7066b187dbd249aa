//! The second operand of an instruction: how it is decoded from a word
//! and encoded into one, read from a token and written as text.

use crate::inst::layout::{imm_flag, lemma_fields, low4, low7};
use crate::lex::{imm_of_chars, imm_value, reg_of_chars, reg_value, LexemeError};
use crate::text::{chars_of, decimal, hex4, push_decimal, push_hex4};
use crate::util::{sign_extend, sign_extended};
use vstd::arithmetic::power2::lemma2_to64;
use vstd::prelude::*;
use vstd::string::*;

verus! {

/// The second operand of an instruction: a register index or an immediate
/// value, told apart by bit 7 of the instruction word.
#[derive(Clone, Copy, Debug, PartialEq, Eq, Structural)]
pub enum Op2 {
    /// The index of a register.
    Reg(u16),
    /// An immediate value.
    Imm(u16),
}

/// How wide the immediate of an instruction may be.
#[derive(Clone, Copy, Debug, PartialEq, Eq, Structural)]
pub enum ImmKind {
    /// Seven bits.
    Bits7,
    /// Four bits: a shift distance.
    Bits4,
    /// A displacement relative to the program counter: an even number
    /// from -128 to 126, in two's complement.
    Relative,
}

impl Op2 {
    /// Whether a register operand names one of the sixteen registers.
    pub open spec fn wf(self) -> bool {
        self matches Op2::Reg(r) ==> r < 16
    }

    /// Whether the operand can be encoded in the field that `kind` names.
    pub open spec fn fits(self, kind: ImmKind) -> bool {
        match self {
            Op2::Reg(r) => r < 16,
            Op2::Imm(imm) => match kind {
                ImmKind::Bits7 => imm < 0x80,
                ImmKind::Bits4 => imm < 0x10,
                ImmKind::Relative => imm % 2 == 0 && (imm < 0x80 || imm >= 0xff80),
            },
        }
    }

    /// Executable form of [`Op2::fits`].
    pub fn check(&self, kind: ImmKind) -> (b: bool)
        ensures
            b == self.fits(kind),
    {
        match self {
            Op2::Reg(r) => *r < 16,
            Op2::Imm(imm) => match kind {
                ImmKind::Bits7 => *imm < 0x80,
                ImmKind::Bits4 => *imm < 0x10,
                ImmKind::Relative => *imm % 2 == 0 && (*imm < 0x80 || *imm >= 0xff80),
            },
        }
    }

    /// Whether the operand is one that a word with an unsigned immediate
    /// of seven bits can hold.
    pub open spec fn is_unsigned7(self) -> bool {
        match self {
            Op2::Reg(r) => r < 16,
            Op2::Imm(imm) => imm < 0x80,
        }
    }

    /// Whether the operand is one that a word with a signed immediate of
    /// seven bits can hold: from -64 to 63, in two's complement.
    pub open spec fn is_signed7(self) -> bool {
        match self {
            Op2::Reg(r) => r < 16,
            Op2::Imm(imm) => imm < 0x40 || imm >= 0xffc0,
        }
    }

    /// Whether the operand is one that a word with a displacement can
    /// hold: an even number from -128 to 126, in two's complement.
    pub open spec fn is_relative(self) -> bool {
        self.fits(ImmKind::Relative)
    }

    /// Whether the operand is one that the word of a shift can hold.
    pub open spec fn is_distance(self) -> bool {
        self.fits(ImmKind::Bits4)
    }

    /// An operand that a word can hold is decoded from its low byte as
    /// it is.
    pub proof fn lemma_operand_images(self, word: u16)
        ensures
            self.is_unsigned7() && imm_flag(word) == (self.low_byte() >= 0x80) && low7(word)
                == self.low_byte() % 0x80 && low4(word) == self.low_byte() % 0x10
                ==> Op2::unsigned7(word) == self,
            self.is_signed7() && imm_flag(word) == (self.low_byte() >= 0x80) && low7(word)
                == self.low_byte() % 0x80 && low4(word) == self.low_byte() % 0x10
                ==> Op2::signed7(word) == self,
            self.is_relative() && imm_flag(word) == (self.relative_byte() >= 0x80) && low7(word)
                == self.relative_byte() % 0x80 && low4(word) == self.relative_byte() % 0x10
                ==> Op2::relative(word) == self,
            self.is_distance() && imm_flag(word) == (self.distance_byte() >= 0x80) && low4(word)
                == self.distance_byte() % 0x10 ==> Op2::distance(word) == self,
    {
        match self {
            Op2::Reg(r) => {
                lemma_byte_bits(r);
            },
            Op2::Imm(imm) => {
                lemma_byte_bits(imm);
                let x = (imm % 0x80) as u16;
                let y = (2 * (imm / 2 % 0x80)) as u16;
                lemma_sign_extended(x);
                lemma_sign_extended(y);
                if self.is_signed7() {
                    assert(sign_extended(7, x) == imm);
                }
                if self.is_relative() {
                    assert(sign_extended(8, y) == imm);
                }
            },
        }
    }

    /// The operand of a word whose immediate is seven bits, unsigned.
    pub open spec fn unsigned7(word: u16) -> Op2 {
        if imm_flag(word) {
            Op2::Imm(low7(word))
        } else {
            Op2::Reg(low4(word))
        }
    }

    /// The operand of a word whose immediate is seven bits, signed.
    pub open spec fn signed7(word: u16) -> Op2 {
        if imm_flag(word) {
            Op2::Imm(sign_extended(7, low7(word)))
        } else {
            Op2::Reg(low4(word))
        }
    }

    /// The operand of a word whose immediate counts words relative to the
    /// program counter: seven bits, scaled by the word size, then read as
    /// eight bits signed.
    pub open spec fn relative(word: u16) -> Op2 {
        if imm_flag(word) {
            Op2::Imm(sign_extended(8, (2 * low7(word)) as u16))
        } else {
            Op2::Reg(low4(word))
        }
    }

    /// The operand of a word whose immediate is a shift distance of four
    /// bits.
    pub open spec fn distance(word: u16) -> Op2 {
        if imm_flag(word) {
            Op2::Imm(low4(word))
        } else {
            Op2::Reg(low4(word))
        }
    }

    /// Reads the operand of a word whose immediate is seven bits, unsigned.
    pub fn decode_unsigned7(word: u16) -> (r: Op2)
        ensures
            r == Op2::unsigned7(word),
            r.wf(),
    {
        proof {
            lemma_fields(word);
        }
        if word & 0x0080 == 0 {
            Op2::Reg(word & 0x000f)
        } else {
            Op2::Imm(word & 0x007f)
        }
    }

    /// Reads the operand of a word whose immediate is seven bits, signed.
    pub fn decode_signed7(word: u16) -> (r: Op2)
        ensures
            r == Op2::signed7(word),
            r.wf(),
    {
        proof {
            lemma_fields(word);
        }
        if word & 0x0080 == 0 {
            Op2::Reg(word & 0x000f)
        } else {
            Op2::Imm(sign_extend::<7, 16>(word & 0x007f))
        }
    }

    /// Reads the operand of a word whose immediate is relative to the
    /// program counter.
    pub fn decode_relative(word: u16) -> (r: Op2)
        ensures
            r == Op2::relative(word),
            r.wf(),
    {
        proof {
            lemma_fields(word);
        }
        if word & 0x0080 == 0 {
            Op2::Reg(word & 0x000f)
        } else {
            Op2::Imm(sign_extend::<8, 16>(crate::WORDSIZE * (word & 0x007f)))
        }
    }

    /// Reads the operand of a word whose immediate is a shift distance.
    pub fn decode_distance(word: u16) -> (r: Op2)
        ensures
            r == Op2::distance(word),
            r.wf(),
    {
        proof {
            lemma_fields(word);
        }
        if word & 0x0080 == 0 {
            Op2::Reg(word & 0x000f)
        } else {
            Op2::Imm(word & 0x000f)
        }
    }

    /// The low byte that encodes the operand: the register's index in
    /// bits 3-0, or bit 7 and the immediate in bits 6-0.
    pub open spec fn low_byte(self) -> u16 {
        match self {
            Op2::Reg(r) => r % 0x10,
            Op2::Imm(imm) => (0x80 + imm % 0x80) as u16,
        }
    }

    /// The low byte that encodes an operand relative to the program
    /// counter: the immediate is stored as a count of words.
    pub open spec fn relative_byte(self) -> u16 {
        match self {
            Op2::Reg(r) => r % 0x10,
            Op2::Imm(imm) => (0x80 + imm / 2 % 0x80) as u16,
        }
    }

    /// The low byte that encodes an operand of a shift: the register's
    /// index or the distance in bits 3-0, and bit 7 for a distance.
    pub open spec fn distance_byte(self) -> u16 {
        match self {
            Op2::Reg(r) => r % 0x10,
            Op2::Imm(imm) => (0x80 + imm % 0x10) as u16,
        }
    }

    /// Computes [`Op2::low_byte`].
    pub fn encode_low(&self) -> (b: u16)
        ensures
            b == self.low_byte(),
    {
        match self {
            Op2::Reg(r) => *r % 0x10,
            Op2::Imm(imm) => 0x80 + *imm % 0x80,
        }
    }

    /// Computes [`Op2::relative_byte`].
    pub fn encode_relative(&self) -> (b: u16)
        ensures
            b == self.relative_byte(),
    {
        match self {
            Op2::Reg(r) => *r % 0x10,
            Op2::Imm(imm) => 0x80 + *imm / crate::WORDSIZE % 0x80,
        }
    }

    /// Computes [`Op2::distance_byte`].
    pub fn encode_distance(&self) -> (b: u16)
        ensures
            b == self.distance_byte(),
    {
        match self {
            Op2::Reg(r) => *r % 0x10,
            Op2::Imm(imm) => 0x80 + *imm % 0x10,
        }
    }

    /// The operand that `token` denotes: an immediate literal where it
    /// begins with `0`, a register name otherwise.
    pub open spec fn parse_spec(token: Seq<char>) -> Option<Op2> {
        if token.len() == 0 {
            None
        } else if token[0] == '0' {
            match imm_value(token) {
                Some(imm) => Some(Op2::Imm(imm)),
                None => None,
            }
        } else {
            match reg_value(token) {
                Some(r) => Some(Op2::Reg(r)),
                None => None,
            }
        }
    }

    /// Reads an operand from the characters of a token.
    pub fn of_chars(token: &Vec<char>) -> (r: Option<Op2>)
        ensures
            r == Op2::parse_spec(token@),
    {
        if token.len() == 0 {
            None
        } else if token[0] == '0' {
            match imm_of_chars(token) {
                Some(imm) => Some(Op2::Imm(imm)),
                None => None,
            }
        } else {
            match reg_of_chars(token) {
                Some(r) => Some(Op2::Reg(r)),
                None => None,
            }
        }
    }

    /// Reads an operand: an immediate literal where the token begins with
    /// `0`, a register name otherwise.
    pub fn parse(token: &str) -> (r: Result<Op2, LexemeError>)
        ensures
            match r {
                Ok(op2) => Op2::parse_spec(token@) == Some(op2),
                Err(e) => Op2::parse_spec(token@).is_none() && (if token@.len() == 0 {
                    e is EmptyToken
                } else if token@[0] == '0' {
                    e matches LexemeError::InvalidImm(t) && t@ == token@
                } else {
                    e matches LexemeError::InvalidReg(t) && t@ == token@
                }),
            },
    {
        let chars = chars_of(token);
        if chars.len() == 0 {
            Err(LexemeError::EmptyToken)
        } else if chars[0] == '0' {
            match imm_of_chars(&chars) {
                Some(imm) => Ok(Op2::Imm(imm)),
                None => Err(LexemeError::InvalidImm(String::from_str(token))),
            }
        } else {
            match reg_of_chars(&chars) {
                Some(r) => Ok(Op2::Reg(r)),
                None => Err(LexemeError::InvalidReg(String::from_str(token))),
            }
        }
    }

    /// The operand as the assembler writes it: `r` and the register's
    /// number, or `0x` and the immediate as four hexadecimal digits.
    pub open spec fn text(self) -> Seq<char> {
        match self {
            Op2::Reg(r) => reg_text(r),
            Op2::Imm(imm) => "0x"@ + hex4(imm),
        }
    }

    /// The operand as the assembler writes it where it is an address: an
    /// immediate carries a sign.
    pub open spec fn address_text(self) -> Seq<char> {
        match self {
            Op2::Reg(r) => reg_text(r),
            Op2::Imm(imm) => "+0x"@ + hex4(imm),
        }
    }

    /// Appends [`Op2::text`] to `out`.
    pub fn push_text(&self, out: &mut String)
        ensures
            final(out)@ == old(out)@ + self.text(),
    {
        match self {
            Op2::Reg(r) => push_reg(out, *r),
            Op2::Imm(imm) => {
                out.append("0x");
                push_hex4(out, *imm);
                assert(out@ =~= old(out)@ + self.text());
            },
        }
    }

    /// Appends [`Op2::address_text`] to `out`.
    pub fn push_address_text(&self, out: &mut String)
        ensures
            final(out)@ == old(out)@ + self.address_text(),
    {
        match self {
            Op2::Reg(r) => push_reg(out, *r),
            Op2::Imm(imm) => {
                out.append("+0x");
                push_hex4(out, *imm);
                assert(out@ =~= old(out)@ + self.address_text());
            },
        }
    }
}

/// What [`sign_extended`] gives for the two widths that the codec uses.
pub proof fn lemma_sign_extended(x: u16)
    ensures
        x % 0x80 < 0x40 ==> sign_extended(7, x) == x % 0x80,
        x % 0x80 >= 0x40 ==> sign_extended(7, x) == x % 0x80 + 0xff80,
        x % 0x100 < 0x80 ==> sign_extended(8, x) == x % 0x100,
        x % 0x100 >= 0x80 ==> sign_extended(8, x) == x % 0x100 + 0xff00,
{
    lemma2_to64();
}

proof fn lemma_low_bits(x: u16)
    ensures
        x % 0x10 % 0x10 == x % 0x10,
        x % 0x80 % 0x80 == x % 0x80,
        x % 0x80 >= 0x40 ==> (x % 0x80 + 0xff80) % 0x80 == x % 0x80,
        2 * (x % 0x80) < 0x80 ==> 2 * (x % 0x80) % 0x100 / 2 % 0x80 == x % 0x80,
        2 * (x % 0x80) >= 0x80 ==> (2 * (x % 0x80) % 0x100 + 0xff00) / 2 % 0x80 == x % 0x80,
        2 * (x % 0x80) % 0x100 == 2 * (x % 0x80),
{
    let y = x % 0x80;
    assert(0 <= y < 0x80);
    if y >= 0x40 {
        assert((y + 0xff80) % 0x80 == y);
    }
    assert(2 * y % 0x100 == 2 * y);
    if 2 * y >= 0x80 {
        assert((2 * y + 0xff00) / 2 == y + 0x7f80);
        assert((y + 0x7f80) % 0x80 == y);
    }
}

proof fn lemma_byte_bits(x: u16)
    by (bit_vector)
    ensures
        x % 0x10 % 0x10 == x % 0x10,
        x % 0x80 % 0x80 == x % 0x80,
        x < 0x10 ==> x % 0x10 == x && x % 0x80 == x,
        x < 0x80 ==> x % 0x80 == x,
        ((0x80 + x % 0x80) as u16) % 0x80 == x % 0x80,
        ((0x80 + x % 0x10) as u16) % 0x10 == x % 0x10,
        ((0x80 + x / 2 % 0x80) as u16) % 0x80 == x / 2 % 0x80,
        x >= 0xffc0 ==> x % 0x80 + 0xff80 == x && x % 0x80 >= 0x40,
        x < 0x40 ==> x % 0x80 < 0x40,
        2 * (x / 2 % 0x80) < 0x100,
        ((2 * (x / 2 % 0x80)) as u16) % 0x100 == 2 * (x / 2 % 0x80),
        x % 2 == 0 && x < 0x80 ==> 2 * (x / 2 % 0x80) == x,
        x % 2 == 0 && x >= 0xff80 ==> 2 * (x / 2 % 0x80) + 0xff00 == x && 2 * (x / 2 % 0x80)
            >= 0x80,
{
}

/// The low byte that encodes the operand decoded from a word holds the
/// same operand bits as the word.
pub proof fn lemma_operand_bytes(word: u16)
    ensures
        imm_flag(word) ==> Op2::unsigned7(word).low_byte() == (0x80 + low7(word)) as u16,
        imm_flag(word) ==> Op2::signed7(word).low_byte() == (0x80 + low7(word)) as u16,
        imm_flag(word) ==> Op2::relative(word).relative_byte() == (0x80 + low7(word)) as u16,
        imm_flag(word) ==> Op2::distance(word).distance_byte() == (0x80 + low4(word)) as u16,
        !imm_flag(word) ==> Op2::unsigned7(word).low_byte() == low4(word),
        !imm_flag(word) ==> Op2::signed7(word).low_byte() == low4(word),
        !imm_flag(word) ==> Op2::relative(word).relative_byte() == low4(word),
        !imm_flag(word) ==> Op2::distance(word).distance_byte() == low4(word),
{
    lemma_low_bits(word);
    lemma_sign_extended(low7(word));
    lemma_sign_extended((2 * low7(word)) as u16);
}

/// A register as the assembler writes it: `r` and its number in decimal.
pub open spec fn reg_text(r: u16) -> Seq<char> {
    "r"@ + decimal(r as nat)
}

/// Appends [`reg_text`] to `out`.
pub fn push_reg(out: &mut String, r: u16)
    ensures
        final(out)@ == old(out)@ + reg_text(r),
{
    out.append("r");
    push_decimal(out, r);
    assert(out@ =~= old(out)@ + reg_text(r));
}

/// A register as the assembler writes it reads back as the register.
pub proof fn lemma_reg_text_value(r: u16)
    ensures
        reg_value(reg_text(r)) == Some(r),
{
    reveal_strlit("r");
    reveal_strlit("sp");
    reveal_strlit("lr");
    reveal_strlit("pc");
    crate::text::lemma_decimal_value(r as nat);
    let text = reg_text(r);
    assert(text[0] == 'r');
    assert(text.skip(1) =~= decimal(r as nat));
    assert(text != "sp"@);
    assert(text != "lr"@);
    assert(text != "pc"@);
}

} // verus!
