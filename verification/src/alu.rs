//! The arithmetic of the processor: sums, differences and products in a
//! word, and the condition flags that they leave.

use vstd::prelude::*;

verus! {

/// The four condition flags.
#[derive(Clone, Copy, Debug, PartialEq, Eq, Structural)]
pub struct Flags {
    /// Bit 0 of the status register.
    pub zero: bool,
    /// Bit 1 of the status register.
    pub negative: bool,
    /// Bit 2 of the status register.
    pub overflow: bool,
    /// Bit 3 of the status register.
    pub carry: bool,
}

/// One for a flag that is set, zero for one that is clear.
pub open spec fn bit(b: bool) -> nat {
    if b {
        1
    } else {
        0
    }
}

proof fn lemma_status_bits(sr: u16, z: u16, n: u16, v: u16, c: u16)
    by (bit_vector)
    requires
        z < 2,
        n < 2,
        v < 2,
        c < 2,
    ensures
        (sr & 0x0001 != 0) == (sr % 2 == 1),
        (sr & 0x0002 != 0) == (sr / 2 % 2 == 1),
        (sr & 0x0004 != 0) == (sr / 4 % 2 == 1),
        (sr & 0x0008 != 0) == (sr / 8 % 2 == 1),
        (sr & 0xfff0) | z | (n << 1) | (v << 2) | (c << 3) == sr - sr % 16 + z + 2 * n + 4 * v + 8
            * c,
        ((sr & 0xfff0) | z | (n << 1) | (v << 2) | (c << 3)) % 2 == z,
        ((sr & 0xfff0) | z | (n << 1) | (v << 2) | (c << 3)) / 2 % 2 == n,
        ((sr & 0xfff0) | z | (n << 1) | (v << 2) | (c << 3)) / 4 % 2 == v,
        ((sr & 0xfff0) | z | (n << 1) | (v << 2) | (c << 3)) / 8 % 2 == c,
{
}

impl Flags {
    /// The flags that the status word `sr` holds in its low four bits.
    pub open spec fn of_word(sr: u16) -> Flags {
        Flags {
            zero: sr % 2 == 1,
            negative: sr / 2 % 2 == 1,
            overflow: sr / 4 % 2 == 1,
            carry: sr / 8 % 2 == 1,
        }
    }

    /// The status word `sr` with its low four bits replaced by the flags.
    pub open spec fn in_word(self, sr: u16) -> u16 {
        (sr - sr % 16 + bit(self.zero) + 2 * bit(self.negative) + 4 * bit(self.overflow) + 8 * bit(
            self.carry,
        )) as u16
    }

    /// Reads the flags from a status word.
    pub fn read(sr: u16) -> (flags: Flags)
        ensures
            flags == Flags::of_word(sr),
    {
        proof {
            lemma_status_bits(sr, 0, 0, 0, 0);
        }
        Flags {
            zero: sr & 0x0001 != 0,
            negative: sr & 0x0002 != 0,
            overflow: sr & 0x0004 != 0,
            carry: sr & 0x0008 != 0,
        }
    }

    /// Writes the flags into a status word, whose other bits are kept.
    pub fn write(&self, sr: u16) -> (r: u16)
        ensures
            r == self.in_word(sr),
            Flags::of_word(r) == *self,
    {
        let z: u16 = if self.zero { 1 } else { 0 };
        let n: u16 = if self.negative { 1 } else { 0 };
        let v: u16 = if self.overflow { 1 } else { 0 };
        let c: u16 = if self.carry { 1 } else { 0 };
        proof {
            lemma_status_bits(sr, z, n, v, c);
        }
        (sr & 0xfff0) | z | (n << 1) | (v << 2) | (c << 3)
    }

    /// The flags with zero and negative taken from `res`, and overflow
    /// and carry as they are.
    pub open spec fn with_result(self, res: u16) -> Flags {
        Flags { zero: res == 0, negative: res >= 0x8000, ..self }
    }

    /// Executable form of [`Flags::with_result`].
    pub fn set_result(&self, res: u16) -> (flags: Flags)
        ensures
            flags == self.with_result(res),
    {
        Flags {
            zero: res == 0,
            negative: res >= 0x8000,
            overflow: self.overflow,
            carry: self.carry,
        }
    }
}

/// Bit 15 of `res ^ a ^ b`: the carry that came into the top bit when
/// `res` was computed from `a` and `b`.
pub open spec fn carry_in(res: u16, a: u16, b: u16) -> bool {
    (res ^ a ^ b) & 0x8000 != 0
}

/// The flags of a result `res` computed from `a` and `b` with carry-out
/// `carry`: overflow is the carry-out xor the carry into the top bit.
pub open spec fn arith_flags(res: u16, a: u16, b: u16, carry: bool) -> Flags {
    Flags {
        zero: res == 0,
        negative: res >= 0x8000,
        overflow: carry != carry_in(res, a, b),
        carry,
    }
}

/// Executable form of [`arith_flags`].
pub fn flags_of(res: u16, a: u16, b: u16, carry: bool) -> (flags: Flags)
    ensures
        flags == arith_flags(res, a, b, carry),
{
    let cin = (res ^ a ^ b) & 0x8000 != 0;
    Flags { zero: res == 0, negative: res >= 0x8000, overflow: carry != cin, carry }
}

/// The sum of `a` and `b` in a word, and whether it did not fit.
pub open spec fn add_spec(a: u16, b: u16) -> (u16, bool) {
    (((a + b) % 0x10000) as u16, a + b > 0xffff)
}

/// The difference of `a` and `b` in a word, and whether it did not fit.
pub open spec fn sub_spec(a: u16, b: u16) -> (u16, bool) {
    (((a - b) % 0x10000) as u16, a < b)
}

/// The product of `a` and `b` in a word, and whether it did not fit.
pub open spec fn mul_spec(a: u16, b: u16) -> (u16, bool) {
    (((a * b) % 0x10000) as u16, a * b > 0xffff)
}

/// Adds with a check for overflow.
pub fn add_words(a: u16, b: u16) -> (r: (u16, bool))
    ensures
        r == add_spec(a, b),
{
    match a.checked_add(b) {
        Some(res) => (res, false),
        None => (a.wrapping_add(b), true),
    }
}

/// Subtracts with a check for overflow.
pub fn sub_words(a: u16, b: u16) -> (r: (u16, bool))
    ensures
        r == sub_spec(a, b),
{
    match a.checked_sub(b) {
        Some(res) => (res, false),
        None => (a.wrapping_sub(b), true),
    }
}

/// Multiplies with a check for overflow.
pub fn mul_words(a: u16, b: u16) -> (r: (u16, bool))
    ensures
        r == mul_spec(a, b),
{
    match a.checked_mul(b) {
        Some(res) => (res, false),
        None => (a.wrapping_mul(b), true),
    }
}

/// The number that the word `x` stands for in two's complement.
pub open spec fn signed(x: u16) -> int {
    if x < 0x8000 {
        x as int
    } else {
        x - 0x10000
    }
}

/// The word that stands for the number `d` in two's complement.
pub open spec fn as_word(d: int) -> u16
    recommends
        -0x8000 <= d <= 0x7fff,
{
    if d < 0 {
        (d + 0x10000) as u16
    } else {
        d as u16
    }
}

proof fn lemma_top_bits(a: u16, b: u16, sum: u16, diff: u16)
    by (bit_vector)
    requires
        sum == ((a + b) % 0x10000) as u16,
        diff == ((0x10000 + a - b) % 0x10000) as u16,
    ensures
        (((sum ^ a ^ b) & 0x8000 != 0) != (a + b > 0xffff)) <==> ((a < 0x8000) == (b < 0x8000) && (
        sum < 0x8000) != (a < 0x8000)),
        (((diff ^ a ^ b) & 0x8000 != 0) != (a < b)) <==> ((a < 0x8000) != (b < 0x8000) && (diff
            < 0x8000) != (a < 0x8000)),
{
}

/// The overflow flag of an addition, which is computed from the carries
/// alone, is set exactly where the sum of the operands as signed numbers
/// does not fit in a word.
pub proof fn lemma_add_overflow(a: u16, b: u16)
    ensures
        arith_flags(add_spec(a, b).0, a, b, add_spec(a, b).1).overflow <==> !(-0x8000 <= signed(a)
            + signed(b) <= 0x7fff),
{
    let sum = add_spec(a, b).0;
    let diff = ((0x10000 + a - b) % 0x10000) as u16;
    lemma_top_bits(a, b, sum, diff);
}

/// The overflow flag of a subtraction, which is computed from the
/// borrows alone, is set exactly where the difference of the operands as
/// signed numbers does not fit in a word.
pub proof fn lemma_sub_overflow(a: u16, b: u16)
    ensures
        arith_flags(sub_spec(a, b).0, a, b, sub_spec(a, b).1).overflow <==> !(-0x8000 <= signed(a)
            - signed(b) <= 0x7fff),
{
    let sum = ((a + b) % 0x10000) as u16;
    let diff = sub_spec(a, b).0;
    assert(diff == ((0x10000 + a - b) % 0x10000) as u16);
    lemma_top_bits(a, b, sum, diff);
}

} // verus!
