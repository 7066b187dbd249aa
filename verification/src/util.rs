//! Sign extension: widening a field of an instruction word to a full
//! word in two's complement.

use vstd::arithmetic::power2::{lemma2_to64, pow2};
use vstd::prelude::*;

verus! {

/// The value of the low `bits` bits of `x`, read as a two's-complement
/// number and widened back to a full word.
pub open spec fn sign_extended(bits: nat, x: u16) -> u16
    recommends
        0 < bits < 16,
{
    let low = x as nat % pow2(bits);
    if low < pow2((bits - 1) as nat) {
        low as u16
    } else {
        (low + 0x10000 - pow2(bits)) as u16
    }
}

proof fn lemma_shift_sign_extension(x: u16, i: u32)
    by (bit_vector)
    requires
        1 <= i < 16,
    ensures
        i == 1 ==> (((x << i) as i16) >> i) as u16 == (if x % 0x8000 < 0x4000 { x % 0x8000 } else { (x % 0x8000 + 0x8000) as u16 }),
        i == 2 ==> (((x << i) as i16) >> i) as u16 == (if x % 0x4000 < 0x2000 { x % 0x4000 } else { (x % 0x4000 + 0xc000) as u16 }),
        i == 3 ==> (((x << i) as i16) >> i) as u16 == (if x % 0x2000 < 0x1000 { x % 0x2000 } else { (x % 0x2000 + 0xe000) as u16 }),
        i == 4 ==> (((x << i) as i16) >> i) as u16 == (if x % 0x1000 < 0x0800 { x % 0x1000 } else { (x % 0x1000 + 0xf000) as u16 }),
        i == 5 ==> (((x << i) as i16) >> i) as u16 == (if x % 0x0800 < 0x0400 { x % 0x0800 } else { (x % 0x0800 + 0xf800) as u16 }),
        i == 6 ==> (((x << i) as i16) >> i) as u16 == (if x % 0x0400 < 0x0200 { x % 0x0400 } else { (x % 0x0400 + 0xfc00) as u16 }),
        i == 7 ==> (((x << i) as i16) >> i) as u16 == (if x % 0x0200 < 0x0100 { x % 0x0200 } else { (x % 0x0200 + 0xfe00) as u16 }),
        i == 8 ==> (((x << i) as i16) >> i) as u16 == (if x % 0x0100 < 0x0080 { x % 0x0100 } else { (x % 0x0100 + 0xff00) as u16 }),
        i == 9 ==> (((x << i) as i16) >> i) as u16 == (if x % 0x0080 < 0x0040 { x % 0x0080 } else { (x % 0x0080 + 0xff80) as u16 }),
        i == 10 ==> (((x << i) as i16) >> i) as u16 == (if x % 0x0040 < 0x0020 { x % 0x0040 } else { (x % 0x0040 + 0xffc0) as u16 }),
        i == 11 ==> (((x << i) as i16) >> i) as u16 == (if x % 0x0020 < 0x0010 { x % 0x0020 } else { (x % 0x0020 + 0xffe0) as u16 }),
        i == 12 ==> (((x << i) as i16) >> i) as u16 == (if x % 0x0010 < 0x0008 { x % 0x0010 } else { (x % 0x0010 + 0xfff0) as u16 }),
        i == 13 ==> (((x << i) as i16) >> i) as u16 == (if x % 0x0008 < 0x0004 { x % 0x0008 } else { (x % 0x0008 + 0xfff8) as u16 }),
        i == 14 ==> (((x << i) as i16) >> i) as u16 == (if x % 0x0004 < 0x0002 { x % 0x0004 } else { (x % 0x0004 + 0xfffc) as u16 }),
        i == 15 ==> (((x << i) as i16) >> i) as u16 == (if x % 0x0002 < 0x0001 { x % 0x0002 } else { (x % 0x0002 + 0xfffe) as u16 }),
{
}

/// Sign-extends `x` the way a value `F` bits wide is widened to `T` bits
/// inside a 16-bit word: the top `T - F` bits of `x` are dropped and the
/// highest remaining bit is copied into them.
pub fn sign_extend<const F: u32, const T: u32>(x: u16) -> (r: u16)
    requires
        F < T,
        T - F < 16,
    ensures
        r == sign_extended((16 - (T - F)) as nat, x),
{
    let i: u32 = T - F;
    proof {
        lemma_shift_sign_extension(x, i);
        lemma2_to64();
    }
    (((x << i) as i16) >> i) as u16
}

} // verus!
