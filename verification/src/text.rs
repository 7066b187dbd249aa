//! Characters and digits: the conversions between strings and character
//! vectors, ASCII case folding, and the positional notation used for
//! register numbers and immediates.

use vstd::prelude::*;
use vstd::string::*;

verus! {

/// `String::push` appends one character to the end of the string.
pub assume_specification[ String::push ](s: &mut String, ch: char)
    ensures
        final(s)@ == old(s)@.push(ch),
;

/// The characters of `s`, in order.
pub fn chars_of(s: &str) -> (v: Vec<char>)
    ensures
        v@ == s@,
{
    broadcast use vstd::string::axiom_spec_iter;

    let mut v: Vec<char> = Vec::new();
    for c in it: s.chars()
        invariant
            it.seq() == s@,
            v@ == it.seq().take(it.index() as int),
    {
        v.push(c);
    }
    assert(v@ =~= s@);
    v
}

/// The character sequences that the vectors of `v` hold.
pub open spec fn rows(v: Seq<Vec<char>>) -> Seq<Seq<char>> {
    Seq::new(v.len(), |i: int| v[i]@)
}

/// Appends the characters of `v` to `out`.
pub fn push_chars(out: &mut String, v: &Vec<char>)
    ensures
        final(out)@ == old(out)@ + v@,
{
    let mut i: usize = 0;
    while i < v.len()
        invariant
            i <= v.len(),
            out@ == old(out)@ + v@.subrange(0, i as int),
        decreases v.len() - i,
    {
        out.push(v[i]);
        i += 1;
    }
}

/// The string made of the characters of `v`.
pub fn string_of(v: &Vec<char>) -> (s: String)
    ensures
        s@ == v@,
{
    let mut s = String::new();
    push_chars(&mut s, v);
    s
}

/// `c` with an ASCII capital letter replaced by its small letter.
pub open spec fn lower_char(c: char) -> char {
    if 'A' <= c <= 'Z' {
        ((c as u8) + 32) as char
    } else {
        c
    }
}

/// `s` with every ASCII capital letter replaced by its small letter.
pub open spec fn lowered(s: Seq<char>) -> Seq<char> {
    Seq::new(s.len(), |i: int| lower_char(s[i]))
}

/// Executable form of [`lower_char`].
pub fn to_lower_char(c: char) -> (r: char)
    ensures
        r == lower_char(c),
{
    if 'A' <= c && c <= 'Z' {
        ((c as u8) + 32) as char
    } else {
        c
    }
}

/// The characters of `s`, with ASCII capital letters made small.
pub fn lowercase(s: &str) -> (v: Vec<char>)
    ensures
        v@ == lowered(s@),
{
    let chars = chars_of(s);
    let mut v: Vec<char> = Vec::new();
    let mut i: usize = 0;
    while i < chars.len()
        invariant
            i <= chars.len(),
            chars@ == s@,
            v@ == lowered(s@).subrange(0, i as int),
        decreases chars.len() - i,
    {
        v.push(to_lower_char(chars[i]));
        i += 1;
    }
    v
}

/// Whether two vectors hold the same characters.
pub fn same_chars(a: &Vec<char>, b: &Vec<char>) -> (r: bool)
    ensures
        r == (a@ == b@),
{
    if a.len() != b.len() {
        return false;
    }
    let mut i: usize = 0;
    while i < a.len()
        invariant
            i <= a.len(),
            a.len() == b.len(),
            forall|k: int| 0 <= k < i ==> a@[k] == b@[k],
        decreases a.len() - i,
    {
        if a[i] != b[i] {
            return false;
        }
        i += 1;
    }
    assert(a@ =~= b@);
    true
}

/// Whether `v` spells exactly the text `lit`.
pub fn spells(v: &Vec<char>, lit: &str) -> (b: bool)
    ensures
        b == (v@ == lit@),
{
    let wanted = chars_of(lit);
    same_chars(v, &wanted)
}

/// The value of `c` as a digit: `0`-`9`, then `a`-`f` in either case.
pub open spec fn digit_of(c: char) -> Option<nat> {
    if '0' <= c <= '9' {
        Some((c as nat - '0' as nat) as nat)
    } else if 'a' <= c <= 'f' {
        Some((c as nat - 'a' as nat + 10) as nat)
    } else if 'A' <= c <= 'F' {
        Some((c as nat - 'A' as nat + 10) as nat)
    } else {
        None
    }
}

/// The number that `s` denotes in base `radix`, most significant digit
/// first. `None` where a character is no digit of that base. The empty
/// sequence denotes zero.
pub open spec fn digits_value(s: Seq<char>, radix: nat) -> Option<nat>
    decreases s.len(),
{
    if s.len() == 0 {
        Some(0)
    } else {
        match (digits_value(s.drop_last(), radix), digit_of(s.last())) {
            (Some(high), Some(d)) => if d < radix {
                Some(high * radix + d)
            } else {
                None
            },
            _ => None,
        }
    }
}

/// Executable form of [`digit_of`].
pub fn digit(c: char) -> (r: Option<u32>)
    ensures
        match r {
            Some(d) => digit_of(c) == Some(d as nat) && d < 16,
            None => digit_of(c).is_none(),
        },
{
    if '0' <= c && c <= '9' {
        Some((c as u32) - ('0' as u32))
    } else if 'a' <= c && c <= 'f' {
        Some((c as u32) - ('a' as u32) + 10)
    } else if 'A' <= c && c <= 'F' {
        Some((c as u32) - ('A' as u32) + 10)
    } else {
        None
    }
}

/// Reads the characters of `v` from position `start` on as a number in
/// base `radix`. `None` where there is no character to read, where one is
/// no digit of the base, or where the number does not fit in a word.
pub fn parse_digits(v: &Vec<char>, start: usize, radix: u32) -> (r: Option<u16>)
    requires
        start <= v.len(),
        2 <= radix <= 16,
    ensures
        r == (if start < v.len() {
            match digits_value(v@.skip(start as int), radix as nat) {
                Some(n) => if n <= 0xffff {
                    Some(n as u16)
                } else {
                    None
                },
                None => None,
            }
        } else {
            None
        }),
{
    if start >= v.len() {
        return None;
    }
    let ghost digits = v@.skip(start as int);
    let mut acc: u32 = 0;
    let mut big = false;
    let mut i: usize = start;
    proof {
        assert(digits.subrange(0, 0) =~= Seq::<char>::empty());
    }
    while i < v.len()
        invariant
            start <= i <= v.len(),
            2 <= radix <= 16,
            digits == v@.skip(start as int),
            acc <= 0xffff,
            match digits_value(digits.subrange(0, i - start), radix as nat) {
                Some(n) => if big {
                    n > 0xffff
                } else {
                    n == acc
                },
                None => false,
            },
        decreases v.len() - i,
    {
        let ghost before = digits.subrange(0, i - start);
        let ghost after = digits.subrange(0, i + 1 - start);
        proof {
            assert(after.drop_last() =~= before);
            assert(after.last() == v@[i as int]);
        }
        match digit(v[i]) {
            Some(d) => {
                if d >= radix {
                    proof {
                        lemma_digits_value_prefix(digits, (i + 1 - start) as int, radix as nat);
                    }
                    return None;
                }
                let ghost high = digits_value(before, radix as nat).unwrap();
                proof {
                    assert(high * radix >= high) by (nonlinear_arith)
                        requires
                            radix >= 1,
                            high >= 0,
                    ;
                    assert(acc * radix <= 0xffff * 16) by (nonlinear_arith)
                        requires
                            acc <= 0xffff,
                            radix <= 16,
                    ;
                }
                if !big {
                    let next: u32 = acc * radix + d;
                    if next > 0xffff {
                        big = true;
                    } else {
                        acc = next;
                    }
                }
            },
            None => {
                proof {
                    lemma_digits_value_prefix(digits, (i + 1 - start) as int, radix as nat);
                }
                return None;
            },
        }
        i += 1;
    }
    proof {
        assert(digits.subrange(0, i - start) =~= digits);
    }
    if big {
        None
    } else {
        Some(acc as u16)
    }
}

/// Where a prefix of `s` denotes no number, neither does `s`.
pub proof fn lemma_digits_value_prefix(s: Seq<char>, n: int, radix: nat)
    requires
        0 <= n <= s.len(),
        digits_value(s.subrange(0, n), radix).is_none(),
    ensures
        digits_value(s, radix).is_none(),
    decreases s.len(),
{
    if n == s.len() {
        assert(s.subrange(0, n) =~= s);
    } else {
        assert(s.drop_last().subrange(0, n) =~= s.subrange(0, n));
        lemma_digits_value_prefix(s.drop_last(), n, radix);
    }
}

/// The character that stands for the digit `d`, small letters from ten on.
pub open spec fn digit_char(d: nat) -> char
    recommends
        d < 16,
{
    if d < 10 {
        (d + '0' as nat) as char
    } else {
        (d - 10 + 'a' as nat) as char
    }
}

/// `n` written in decimal without leading zeros; zero is one digit.
pub open spec fn decimal(n: nat) -> Seq<char>
    decreases n,
{
    if n < 10 {
        seq![digit_char(n)]
    } else {
        decimal(n / 10).push(digit_char(n % 10))
    }
}

/// `n` written in hexadecimal without leading zeros; zero is one digit.
pub open spec fn hexadecimal(n: nat) -> Seq<char>
    decreases n,
{
    if n < 16 {
        seq![digit_char(n)]
    } else {
        hexadecimal(n / 16).push(digit_char(n % 16))
    }
}

/// `v` written as four hexadecimal digits.
pub open spec fn hex4(v: u16) -> Seq<char> {
    seq![
        digit_char((v / 0x1000) as nat),
        digit_char((v / 0x100 % 0x10) as nat),
        digit_char((v / 0x10 % 0x10) as nat),
        digit_char((v % 0x10) as nat),
    ]
}

/// Executable form of [`digit_char`].
pub fn to_digit_char(d: u16) -> (c: char)
    requires
        d < 16,
    ensures
        c == digit_char(d as nat),
{
    if d < 10 {
        ((d as u8) + ('0' as u8)) as char
    } else {
        ((d as u8) - 10 + ('a' as u8)) as char
    }
}

/// Appends `n`, written in decimal without leading zeros, to `out`.
pub fn push_decimal(out: &mut String, n: u16)
    ensures
        final(out)@ == old(out)@ + decimal(n as nat),
    decreases n,
{
    if n >= 10 {
        push_decimal(out, n / 10);
    }
    out.push(to_digit_char(n % 10));
    assert(out@ =~= old(out)@ + decimal(n as nat));
}

/// Appends `n`, written in hexadecimal without leading zeros, to `out`.
pub fn push_hexadecimal(out: &mut String, n: u16)
    ensures
        final(out)@ == old(out)@ + hexadecimal(n as nat),
    decreases n,
{
    if n >= 16 {
        push_hexadecimal(out, n / 16);
    }
    out.push(to_digit_char(n % 16));
    assert(out@ =~= old(out)@ + hexadecimal(n as nat));
}

/// Appends `v`, written as four hexadecimal digits, to `out`.
pub fn push_hex4(out: &mut String, v: u16)
    ensures
        final(out)@ == old(out)@ + hex4(v),
{
    out.push(to_digit_char(v / 0x1000));
    out.push(to_digit_char(v / 0x100 % 0x10));
    out.push(to_digit_char(v / 0x10 % 0x10));
    out.push(to_digit_char(v % 0x10));
    assert(out@ =~= old(out)@ + hex4(v));
}

/// A decimal numeral reads back as the number it was written from.
pub proof fn lemma_decimal_value(n: nat)
    ensures
        decimal(n).len() > 0,
        digits_value(decimal(n), 10) == Some(n),
    decreases n,
{
    let s = decimal(n);
    if n < 10 {
        assert(s.drop_last() =~= Seq::<char>::empty());
        assert(digits_value(s.drop_last(), 10) == Some(0nat));
        assert(s.last() == digit_char(n));
        assert(digit_of(digit_char(n)) == Some(n));
    } else {
        lemma_decimal_value(n / 10);
        assert(s.drop_last() =~= decimal(n / 10));
        assert(s.last() == digit_char(n % 10));
        assert(digit_of(digit_char(n % 10)) == Some(n % 10));
    }
}

/// A hexadecimal numeral reads back as the number it was written from.
pub proof fn lemma_hexadecimal_value(n: nat)
    ensures
        hexadecimal(n).len() > 0,
        digits_value(hexadecimal(n), 16) == Some(n),
    decreases n,
{
    let s = hexadecimal(n);
    if n < 16 {
        assert(s.drop_last() =~= Seq::<char>::empty());
        assert(digits_value(s.drop_last(), 16) == Some(0nat));
        assert(s.last() == digit_char(n));
        assert(digit_of(digit_char(n)) == Some(n));
    } else {
        lemma_hexadecimal_value(n / 16);
        assert(s.drop_last() =~= hexadecimal(n / 16));
        assert(s.last() == digit_char(n % 16));
        assert(digit_of(digit_char(n % 16)) == Some(n % 16));
    }
}

/// The digits of a hexadecimal numeral are decimal digits or small
/// letters, which making letters small leaves as they are.
pub proof fn lemma_hexadecimal_small(n: nat)
    ensures
        lowered(hexadecimal(n)) == hexadecimal(n),
    decreases n,
{
    let s = hexadecimal(n);
    if n >= 16 {
        lemma_hexadecimal_small(n / 16);
        let head = hexadecimal(n / 16);
        assert forall|i: int| 0 <= i < s.len() implies lower_char(s[i]) == s[i] by {
            if i < head.len() {
                assert(lowered(head)[i] == head[i]);
                assert(s[i] == head[i]);
            }
        }
    }
    assert(lowered(s) =~= s);
}

/// `n` written in hexadecimal with four digits at least.
pub open spec fn hex_wide(n: nat) -> Seq<char> {
    if n < 0x10000 {
        hex4(n as u16)
    } else {
        hexadecimal(n)
    }
}

/// Appends `n`, written in hexadecimal without leading zeros, to `out`.
pub fn push_hexadecimal_wide(out: &mut String, n: usize)
    ensures
        final(out)@ == old(out)@ + hexadecimal(n as nat),
    decreases n,
{
    if n >= 16 {
        push_hexadecimal_wide(out, n / 16);
    }
    out.push(to_digit_char((n % 16) as u16));
    assert(out@ =~= old(out)@ + hexadecimal(n as nat));
}

/// Appends `n`, written in hexadecimal with four digits at least, to
/// `out`.
pub fn push_hex_wide(out: &mut String, n: usize)
    ensures
        final(out)@ == old(out)@ + hex_wide(n as nat),
{
    if n < 0x10000 {
        push_hex4(out, n as u16);
    } else {
        push_hexadecimal_wide(out, n);
    }
}

} // verus!
