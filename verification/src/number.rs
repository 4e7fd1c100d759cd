//! Numbers as text: decimal notation, padding, and parsing of signed integers.

use vstd::prelude::*;

use crate::text::chars_of;

verus! {

/// The character of the decimal digit `d`.
pub open spec fn digit_char(d: nat) -> char {
    (('0' as u32) + d) as char
}

/// `n` in decimal notation, without leading zeros.
pub open spec fn decimal(n: nat) -> Seq<char>
    decreases n,
{
    if n < 10 {
        seq![digit_char(n)]
    } else {
        decimal(n / 10).push(digit_char(n % 10))
    }
}

/// `n` in decimal notation, with a minus sign where it is negative.
pub open spec fn decimal_int(n: int) -> Seq<char> {
    if n < 0 {
        seq!['-'] + decimal((-n) as nat)
    } else {
        decimal(n as nat)
    }
}

/// `count` times the character `c`.
pub open spec fn repeated(c: char, count: nat) -> Seq<char> {
    Seq::new(count, |i: int| c)
}

/// The characters that `s` lacks to be `width` characters long.
pub open spec fn missing(s: Seq<char>, width: nat) -> nat {
    if s.len() >= width {
        0
    } else {
        (width - s.len()) as nat
    }
}

/// `s`, with `fill` in front of it up to `width` characters.
pub open spec fn pad_front(s: Seq<char>, fill: char, width: nat) -> Seq<char> {
    repeated(fill, missing(s, width)) + s
}

/// `s`, with blanks behind it up to `width` characters.
pub open spec fn pad_back(s: Seq<char>, width: nat) -> Seq<char> {
    s + repeated(' ', missing(s, width))
}

/// Whether `c` is one of the ten ASCII digits.
pub open spec fn is_digit(c: char) -> bool {
    '0' as u32 <= c as u32 <= '9' as u32
}

/// Whether `s` consists of digits alone and has at least one.
pub open spec fn is_digits(s: Seq<char>) -> bool {
    s.len() > 0 && forall|i: int| 0 <= i < s.len() ==> is_digit(#[trigger] s[i])
}

/// The number that the digits `s` denote.
pub open spec fn digits_value(s: Seq<char>) -> nat
    decreases s.len(),
{
    if s.len() == 0 {
        0
    } else {
        digits_value(s.drop_last()) * 10 + (s.last() as u32 - '0' as u32) as nat
    }
}

/// The number that `s` denotes: digits, after at most one sign. `None` where `s` has another
/// form or the number does not fit 64 bits.
pub open spec fn parsed_i64(s: Seq<char>) -> Option<int> {
    let signed = s.len() > 0 && (s[0] == '-' || s[0] == '+');
    let digits = if signed { s.skip(1) } else { s };
    let value = if signed && s[0] == '-' { -(digits_value(digits) as int) } else {
        digits_value(digits) as int
    };
    if is_digits(digits) && i64::MIN <= value <= i64::MAX {
        Some(value)
    } else {
        None
    }
}

fn digit_of(d: u8) -> (c: char)
    requires
        d < 10,
    ensures
        c == digit_char(d as nat),
{
    (48u8 + d) as char
}

/// Appends `n` in decimal notation.
pub fn push_decimal(s: &mut String, n: u64)
    ensures
        final(s)@ == old(s)@ + decimal(n as nat),
    decreases n,
{
    if n >= 10 {
        push_decimal(s, n / 10);
    }
    s.push(digit_of((n % 10) as u8));
    proof {
        assert(s@ =~= old(s)@ + decimal(n as nat));
    }
}

/// `n` in decimal notation.
pub fn decimal_text(n: u64) -> (r: String)
    ensures
        r@ == decimal(n as nat),
{
    let mut r = String::new();
    push_decimal(&mut r, n);
    proof {
        assert(r@ =~= decimal(n as nat));
    }
    r
}

/// `n` in decimal notation, with a minus sign where it is negative.
pub fn decimal_i32_text(n: i32) -> (r: String)
    ensures
        r@ == decimal_int(n as int),
{
    if n < 0 {
        let mut r = String::new();
        r.push('-');
        push_decimal(&mut r, (-(n as i64)) as u64);
        proof {
            assert(r@ =~= decimal_int(n as int));
        }
        r
    } else {
        decimal_text(n as u64)
    }
}

/// `s`, with `fill` in front of it up to `width` characters.
pub fn pad_front_text(s: &str, fill: char, width: usize) -> (r: String)
    ensures
        r@ == pad_front(s@, fill, width as nat),
{
    let len: usize = chars_of(s).len();
    let mut r = String::new();
    let mut i: usize = len;
    while i < width
        invariant
            len == s@.len(),
            len <= i,
            i <= width || i == len,
            r@ == repeated(fill, (i - len) as nat),
        decreases width - i,
    {
        r.push(fill);
        i += 1;
        proof {
            assert(r@ =~= repeated(fill, (i - len) as nat));
        }
    }
    r.append(s);
    r
}

/// `s`, with blanks behind it up to `width` characters.
pub fn pad_back_text(s: &str, width: usize) -> (r: String)
    ensures
        r@ == pad_back(s@, width as nat),
{
    let len: usize = chars_of(s).len();
    let mut r = String::new();
    r.append(s);
    let mut i: usize = len;
    proof {
        assert(r@ =~= s@ + repeated(' ', 0));
    }
    while i < width
        invariant
            len == s@.len(),
            len <= i,
            i <= width || i == len,
            r@ == s@ + repeated(' ', (i - len) as nat),
        decreases width - i,
    {
        r.push(' ');
        i += 1;
        proof {
            assert(r@ =~= s@ + repeated(' ', (i - len) as nat));
        }
    }
    r
}

/// A longer row of digits never denotes a smaller number.
proof fn lemma_digits_value_grows(s: Seq<char>, n: int)
    requires
        0 <= n <= s.len(),
    ensures
        digits_value(s.take(n)) <= digits_value(s),
    decreases s.len() - n,
{
    if n == s.len() {
        assert(s.take(n) =~= s);
    } else {
        assert(s.take(n + 1).drop_last() =~= s.take(n));
        lemma_digits_value_grows(s, n + 1);
    }
}

/// Reads a signed 64-bit integer.
pub fn parse_i64(s: &str) -> (r: Option<i64>)
    ensures
        match r {
            Some(v) => parsed_i64(s@) == Some(v as int),
            None => parsed_i64(s@) is None,
        },
{
    let chars = chars_of(s);
    let signed = chars.len() > 0 && (chars[0] == '-' || chars[0] == '+');
    let negative = signed && chars[0] == '-';
    let from: usize = if signed { 1 } else { 0 };
    let ghost digits = if signed { s@.skip(1) } else { s@ };
    proof {
        assert(digits =~= chars@.skip(from as int));
    }
    if from == chars.len() {
        return None;
    }
    let mut acc: u64 = 0;
    let mut i: usize = from;
    proof {
        assert(digits.take(0) =~= Seq::<char>::empty());
    }
    while i < chars.len()
        invariant
            chars@ == s@,
            from <= i <= chars.len(),
            digits == chars@.skip(from as int),
            signed == (chars@.len() > 0 && (chars@[0] == '-' || chars@[0] == '+')),
            digits == (if signed { s@.skip(1) } else { s@ }),
            forall|k: int| 0 <= k < i - from ==> is_digit(#[trigger] digits[k]),
            acc == digits_value(digits.take(i - from)),
            acc <= 0x8000_0000_0000_0000,
        decreases chars.len() - i,
    {
        let c = chars[i];
        let ghost k: int = i - from;
        proof {
            assert(digits[k] == c);
            assert(digits.take(k + 1).drop_last() =~= digits.take(k));
            lemma_digits_value_grows(digits, k + 1);
        }
        let code: u32 = c as u32;
        if code < '0' as u32 || code > '9' as u32 {
            proof {
                assert(!is_digit(digits[k]));
            }
            return None;
        }
        let d: u64 = (code - '0' as u32) as u64;
        if acc > (0x8000_0000_0000_0000 - d) / 10 {
            proof {
                assert(digits_value(digits.take(k + 1)) > 0x8000_0000_0000_0000);
            }
            return None;
        }
        acc = acc * 10 + d;
        i += 1;
    }
    proof {
        assert(digits.take(digits.len() as int) =~= digits);
        assert(is_digits(digits));
    }
    if negative {
        if acc == 0x8000_0000_0000_0000 {
            Some(i64::MIN)
        } else {
            Some(-(acc as i64))
        }
    } else if acc < 0x8000_0000_0000_0000 {
        Some(acc as i64)
    } else {
        None
    }
}

} // verus!
