//! Integer literals: reading them from text and writing them back.
//!
//! A literal is an optional `-`, an optional base prefix (`0b`, `0o`, `0x`)
//! and digits of that base, with upper-case letters for the hexadecimal
//! digits above nine. Without a prefix the base is ten. The digits are
//! weighted by position and the signed result is reduced to 64 bits.

use vstd::prelude::*;
use vstd::arithmetic::div_mod::{
    lemma_add_mod_noop,
    lemma_div_decreases,
    lemma_fundamental_div_mod,
    lemma_mul_mod_noop_left,
    lemma_sub_mod_noop,
};
use crate::text::{chars_of, push_char};

verus! {

/// The number of values of a 64-bit word.
pub open spec fn word() -> int {
    0x1_0000_0000_0000_0000
}

/// The two's-complement reduction of an integer to 64 bits.
pub open spec fn wrap_i64(v: int) -> i64 {
    let low = v % word();
    if low > i64::MAX {
        (low - word()) as i64
    } else {
        low as i64
    }
}

/// The value of a digit character: `0`-`9`, then `A`-`F` for ten to fifteen.
pub open spec fn digit_value(c: char) -> Option<int> {
    if '0' <= c && c <= '9' {
        Some(c as int - '0' as int)
    } else if 'A' <= c && c <= 'F' {
        Some(c as int - 'A' as int + 10)
    } else {
        None
    }
}

/// The character of a digit below sixteen.
pub open spec fn digit_char(d: int) -> char {
    if d < 10 {
        ('0' as int + d) as char
    } else {
        ('A' as int + d - 10) as char
    }
}

/// Whether `c` is a digit of the given base.
pub open spec fn is_digit_in(c: char, base: int) -> bool {
    digit_value(c) matches Some(d) && d < base
}

/// Whether every character of `digits` is a digit of the given base.
pub open spec fn all_digits(digits: Seq<char>, base: int) -> bool {
    forall|i: int| 0 <= i < digits.len() ==> is_digit_in(#[trigger] digits[i], base)
}

/// The number that a digit string denotes by positional weighting, the last
/// digit weighing one. The empty string denotes zero.
pub open spec fn weight(digits: Seq<char>, base: int) -> int
    decreases digits.len(),
{
    if digits.len() == 0 {
        0
    } else {
        weight(digits.drop_last(), base) * base + digit_value(digits.last()).unwrap()
    }
}

/// Whether a literal carries the minus sign.
pub open spec fn is_negative(literal: Seq<char>) -> bool {
    literal.len() > 0 && literal[0] == '-'
}

/// The literal without its sign.
pub open spec fn unsigned_part(literal: Seq<char>) -> Seq<char> {
    if is_negative(literal) {
        literal.drop_first()
    } else {
        literal
    }
}

/// The base that the start of an unsigned literal announces.
pub open spec fn radix_of(body: Seq<char>) -> int {
    if body.len() >= 2 && body[0] == '0' && body[1] == 'b' {
        2
    } else if body.len() >= 2 && body[0] == '0' && body[1] == 'o' {
        8
    } else if body.len() >= 2 && body[0] == '0' && body[1] == 'x' {
        16
    } else {
        10
    }
}

/// The digits of an unsigned literal: what follows the base prefix, if any.
pub open spec fn digits_part(body: Seq<char>) -> Seq<char> {
    if radix_of(body) == 10 {
        body
    } else {
        body.skip(2)
    }
}

/// The integer that a literal denotes, or `None` if a character behind the
/// sign and the prefix is not a digit of the base.
pub open spec fn parse_int(literal: Seq<char>) -> Option<i64> {
    let body = unsigned_part(literal);
    let base = radix_of(body);
    let digits = digits_part(body);
    if all_digits(digits, base) {
        if is_negative(literal) {
            Some(wrap_i64(-weight(digits, base)))
        } else {
            Some(wrap_i64(weight(digits, base)))
        }
    } else {
        None
    }
}

/// The digits of a natural number in the given base, most significant first.
pub open spec fn digits_of(n: nat, base: int) -> Seq<char>
    decreases n,
{
    if base < 2 || n < base {
        seq![digit_char(n as int)]
    } else {
        proof {
            lemma_div_decreases(n as int, base);
        }
        digits_of(n / (base as nat), base).push(digit_char((n % (base as nat)) as int))
    }
}

/// The base prefix of a literal.
pub open spec fn prefix_of(base: int) -> Seq<char> {
    if base == 2 {
        seq!['0', 'b']
    } else if base == 8 {
        seq!['0', 'o']
    } else if base == 16 {
        seq!['0', 'x']
    } else {
        Seq::empty()
    }
}

/// The sign of a literal.
pub open spec fn sign_of(v: int) -> Seq<char> {
    if v < 0 {
        seq!['-']
    } else {
        Seq::empty()
    }
}

/// The literal that denotes `v` in the given base: sign, prefix, digits.
pub open spec fn numeral(v: int, base: int) -> Seq<char> {
    sign_of(v) + prefix_of(base) + digits_of(
        (if v < 0 {
            -v
        } else {
            v
        }) as nat,
        base,
    )
}

/// The bases in which literals are written.
#[derive(Clone, Copy, Debug, PartialEq, Eq, Structural)]
pub enum Radix {
    Binary,
    Octal,
    Decimal,
    Hexadecimal,
}

impl Radix {
    /// The number of digits of the base.
    pub open spec fn base(self) -> int {
        match self {
            Radix::Binary => 2,
            Radix::Octal => 8,
            Radix::Decimal => 10,
            Radix::Hexadecimal => 16,
        }
    }

    /// The number of digits of the base.
    fn size(self) -> (r: u64)
        ensures
            r == self.base(),
    {
        match self {
            Radix::Binary => 2,
            Radix::Octal => 8,
            Radix::Decimal => 10,
            Radix::Hexadecimal => 16,
        }
    }
}

/// A value within 64 bits is its own reduction.
pub proof fn lemma_wrap_in_range(v: int)
    requires
        i64::MIN <= v <= i64::MAX,
    ensures
        wrap_i64(v) == v,
{
    if v >= 0 {
        assert(v % word() == v);
    } else {
        assert((v + word()) % word() == v + word());
        assert(v % word() == v + word()) by {
            lemma_add_mod_noop(v, word(), word());
        }
    }
}

/// Reduction forgets nothing but multiples of the word size.
proof fn lemma_wrap_congruent(v: int)
    ensures
        (wrap_i64(v) as int) % word() == v % word(),
{
    let low = v % word();
    if low > i64::MAX {
        assert((low - word()) % word() == low) by {
            lemma_sub_mod_noop(low, word(), word());
        }
    } else {
        assert(low % word() == low);
    }
}

/// One step of positional weighting commutes with reduction.
proof fn lemma_wrap_step(acc: int, base: int, digit: int)
    ensures
        wrap_i64(wrap_i64(acc) * base + digit) == wrap_i64(acc * base + digit),
{
    let a = wrap_i64(acc) as int;
    lemma_wrap_congruent(acc);
    assert((a * base) % word() == (acc * base) % word()) by {
        lemma_mul_mod_noop_left(a, base, word());
        lemma_mul_mod_noop_left(acc, base, word());
    }
    assert((a * base + digit) % word() == (acc * base + digit) % word()) by {
        lemma_add_mod_noop(a * base, digit, word());
        lemma_add_mod_noop(acc * base, digit, word());
    }
}

/// Negation commutes with reduction.
proof fn lemma_wrap_negate(v: int)
    ensures
        wrap_i64(-(wrap_i64(v) as int)) == wrap_i64(-v),
{
    let a = wrap_i64(v) as int;
    lemma_wrap_congruent(v);
    assert((0 - a) % word() == (0 - v) % word()) by {
        lemma_sub_mod_noop(0, a, word());
        lemma_sub_mod_noop(0, v, word());
    }
}

/// Weighting a digit string extended by one digit.
proof fn lemma_weight_push(digits: Seq<char>, c: char, base: int)
    ensures
        weight(digits.push(c), base) == weight(digits, base) * base + digit_value(c).unwrap(),
{
    assert(digits.push(c).drop_last() =~= digits);
}

/// A digit character denotes its digit.
proof fn lemma_digit_char(d: int)
    requires
        0 <= d < 16,
    ensures
        digit_value(digit_char(d)) == Some(d),
        d < 10 ==> '0' <= digit_char(d) <= '9',
        digit_char(d) != '-',
{
}

/// The digits of a number are digits of the base and weigh the number.
proof fn lemma_digits_of(n: nat, base: int)
    requires
        2 <= base <= 16,
    ensures
        digits_of(n, base).len() >= 1,
        all_digits(digits_of(n, base), base),
        weight(digits_of(n, base), base) == n,
    decreases n,
{
    let b = base as nat;
    if n < base {
        lemma_digit_char(n as int);
        let s = seq![digit_char(n as int)];
        assert(s.drop_last() =~= Seq::<char>::empty());
        assert(weight(s.drop_last(), base) == 0);
    } else {
        let head = digits_of(n / b, base);
        let last = digit_char((n % b) as int);
        lemma_digits_of(n / b, base);
        lemma_digit_char((n % b) as int);
        lemma_weight_push(head, last, base);
        assert(n == base * (n / b) + (n % b)) by {
            lemma_fundamental_div_mod(n as int, base);
        }
        assert((n / b) * base == base * (n / b)) by (nonlinear_arith);
        assert forall|i: int| 0 <= i < head.push(last).len() implies is_digit_in(
            #[trigger] head.push(last)[i],
            base,
        ) by {
            if i < head.len() {
                assert(head.push(last)[i] == head[i]);
            }
        }
    }
}

/// A prefix and digits of its base are taken apart again as they were put
/// together.
proof fn lemma_body_parts(digits: Seq<char>, radix: Radix)
    requires
        digits.len() >= 1,
        all_digits(digits, radix.base()),
    ensures
        !is_negative(prefix_of(radix.base()) + digits),
        radix_of(prefix_of(radix.base()) + digits) == radix.base(),
        digits_part(prefix_of(radix.base()) + digits) == digits,
{
    let base = radix.base();
    let body = prefix_of(base) + digits;
    assert(is_digit_in(digits[0], base));
    match radix {
        Radix::Decimal => {
            assert(body =~= digits);
            if body.len() >= 2 {
                assert(is_digit_in(digits[1], base));
            }
        },
        _ => {
            assert(body[0] == '0');
            assert(body.skip(2) =~= digits);
        },
    }
}

/// Reading a literal that was written in base two, eight, ten or sixteen
/// gives back the integer it was written for.
pub proof fn lemma_parse_numeral(v: i64, radix: Radix)
    ensures
        parse_int(numeral(v as int, radix.base())) == Some(v),
{
    let base = radix.base();
    let magnitude = (if v < 0 {
        -v
    } else {
        v as int
    }) as nat;
    let digits = digits_of(magnitude, base);
    let literal = numeral(v as int, base);
    let body = prefix_of(base) + digits;
    lemma_digits_of(magnitude, base);
    lemma_body_parts(digits, radix);
    lemma_wrap_in_range(v as int);
    if v < 0 {
        assert(literal =~= seq!['-'] + body);
        assert(literal[0] == '-');
        assert(literal.drop_first() =~= body);
    } else {
        assert(literal =~= body);
    }
    assert(unsigned_part(literal) == body);
}

/// The integer converter.
pub struct Stoi {}

impl Stoi {
    /// The value of a digit character.
    fn digit(c: char) -> (r: Option<i64>)
        ensures
            r.is_some() == digit_value(c).is_some(),
            r matches Some(d) ==> digit_value(c) == Some(d as int) && 0 <= d < 16,
    {
        if c >= '0' && c <= '9' {
            Some((c as u32 - '0' as u32) as i64)
        } else if c >= 'A' && c <= 'F' {
            Some((c as u32 - 'A' as u32 + 10) as i64)
        } else {
            None
        }
    }

    /// The character of a digit.
    fn glyph(d: u64) -> (r: char)
        requires
            d < 16,
        ensures
            r == digit_char(d as int),
    {
        // 48 is the code of `0`, 65 that of `A`.
        if d < 10 {
            (48u8 + d as u8) as char
        } else {
            (65u8 + (d - 10) as u8) as char
        }
    }

    /// Weighs the digits `chars[from..]` in the given base.
    fn stoi(chars: &Vec<char>, from: usize, base: i64) -> (r: i64)
        requires
            from <= chars.len(),
            2 <= base <= 16,
            all_digits(chars@.skip(from as int), base as int),
        ensures
            r == wrap_i64(weight(chars@.skip(from as int), base as int)),
    {
        let ghost digits = chars@.skip(from as int);
        let mut acc: i64 = 0;
        let mut i: usize = from;
        proof {
            lemma_wrap_in_range(0);
        }
        while i < chars.len()
            invariant
                from <= i <= chars.len(),
                2 <= base <= 16,
                digits == chars@.skip(from as int),
                all_digits(digits, base as int),
                acc == wrap_i64(weight(digits.take(i - from), base as int)),
            decreases chars.len() - i,
        {
            let c: char = chars[i];
            assert(c == digits[i - from]);
            assert(is_digit_in(digits[i - from], base as int));
            let d: i64 = Self::digit(c).unwrap();
            proof {
                let seen = digits.take(i - from);
                assert(digits.take(i - from + 1) =~= seen.push(c));
                lemma_weight_push(seen, c, base as int);
                lemma_wrap_step(weight(seen, base as int), base as int, d as int);
                assert(acc.wrapping_mul(base) == wrap_i64(acc * base));
                lemma_wrap_congruent(acc * base);
                assert(acc.wrapping_mul(base).wrapping_add(d) == wrap_i64(
                    acc.wrapping_mul(base) + d,
                ));
                assert(wrap_i64(acc.wrapping_mul(base) + d) == wrap_i64(acc * base + d)) by {
                    lemma_add_mod_noop(acc.wrapping_mul(base) as int, d as int, word());
                    lemma_add_mod_noop(acc * base, d as int, word());
                }
            }
            acc = acc.wrapping_mul(base).wrapping_add(d);
            i += 1;
        }
        assert(digits.take(i - from) =~= digits);
        acc
    }

    /// Reads an integer literal. The result is `None` exactly when a character
    /// behind the sign and the base prefix is not a digit of the base;
    /// otherwise it is the weighted value with its sign, reduced to 64 bits.
    pub fn to_int(str: &String) -> (r: Option<i64>)
        ensures
            r == parse_int(str@),
    {
        let chars = chars_of(str.as_str());
        let n: usize = chars.len();
        let negative: bool = n > 0 && chars[0] == '-';
        let start: usize = if negative {
            1
        } else {
            0
        };
        let ghost body = unsigned_part(str@);
        assert(body =~= chars@.skip(start as int));
        let mut base: i64 = 10;
        let mut from: usize = start;
        if n - start >= 2 && chars[start] == '0' {
            let mark: char = chars[start + 1];
            if mark == 'b' {
                base = 2;
                from = start + 2;
            } else if mark == 'o' {
                base = 8;
                from = start + 2;
            } else if mark == 'x' {
                base = 16;
                from = start + 2;
            }
        }
        assert(base == radix_of(body));
        let ghost digits = digits_part(body);
        assert(digits =~= chars@.skip(from as int));
        let mut i: usize = from;
        while i < n
            invariant
                from <= i <= n,
                n == chars.len(),
                2 <= base <= 16,
                base == radix_of(unsigned_part(str@)),
                digits == digits_part(unsigned_part(str@)),
                digits == chars@.skip(from as int),
                forall|j: int| 0 <= j < i - from ==> is_digit_in(#[trigger] digits[j], base as int),
            decreases n - i,
        {
            match Self::digit(chars[i]) {
                Some(d) => {
                    if d >= base {
                        assert(!is_digit_in(digits[i - from], base as int));
                        return None;
                    }
                },
                None => {
                    assert(!is_digit_in(digits[i - from], base as int));
                    return None;
                },
            }
            i += 1;
        }
        let magnitude: i64 = Self::stoi(&chars, from, base);
        if negative {
            proof {
                lemma_wrap_negate(weight(digits, base as int));
                assert(0i64.wrapping_sub(magnitude) == wrap_i64(0 - magnitude));
            }
            Some(0i64.wrapping_sub(magnitude))
        } else {
            Some(magnitude)
        }
    }

    /// Writes `value` as a literal of the given base, so that reading it back
    /// with [`Stoi::to_int`] gives `value` again.
    pub fn to_text(value: i64, radix: Radix) -> (r: String)
        ensures
            r@ == numeral(value as int, radix.base()),
            parse_int(r@) == Some(value),
    {
        proof {
            lemma_parse_numeral(value, radix);
        }
        if value < 0 {
            // The magnitude of the least value does not fit the signed type.
            let magnitude: u64 = (-(value + 1)) as u64 + 1;
            write_numeral(true, magnitude, radix)
        } else {
            write_numeral(false, value as u64, radix)
        }
    }
}

/// Writes the literal of the number with the given sign and magnitude.
pub(crate) fn write_numeral(negative: bool, magnitude: u64, radix: Radix) -> (r: String)
    requires
        negative ==> magnitude > 0,
    ensures
        r@ == numeral(
            if negative {
                -(magnitude as int)
            } else {
                magnitude as int
            },
            radix.base(),
        ),
{
    let base: u64 = radix.size();
    let mut reversed: Vec<char> = Vec::new();
    let mut rest: u64 = magnitude;
    while rest >= base
        invariant
            base == radix.base(),
            digits_of(magnitude as nat, base as int) == digits_of(rest as nat, base as int)
                + reversed@.reverse(),
        decreases rest,
    {
        let ghost before = reversed@;
        reversed.push(Stoi::glyph(rest % base));
        proof {
            let last = digit_char((rest % base) as int);
            assert(reversed@.reverse() =~= seq![last] + before.reverse());
            assert(digits_of(rest as nat, base as int) == digits_of(
                (rest / base) as nat,
                base as int,
            ).push(last));
            assert(digits_of((rest / base) as nat, base as int).push(last) + before.reverse()
                =~= digits_of((rest / base) as nat, base as int) + reversed@.reverse());
        }
        rest = rest / base;
    }
    let ghost before = reversed@;
    reversed.push(Stoi::glyph(rest));
    assert(reversed@.reverse() =~= seq![digit_char(rest as int)] + before.reverse());
    assert(digits_of(magnitude as nat, base as int) =~= reversed@.reverse());

    let mut out = String::new();
    if negative {
        push_char(&mut out, '-');
    }
    match radix {
        Radix::Binary => {
            push_char(&mut out, '0');
            push_char(&mut out, 'b');
        },
        Radix::Octal => {
            push_char(&mut out, '0');
            push_char(&mut out, 'o');
        },
        Radix::Hexadecimal => {
            push_char(&mut out, '0');
            push_char(&mut out, 'x');
        },
        Radix::Decimal => {},
    }
    let ghost head = out@;
    assert(head =~= sign_of(
        if negative {
            -(magnitude as int)
        } else {
            magnitude as int
        },
    ) + prefix_of(base as int));
    let mut k: usize = reversed.len();
    while k > 0
        invariant
            k <= reversed.len(),
            out@ == head + reversed@.reverse().take(reversed.len() - k),
        decreases k,
    {
        k -= 1;
        push_char(&mut out, reversed[k]);
        assert(reversed@.reverse().take(reversed.len() - k) =~= reversed@.reverse().take(
            reversed.len() - k - 1,
        ).push(reversed@[k as int]));
    }
    assert(reversed@.reverse().take(reversed.len() as int) =~= reversed@.reverse());
    out
}

} // verus!
