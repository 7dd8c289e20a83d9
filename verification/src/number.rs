//! Integers as text: the decimal forms that keys, counters and SQL texts use,
//! and the reading of integers out of user input.

use vstd::prelude::*;
use crate::text;

verus! {

// ---------------------------------------------------------------- writing

/// The character of one decimal digit.
pub open spec fn digit(d: int) -> char {
    ((d + 48) as u8) as char
}

/// The decimal digits of a natural number.
pub open spec fn decimal(n: nat) -> Seq<char>
    decreases n,
{
    if n < 10 {
        seq![digit(n as int)]
    } else {
        decimal(n / 10).push(digit((n % 10) as int))
    }
}

/// The decimal form of an integer, with a minus sign when it is negative.
pub open spec fn signed_decimal(n: int) -> Seq<char> {
    if n < 0 {
        seq!['-'] + decimal((-n) as nat)
    } else {
        decimal(n as nat)
    }
}

/// The decimal form of an integer that always carries its sign (`{:+}`).
pub open spec fn explicit_decimal(n: int) -> Seq<char> {
    if n < 0 {
        seq!['-'] + decimal((-n) as nat)
    } else {
        seq!['+'] + decimal(n as nat)
    }
}

/// Zeros up to a width, then the digits (`{:0width}`).
pub open spec fn padded(n: nat, width: nat) -> Seq<char> {
    let digits = decimal(n);
    if digits.len() >= width {
        digits
    } else {
        Seq::new((width - digits.len()) as nat, |i: int| '0') + digits
    }
}

fn digit_char(d: u64) -> (c: char)
    requires
        d < 10,
    ensures
        c == digit(d as int),
{
    (d as u8 + 48) as char
}

/// Append the decimal digits of `n`.
pub fn push_decimal(out: &mut String, n: u64)
    ensures
        final(out)@ == old(out)@ + decimal(n as nat),
    decreases n,
{
    if n >= 10 {
        push_decimal(out, n / 10);
        let ghost head = out@;
        out.push(digit_char(n % 10));
        assert(out@ =~= old(out)@ + decimal(n as nat));
    } else {
        out.push(digit_char(n));
        assert(out@ =~= old(out)@ + decimal(n as nat));
    }
}

/// The distance of an integer from zero.
fn magnitude(n: i64) -> (m: u64)
    ensures
        m == (if n < 0 { -n } else { n as int }),
{
    if n < 0 {
        (-(n + 1)) as u64 + 1
    } else {
        n as u64
    }
}

/// Append the decimal form of an integer.
pub fn push_signed(out: &mut String, n: i64)
    ensures
        final(out)@ == old(out)@ + signed_decimal(n as int),
{
    if n < 0 {
        out.push('-');
        let ghost head = out@;
        push_decimal(out, magnitude(n));
        assert(out@ =~= old(out)@ + signed_decimal(n as int));
    } else {
        push_decimal(out, magnitude(n));
    }
}

/// Append the decimal form of an integer, with its sign.
pub fn push_explicit(out: &mut String, n: i64)
    ensures
        final(out)@ == old(out)@ + explicit_decimal(n as int),
{
    if n < 0 {
        out.push('-');
    } else {
        out.push('+');
    }
    push_decimal(out, magnitude(n));
    assert(out@ =~= old(out)@ + explicit_decimal(n as int));
}

/// The number of decimal digits.
proof fn lemma_decimal_len_two(n: nat)
    ensures
        n < 10 ==> decimal(n).len() == 1,
        10 <= n ==> decimal(n).len() >= 2,
        decimal(n).len() >= 1,
    decreases n,
{
    if n >= 10 {
        lemma_decimal_len_two(n / 10);
    }
}

/// Append a number with at least two digits (`{:02}`).
pub fn push_two(out: &mut String, n: u64)
    ensures
        final(out)@ == old(out)@ + padded(n as nat, 2),
{
    proof {
        lemma_decimal_len_two(n as nat);
    }
    if n < 10 {
        out.push('0');
    }
    push_decimal(out, n);
    assert(out@ =~= old(out)@ + padded(n as nat, 2));
}

/// `n.to_string()`.
pub fn text_of(n: u64) -> (out: String)
    ensures
        out@ == decimal(n as nat),
{
    let mut out = String::new();
    push_decimal(&mut out, n);
    assert(out@ =~= decimal(n as nat));
    out
}

/// `n.to_string()` for a signed integer.
pub fn signed_text(n: i64) -> (out: String)
    ensures
        out@ == signed_decimal(n as int),
{
    let mut out = String::new();
    push_signed(&mut out, n);
    assert(out@ =~= signed_decimal(n as int));
    out
}

// ---------------------------------------------------------------- reading

/// The value of one decimal digit character.
pub open spec fn digit_value(c: char) -> int {
    (c as int) - ('0' as int)
}

/// The character is an ASCII digit.
pub open spec fn is_digit(c: char) -> bool {
    '0' <= c && c <= '9'
}

/// The text is a non-empty run of ASCII digits.
pub open spec fn is_digits(text: Seq<char>) -> bool {
    text.len() > 0 && forall|i: int| 0 <= i < text.len() ==> is_digit(#[trigger] text[i])
}

/// The number that a run of digits denotes.
pub open spec fn digits_value(text: Seq<char>) -> int
    decreases text.len(),
{
    if text.len() == 0 {
        0
    } else {
        digits_value(text.drop_last()) * 10 + digit_value(text.last())
    }
}

/// What `text.parse()` yields for an unsigned integer type whose largest value
/// is `max`: digits, after an optional plus sign.
pub open spec fn unsigned_value(text: Seq<char>, max: int) -> Option<int> {
    let body = if text.len() > 0 && text[0] == '+' {
        text.skip(1)
    } else {
        text
    };
    if is_digits(body) && digits_value(body) <= max {
        Some(digits_value(body))
    } else {
        None
    }
}

/// What `text.parse()` yields for a signed integer type with the bounds `min`
/// and `max`: digits, after an optional sign.
pub open spec fn signed_value(text: Seq<char>, min: int, max: int) -> Option<int> {
    let negative = text.len() > 0 && text[0] == '-';
    let body = if text.len() > 0 && (text[0] == '+' || text[0] == '-') {
        text.skip(1)
    } else {
        text
    };
    let value = if negative {
        -digits_value(body)
    } else {
        digits_value(body)
    };
    if is_digits(body) && min <= value <= max {
        Some(value)
    } else {
        None
    }
}

/// A longer run of digits denotes no smaller number.
proof fn lemma_digits_value_grows(text: Seq<char>, upto: int)
    requires
        0 <= upto <= text.len(),
        forall|i: int| 0 <= i < text.len() ==> is_digit(#[trigger] text[i]),
    ensures
        0 <= digits_value(text.take(upto)) <= digits_value(text),
    decreases text.len(),
{
    if upto == text.len() {
        assert(text.take(upto) =~= text);
        if text.len() > 0 {
            lemma_digits_value_grows(text.drop_last(), text.len() - 1);
            assert(text.drop_last().take(text.len() - 1) =~= text.drop_last());
        }
    } else {
        lemma_digits_value_grows(text.drop_last(), upto);
        assert(text.drop_last().take(upto) =~= text.take(upto));
    }
}

/// Read the digits `chars[from..]` as a number of at most `max`.
fn digits_from(chars: &Vec<char>, from: usize, max: u64) -> (value: Option<u64>)
    requires
        from <= chars.len(),
    ensures
        ({
            let body = chars@.skip(from as int);
            match value {
                Some(v) => is_digits(body) && digits_value(body) == v && v <= max,
                None => !is_digits(body) || digits_value(body) > max,
            }
        }),
{
    let ghost body = chars@.skip(from as int);
    if from == chars.len() {
        return None;
    }
    let mut value: u64 = 0;
    let mut i: usize = from;
    assert(body.take(0) =~= Seq::<char>::empty());
    while i < chars.len()
        invariant
            body == chars@.skip(from as int),
            from <= i <= chars.len(),
            value <= max,
            value == digits_value(body.take(i - from)),
            forall|k: int| 0 <= k < i - from ==> is_digit(#[trigger] body[k]),
        decreases chars.len() - i,
    {
        let c: char = chars[i];
        assert(body[i - from] == c);
        if !('0' <= c && c <= '9') {
            return None;
        }
        let d: u64 = c as u64 - '0' as u64;
        proof {
            assert(body.take(i - from + 1).drop_last() =~= body.take(i - from));
            assert(body.take(i - from + 1).last() == c);
            assert(digits_value(body.take(i - from + 1)) == value * 10 + d);
        }
        if value > max / 10 || d > max - value * 10 {
            proof {
                if is_digits(body) {
                    lemma_digits_value_grows(body, i - from + 1);
                }
            }
            return None;
        }
        value = value * 10 + d;
        i = i + 1;
    }
    assert(body.take(body.len() as int) =~= body);
    Some(value)
}

/// `text.parse()` for an unsigned integer type whose largest value is `max`.
pub fn parse_unsigned(text: &str, max: u64) -> (value: Option<u64>)
    ensures
        match value {
            Some(v) => unsigned_value(text@, max as int) == Some(v as int),
            None => unsigned_value(text@, max as int) is None,
        },
{
    let chars = text::chars_of(text);
    assert(chars@.skip(0) =~= chars@);
    if chars.len() > 0 && chars[0] == '+' {
        digits_from(&chars, 1, max)
    } else {
        digits_from(&chars, 0, max)
    }
}

/// `text.parse()` for a signed integer type with the bounds `min` and `max`.
pub fn parse_signed(text: &str, min: i64, max: i64) -> (value: Option<i64>)
    requires
        min <= 0 <= max,
    ensures
        match value {
            Some(v) => signed_value(text@, min as int, max as int) == Some(v as int),
            None => signed_value(text@, min as int, max as int) is None,
        },
{
    let chars = text::chars_of(text);
    assert(chars@.skip(0) =~= chars@);
    if chars.len() > 0 && chars[0] == '-' {
        match digits_from(&chars, 1, magnitude(min)) {
            Some(m) => {
                if m == 0 {
                    Some(0)
                } else {
                    Some(-((m - 1) as i64) - 1)
                }
            },
            None => None,
        }
    } else {
        let from: usize = if chars.len() > 0 && chars[0] == '+' {
            1
        } else {
            0
        };
        match digits_from(&chars, from, max as u64) {
            Some(m) => Some(m as i64),
            None => None,
        }
    }
}

// ---------------------------------------------------------------- round trips

/// The digits of a number denote that number.
pub proof fn lemma_decimal_reads_back(n: nat)
    ensures
        is_digits(decimal(n)),
        digits_value(decimal(n)) == n,
    decreases n,
{
    let text = decimal(n);
    if n < 10 {
        assert(text.drop_last() =~= Seq::empty());
        assert(digits_value(text.drop_last()) == 0);
        assert(text.last() == digit(n as int));
    } else {
        lemma_decimal_reads_back(n / 10);
        assert(text.drop_last() =~= decimal(n / 10));
        assert(text.last() == digit((n % 10) as int));
        assert forall|i: int| 0 <= i < text.len() implies is_digit(#[trigger] text[i]) by {
            if i < text.len() - 1 {
                assert(text[i] == decimal(n / 10)[i]);
            }
        }
    }
}

/// Leading zeros do not change what a run of digits denotes.
proof fn lemma_leading_zeros(zeros: nat, text: Seq<char>)
    ensures
        digits_value(Seq::new(zeros, |i: int| '0') + text) == digits_value(text),
    decreases zeros, text.len(),
{
    let padding = Seq::new(zeros, |i: int| '0');
    let whole = padding + text;
    if text.len() > 0 {
        lemma_leading_zeros(zeros, text.drop_last());
        assert(whole.drop_last() =~= padding + text.drop_last());
        assert(whole.last() == text.last());
    } else if zeros > 0 {
        let fewer = Seq::new((zeros - 1) as nat, |i: int| '0');
        lemma_leading_zeros((zeros - 1) as nat, text);
        assert(whole.drop_last() =~= fewer + text);
        assert(whole.last() == '0');
    } else {
        assert(whole =~= text);
    }
}

/// The padded digits of a number denote that number.
pub proof fn lemma_padded_reads_back(n: nat, width: nat)
    ensures
        is_digits(padded(n, width)),
        digits_value(padded(n, width)) == n,
{
    lemma_decimal_reads_back(n);
    let digits = decimal(n);
    if digits.len() < width {
        lemma_leading_zeros((width - digits.len()) as nat, digits);
        assert forall|i: int| 0 <= i < padded(n, width).len() implies is_digit(
            #[trigger] padded(n, width)[i],
        ) by {
            let zeros = width - digits.len();
            if i >= zeros {
                assert(padded(n, width)[i] == digits[i - zeros]);
            }
        }
    }
}

/// A number written in decimal, with or without padding, is read back as that
/// number.
pub proof fn law_numbers_read_back(n: nat, width: nat, max: int)
    requires
        n <= max,
    ensures
        unsigned_value(decimal(n), max) == Some(n as int),
        unsigned_value(padded(n, width), max) == Some(n as int),
{
    lemma_decimal_reads_back(n);
    lemma_padded_reads_back(n, width);
    assert(is_digit(decimal(n)[0]));
    assert(is_digit(padded(n, width)[0]));
}

/// An integer written with its sign is read back as that integer.
pub proof fn law_integers_read_back(n: int, min: int, max: int)
    requires
        min <= n <= max,
    ensures
        signed_value(signed_decimal(n), min, max) == Some(n),
{
    if n < 0 {
        lemma_decimal_reads_back((-n) as nat);
        assert(signed_decimal(n).skip(1) =~= decimal((-n) as nat));
    } else {
        lemma_decimal_reads_back(n as nat);
        assert(is_digit(decimal(n as nat)[0]));
    }
}

} // verus!
