//! Numbers in decimal: reading the fields of a header, writing the numbers
//! of a reply.

use crate::text::to_chars;
use vstd::prelude::*;
use vstd::string::*;

verus! {

/// The ten decimal digits.
pub open spec fn is_digit(c: char) -> bool {
    '0' <= c <= '9'
}

/// The number that the digit `c` stands for.
pub open spec fn digit_value(c: char) -> nat {
    (c as u32 - 0x30) as nat
}

/// The digit that stands for `d`, a number below ten.
pub open spec fn digit_char(d: nat) -> char {
    (0x30 + d) as char
}

pub open spec fn all_digits(s: Seq<char>) -> bool {
    forall|i: int| 0 <= i < s.len() ==> is_digit(#[trigger] s[i])
}

/// The number that the digits `s` denote in base ten; 0 for no digits.
pub open spec fn digits_value(s: Seq<char>) -> nat
    decreases s.len(),
{
    if s.len() == 0 {
        0
    } else {
        digits_value(s.drop_last()) * 10 + digit_value(s.last())
    }
}

/// The number that `s` denotes, where `s` is one digit or more and the number
/// is at most `max`.
pub open spec fn magnitude(s: Seq<char>, max: nat) -> Option<nat> {
    if s.len() > 0 && all_digits(s) && digits_value(s) <= max {
        Some(digits_value(s))
    } else {
        None
    }
}

/// The number that an unsigned field denotes: digits, with `+` allowed in
/// front of them, and a value of at most `max`.
pub open spec fn unsigned_value(s: Seq<char>, max: nat) -> Option<nat> {
    if s.len() > 0 && s[0] == '+' {
        magnitude(s.skip(1), max)
    } else {
        magnitude(s, max)
    }
}

/// The number that a signed field denotes: digits, with `+` or `-` allowed in
/// front of them, and a value from `min` to `max`.
pub open spec fn signed_value(s: Seq<char>, min: int, max: int) -> Option<int>
    recommends
        min <= 0 <= max,
{
    if s.len() > 0 && s[0] == '-' {
        match magnitude(s.skip(1), (-min) as nat) {
            Some(n) => Some(-(n as int)),
            None => None,
        }
    } else {
        match unsigned_value(s, max as nat) {
            Some(n) => Some(n as int),
            None => None,
        }
    }
}

/// The decimal digits of `n`, without leading zeros.
pub open spec fn decimal_text(n: nat) -> Seq<char>
    decreases n,
{
    if n < 10 {
        seq![digit_char(n)]
    } else {
        decimal_text(n / 10).push(digit_char(n % 10))
    }
}

/// More digits never denote less.
pub proof fn lemma_digits_value_grows(s: Seq<char>, k: int)
    requires
        0 <= k <= s.len(),
    ensures
        digits_value(s.take(k)) <= digits_value(s),
    decreases s.len(),
{
    if k == s.len() {
        assert(s.take(k) == s);
    } else {
        assert(s.drop_last().take(k) == s.take(k));
        lemma_digits_value_grows(s.drop_last(), k);
    }
}

/// What is written in decimal reads back as the same number.
pub proof fn lemma_decimal_text_reads_back(n: nat)
    ensures
        decimal_text(n).len() > 0,
        all_digits(decimal_text(n)),
        digits_value(decimal_text(n)) == n,
    decreases n,
{
    if n < 10 {
        let text = decimal_text(n);
        assert(text.drop_last() =~= Seq::<char>::empty());
        assert(digits_value(text.drop_last()) == 0);
    } else {
        lemma_decimal_text_reads_back(n / 10);
        let front = decimal_text(n / 10);
        let text = decimal_text(n);
        assert(text.drop_last() =~= front);
        assert(text.last() == digit_char(n % 10));
        assert forall|i: int| 0 <= i < text.len() implies is_digit(#[trigger] text[i]) by {
            if i < front.len() {
                assert(text[i] == front[i]);
            }
        }
    }
}

/// Reads the digits of `text` from position `from` on, up to the number `limit`.
pub fn parse_magnitude(text: &[char], from: usize, limit: u128) -> (value: Option<u128>)
    requires
        from <= text@.len(),
    ensures
        value == match magnitude(text@.skip(from as int), limit as nat) {
            Some(n) => Some(n as u128),
            None => None,
        },
{
    let ghost body = text@.skip(from as int);
    if from == text.len() {
        return None;
    }
    let mut acc: u128 = 0;
    let mut i: usize = from;
    while i < text.len()
        invariant
            from <= i <= text@.len(),
            body == text@.skip(from as int),
            acc == digits_value(body.take(i - from)),
            acc <= limit,
            all_digits(body.take(i - from)),
        decreases text@.len() - i,
    {
        let c = text[i];
        let ghost next = body.take(i - from + 1);
        proof {
            assert(next.drop_last() == body.take(i - from));
            assert(next.last() == c);
            lemma_digits_value_grows(body, i - from + 1);
        }
        if c < '0' || c > '9' {
            assert(!is_digit(body[i - from]));
            return None;
        }
        let d: u128 = (c as u32 - 0x30) as u128;
        if acc > limit / 10 {
            return None;
        }
        let tens: u128 = acc * 10;
        if d > limit - tens {
            return None;
        }
        acc = tens + d;
        i += 1;
    }
    assert(body.take(i - from) == body);
    Some(acc)
}

/// A number that one field of a header line holds in decimal.
pub trait Decimal: Sized {
    /// The number that `text` denotes, where it denotes one of this type.
    spec fn denoted(text: Seq<char>) -> Option<Self>;

    /// Reads `text` as a number of this type.
    fn parse(text: &str) -> (value: Option<Self>)
        ensures
            value == Self::denoted(text@),
    ;
}

/// Reads an unsigned field whose value is at most `limit`.
pub fn parse_unsigned(text: &str, limit: u128) -> (value: Option<u128>)
    ensures
        value == match unsigned_value(text@, limit as nat) {
            Some(n) => Some(n as u128),
            None => None,
        },
{
    let chars = to_chars(text);
    if chars.len() > 0 && chars[0] == '+' {
        parse_magnitude(chars.as_slice(), 1, limit)
    } else {
        assert(chars@.skip(0) == chars@);
        parse_magnitude(chars.as_slice(), 0, limit)
    }
}

impl Decimal for u16 {
    open spec fn denoted(text: Seq<char>) -> Option<u16> {
        match unsigned_value(text, u16::MAX as nat) {
            Some(n) => Some(n as u16),
            None => None,
        }
    }

    fn parse(text: &str) -> (value: Option<u16>) {
        match parse_unsigned(text, u16::MAX as u128) {
            Some(n) => Some(n as u16),
            None => None,
        }
    }
}

impl Decimal for usize {
    open spec fn denoted(text: Seq<char>) -> Option<usize> {
        match unsigned_value(text, usize::MAX as nat) {
            Some(n) => Some(n as usize),
            None => None,
        }
    }

    fn parse(text: &str) -> (value: Option<usize>) {
        match parse_unsigned(text, usize::MAX as u128) {
            Some(n) => Some(n as usize),
            None => None,
        }
    }
}

impl Decimal for i128 {
    open spec fn denoted(text: Seq<char>) -> Option<i128> {
        match signed_value(text, i128::MIN as int, i128::MAX as int) {
            Some(n) => Some(n as i128),
            None => None,
        }
    }

    fn parse(text: &str) -> (value: Option<i128>) {
        let chars = to_chars(text);
        if chars.len() > 0 && chars[0] == '-' {
            match parse_magnitude(chars.as_slice(), 1, 0x8000_0000_0000_0000_0000_0000_0000_0000) {
                Some(n) => if n == 0x8000_0000_0000_0000_0000_0000_0000_0000 {
                    Some(i128::MIN)
                } else {
                    Some(-(n as i128))
                },
                None => None,
            }
        } else {
            match parse_unsigned(text, i128::MAX as u128) {
                Some(n) => Some(n as i128),
                None => None,
            }
        }
    }
}

/// The digit `d` as text.
fn digit_text(d: u8) -> (text: &'static str)
    requires
        d < 10,
    ensures
        text@ == seq![digit_char(d as nat)],
{
    proof {
        reveal_strlit("0");
        reveal_strlit("1");
        reveal_strlit("2");
        reveal_strlit("3");
        reveal_strlit("4");
        reveal_strlit("5");
        reveal_strlit("6");
        reveal_strlit("7");
        reveal_strlit("8");
        reveal_strlit("9");
    }
    let text = match d {
        0 => "0",
        1 => "1",
        2 => "2",
        3 => "3",
        4 => "4",
        5 => "5",
        6 => "6",
        7 => "7",
        8 => "8",
        _ => "9",
    };
    assert(text@ =~= seq![digit_char(d as nat)]);
    text
}

/// Writes `n` in decimal at the end of `out`.
pub fn append_decimal(out: &mut String, n: usize)
    ensures
        final(out)@ == old(out)@ + decimal_text(n as nat),
{
    // The digits of `n`, the last one first.
    let mut digits: Vec<u8> = Vec::new();
    digits.push((n % 10) as u8);
    let mut rest: usize = n / 10;
    let ghost mut tail: Seq<char> = seq![digit_char((n % 10) as nat)];
    while rest > 0
        invariant
            decimal_text(n as nat) == (if rest > 0 {
                decimal_text(rest as nat)
            } else {
                Seq::empty()
            }) + tail,
            digits.len() == tail.len(),
            digits.len() > 0,
            forall|k: int|
                0 <= k < digits.len() ==> digits[k] < 10 && tail[digits.len() - 1 - k]
                    == digit_char(#[trigger] digits[k] as nat),
        decreases rest,
    {
        let ghost digit = digit_char((rest % 10) as nat);
        proof {
            let front = if rest / 10 > 0 {
                decimal_text((rest / 10) as nat)
            } else {
                Seq::empty()
            };
            assert(decimal_text(rest as nat) == front.push(digit));
            assert(front.push(digit) + tail == front + (seq![digit] + tail));
        }
        digits.push((rest % 10) as u8);
        rest = rest / 10;
        proof {
            tail = seq![digit] + tail;
        }
    }
    let mut k: usize = digits.len();
    while k > 0
        invariant
            k <= digits.len(),
            digits.len() == tail.len(),
            out@ == old(out)@ + tail.take(digits.len() - k),
            forall|j: int|
                0 <= j < digits.len() ==> digits[j] < 10 && tail[digits.len() - 1 - j]
                    == digit_char(#[trigger] digits[j] as nat),
        decreases k,
    {
        k -= 1;
        out.append(digit_text(digits[k]));
        assert(tail.take(digits.len() - k) == tail.take(digits.len() - k - 1).push(
            tail[digits.len() - 1 - k],
        ));
    }
    assert(tail.take(digits.len() as int) == tail);
}

} // verus!
