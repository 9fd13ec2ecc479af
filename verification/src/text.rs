//! Decimal rendering of integers and padding, as `format!` does them.

use vstd::prelude::*;

verus! {

/// The character of a decimal digit.
pub open spec fn digit_char(d: nat) -> char {
    ((48 + d) as u32) as char
}

/// The decimal digits of `n`, most significant first, without leading zeros.
pub open spec fn decimal_digits(n: nat) -> Seq<char>
    decreases n,
{
    if n < 10 {
        seq![digit_char(n)]
    } else {
        decimal_digits(n / 10).push(digit_char(n % 10))
    }
}

/// How `{}` renders an integer: a minus sign for negative values, then the digits.
pub open spec fn decimal(v: int) -> Seq<char> {
    if v < 0 {
        seq!['-'] + decimal_digits((-v) as nat)
    } else {
        decimal_digits(v as nat)
    }
}

/// How `{:F>width}` renders `text`: right aligned, filled with `fill` on the left.
pub open spec fn pad_left(text: Seq<char>, fill: char, width: nat) -> Seq<char> {
    if text.len() >= width {
        text
    } else {
        Seq::new((width - text.len()) as nat, |i: int| fill) + text
    }
}

/// `a` and `b` hold the same text.
pub(crate) fn same_text(a: &str, b: &str) -> (same: bool)
    ensures
        same == (a@ == b@),
{
    a.to_owned().eq(&b.to_owned())
}

/// `String::push`: appends the character `c` to `text`; claimed, as std documents it,
/// that the text afterwards is the old text followed by `c`.
#[verifier::external_body]
pub(crate) fn push_char(text: &mut String, c: char)
    ensures
        final(text)@ == old(text)@.push(c),
{
    text.push(c);
}

/// Appends the decimal digits of `n`.
pub fn append_decimal_u64(text: &mut String, n: u64)
    ensures
        final(text)@ == old(text)@ + decimal_digits(n as nat),
    decreases n,
{
    if n >= 10 {
        append_decimal_u64(text, n / 10);
    }
    let digit = (n % 10) as u8;
    let c = (48 + digit) as char;
    proof {
        assert(decimal_digits(n as nat) == if n < 10 {
            seq![digit_char(n as nat)]
        } else {
            decimal_digits((n / 10) as nat).push(digit_char((n % 10) as nat))
        });
    }
    push_char(text, c);
    assert(final(text)@ =~= old(text)@ + decimal_digits(n as nat));
}

/// Appends how `{}` renders `v`.
pub fn append_decimal_i64(text: &mut String, v: i64)
    ensures
        final(text)@ == old(text)@ + decimal(v as int),
{
    if v < 0 {
        push_char(text, '-');
        let magnitude = ((-(v + 1)) as u64) + 1;
        append_decimal_u64(text, magnitude);
        assert(final(text)@ =~= old(text)@ + decimal(v as int));
    } else {
        append_decimal_u64(text, v as u64);
    }
}

/// How `{}` renders a signed integer.
pub fn decimal_string(v: i64) -> (text: String)
    ensures
        text@ == decimal(v as int),
{
    let mut text = String::new();
    append_decimal_i64(&mut text, v);
    assert(text@ =~= decimal(v as int));
    text
}

/// How `{:F>width}` renders `text`.
pub fn padded_left(text: &str, fill: char, width: usize) -> (padded: String)
    ensures
        padded@ == pad_left(text@, fill, width as nat),
{
    let length = text.unicode_len();
    let mut padded = String::new();
    let mut count: usize = 0;
    let missing: usize = if length < width {
        width - length
    } else {
        0
    };
    while count < missing
        invariant
            count <= missing,
            padded@ == Seq::new(count as nat, |i: int| fill),
        decreases missing - count,
    {
        push_char(&mut padded, fill);
        count = count + 1;
        assert(padded@ =~= Seq::new(count as nat, |i: int| fill));
    }
    padded.append(text);
    assert(padded@ =~= pad_left(text@, fill, width as nat));
    padded
}

/// `b` is an ASCII decimal digit.
pub open spec fn is_digit(b: u8) -> bool {
    48 <= b <= 57
}

/// Every byte is an ASCII decimal digit.
pub open spec fn all_digits(bytes: Seq<u8>) -> bool {
    forall|i: int| 0 <= i < bytes.len() ==> is_digit(#[trigger] bytes[i])
}

/// The number written by the decimal digits `bytes`.
pub open spec fn digits_value(bytes: Seq<u8>) -> nat
    decreases bytes.len(),
{
    if bytes.len() == 0 {
        0
    } else {
        digits_value(bytes.drop_last()) * 10 + (bytes.last() - 48) as nat
    }
}

/// What `str::parse` gives for an unsigned integer type whose largest value is
/// `max`: an optional `+`, then at least one digit, and nothing else.
pub open spec fn parsed_unsigned(bytes: Seq<u8>, max: nat) -> Option<nat> {
    let digits = if bytes.len() > 0 && bytes[0] == 43 {
        bytes.drop_first()
    } else {
        bytes
    };
    if digits.len() > 0 && all_digits(digits) && digits_value(digits) <= max {
        Some(digits_value(digits))
    } else {
        None
    }
}

/// What `str::parse` gives for a signed integer type with the range `min..=max`:
/// an optional `+` or `-`, then at least one digit, and nothing else.
pub open spec fn parsed_signed(bytes: Seq<u8>, min: int, max: int) -> Option<int> {
    let negative = bytes.len() > 0 && bytes[0] == 45;
    let digits = if bytes.len() > 0 && (bytes[0] == 43 || bytes[0] == 45) {
        bytes.drop_first()
    } else {
        bytes
    };
    let value: int = if negative {
        -digits_value(digits)
    } else {
        digits_value(digits) as int
    };
    if digits.len() > 0 && all_digits(digits) && min <= value <= max {
        Some(value)
    } else {
        None
    }
}

/// The bytes of characters that are all below 128, one byte each.
pub open spec fn ascii_bytes(chars: Seq<char>) -> Seq<u8> {
    chars.map_values(|c: char| (c as u32) as u8)
}

/// Every character is below 128.
pub open spec fn all_ascii(chars: Seq<char>) -> bool {
    forall|i: int| 0 <= i < chars.len() ==> (#[trigger] chars[i] as u32) < 128
}

/// Characters below 128 are encoded in UTF-8 as one byte each.
pub proof fn lemma_ascii_encoding(chars: Seq<char>)
    requires
        all_ascii(chars),
    ensures
        vstd::utf8::encode_utf8(chars) == ascii_bytes(chars),
    decreases chars.len(),
{
    if chars.len() > 0 {
        let c: u32 = chars[0] as u32;
        assert(c < 128);
        assert(c & 0x7f == c) by (bit_vector)
            requires
                c < 128,
        ;
        let rest = chars.drop_first();
        assert(all_ascii(rest)) by {
            assert forall|i: int| 0 <= i < rest.len() implies (#[trigger] rest[i] as u32) < 128 by {
                assert(rest[i] == chars[i + 1]);
            }
        }
        lemma_ascii_encoding(rest);
        assert(vstd::utf8::encode_utf8(chars) =~= ascii_bytes(chars));
    } else {
        assert(vstd::utf8::encode_utf8(chars) =~= ascii_bytes(chars));
    }
}

/// The decimal digits of `n` are characters below 128 whose bytes are decimal digits
/// that write `n`.
pub proof fn lemma_decimal_digits_bytes(n: nat)
    ensures
        decimal_digits(n).len() > 0,
        all_ascii(decimal_digits(n)),
        all_digits(ascii_bytes(decimal_digits(n))),
        digits_value(ascii_bytes(decimal_digits(n))) == n,
    decreases n,
{
    let d: nat = n % 10;
    let c = digit_char(d);
    assert((c as u32) == 48 + d);
    if n < 10 {
        assert(ascii_bytes(decimal_digits(n)) =~= seq![(48 + n) as u8]);
        assert(ascii_bytes(decimal_digits(n)).drop_last() =~= Seq::<u8>::empty());
        assert(digits_value(ascii_bytes(decimal_digits(n))) == digits_value(Seq::<u8>::empty()) * 10
            + n);
    } else {
        let front = decimal_digits(n / 10);
        lemma_decimal_digits_bytes(n / 10);
        assert(decimal_digits(n) == front.push(c));
        assert(ascii_bytes(decimal_digits(n)) =~= ascii_bytes(front).push((48 + d) as u8));
        assert(ascii_bytes(decimal_digits(n)).drop_last() =~= ascii_bytes(front));
        assert(all_ascii(decimal_digits(n))) by {
            assert forall|i: int| 0 <= i < decimal_digits(n).len() implies (
            #[trigger] decimal_digits(n)[i] as u32) < 128 by {
                if i < front.len() {
                    assert(decimal_digits(n)[i] == front[i]);
                }
            }
        }
        assert(all_digits(ascii_bytes(decimal_digits(n)))) by {
            assert forall|i: int| 0 <= i < ascii_bytes(decimal_digits(n)).len() implies is_digit(
                #[trigger] ascii_bytes(decimal_digits(n))[i],
            ) by {
                if i < front.len() {
                    assert(ascii_bytes(decimal_digits(n))[i] == ascii_bytes(front)[i]);
                }
            }
        }
        assert(digits_value(ascii_bytes(decimal_digits(n))) == digits_value(ascii_bytes(front)) * 10
            + d);
        assert(n == (n / 10) * 10 + d);
    }
}

/// What `{}` writes for an integer in a range, `str::parse` for that range reads back.
pub proof fn lemma_decimal_parses_back(v: int, min: int, max: int)
    requires
        min <= v <= max,
    ensures
        parsed_signed(vstd::utf8::encode_utf8(decimal(v)), min, max) == Some(v),
{
    let magnitude: nat = if v < 0 {
        (-v) as nat
    } else {
        v as nat
    };
    lemma_decimal_digits_bytes(magnitude);
    let digits = decimal_digits(magnitude);
    if v < 0 {
        assert(all_ascii(decimal(v))) by {
            assert forall|i: int| 0 <= i < decimal(v).len() implies (
            #[trigger] decimal(v)[i] as u32) < 128 by {
                if i > 0 {
                    assert(decimal(v)[i] == digits[i - 1]);
                }
            }
        }
        lemma_ascii_encoding(decimal(v));
        assert(ascii_bytes(decimal(v)).drop_first() =~= ascii_bytes(digits));
        assert(ascii_bytes(decimal(v))[0] == 45);
    } else {
        lemma_ascii_encoding(digits);
        assert(is_digit(ascii_bytes(digits)[0]));
    }
}

/// Appending digits never makes the number smaller.
pub proof fn lemma_digits_value_grows(bytes: Seq<u8>, i: int)
    requires
        0 <= i <= bytes.len(),
        all_digits(bytes),
    ensures
        digits_value(bytes.take(i)) <= digits_value(bytes),
    decreases bytes.len() - i,
{
    if i < bytes.len() {
        lemma_digits_value_grows(bytes, i + 1);
        assert(bytes.take(i + 1).drop_last() =~= bytes.take(i));
    } else {
        assert(bytes.take(i) =~= bytes);
    }
}

/// Reads the decimal digits `digits` as a number not above `max`, or `None` when
/// they are not all digits, are empty, or write a larger number.
fn parse_digits(digits: &[u8], max: u64) -> (value: Option<u64>)
    ensures
        value matches Some(v) ==> digits@.len() > 0 && all_digits(digits@) && v == digits_value(
            digits@,
        ) && v <= max,
        value is None ==> !(digits@.len() > 0 && all_digits(digits@) && digits_value(digits@)
            <= max),
{
    if digits.len() == 0 {
        return None;
    }
    let mut value: u64 = 0;
    let mut i: usize = 0;
    proof {
        assert(digits@.take(0) =~= Seq::<u8>::empty());
    }
    while i < digits.len()
        invariant
            i <= digits@.len(),
            all_digits(digits@.take(i as int)),
            value == digits_value(digits@.take(i as int)),
            value <= max,
        decreases digits@.len() - i,
    {
        let byte = digits[i];
        proof {
            assert(digits@.take(i + 1).drop_last() =~= digits@.take(i as int));
        }
        if byte < 48 || byte > 57 {
            proof {
                assert(!is_digit(digits@[i as int]));
            }
            return None;
        }
        let digit = (byte - 48) as u64;
        if digit > max || value > (max - digit) / 10 {
            proof {
                if digit <= max {
                    assert(value * 10 + digit > max) by (nonlinear_arith)
                        requires
                            value > (max - digit) / 10,
                            digit <= max,
                    ;
                }
                assert(all_digits(digits@.take(i + 1)));
                if all_digits(digits@) {
                    lemma_digits_value_grows(digits@, i + 1);
                }
            }
            return None;
        }
        value = value * 10 + digit;
        i = i + 1;
        proof {
            assert(all_digits(digits@.take(i as int)));
        }
    }
    proof {
        assert(digits@.take(i as int) =~= digits@);
    }
    Some(value)
}

/// What `str::parse::<usize>` gives for `bytes`.
pub fn parse_usize(bytes: &[u8]) -> (value: Option<usize>)
    ensures
        match parsed_unsigned(bytes@, usize::MAX as nat) {
            Some(v) => value == Some(v as usize),
            None => value is None,
        },
{
    let digits = if bytes.len() > 0 && bytes[0] == 43 {
        bytes.split_at(1).1
    } else {
        bytes
    };
    assert(digits@ =~= if bytes@.len() > 0 && bytes@[0] == 43 {
        bytes@.drop_first()
    } else {
        bytes@
    });
    match parse_digits(digits, usize::MAX as u64) {
        Some(v) => Some(v as usize),
        None => None,
    }
}

/// What `str::parse::<i32>` gives for `bytes`.
pub fn parse_i32(bytes: &[u8]) -> (value: Option<i32>)
    ensures
        match parsed_signed(bytes@, i32::MIN as int, i32::MAX as int) {
            Some(v) => value == Some(v as i32),
            None => value is None,
        },
{
    let negative = bytes.len() > 0 && bytes[0] == 45;
    let digits = if bytes.len() > 0 && (bytes[0] == 43 || bytes[0] == 45) {
        bytes.split_at(1).1
    } else {
        bytes
    };
    assert(digits@ =~= if bytes@.len() > 0 && (bytes@[0] == 43 || bytes@[0] == 45) {
        bytes@.drop_first()
    } else {
        bytes@
    });
    let limit: u64 = if negative {
        0x8000_0000
    } else {
        0x7fff_ffff
    };
    match parse_digits(digits, limit) {
        Some(v) => {
            if negative {
                Some((0 - (v as i64)) as i32)
            } else {
                Some(v as i32)
            }
        },
        None => None,
    }
}

} // verus!
