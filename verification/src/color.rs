//! Decoding of palette colours written as six hexadecimal digits.

use crate::error::ColorError;
use vstd::prelude::*;

verus! {

/// The value of a hexadecimal digit of either case; `None` for any other character.
pub open spec fn hex_digit(c: char) -> Option<nat> {
    if '0' <= c && c <= '9' {
        Some((c as int - '0' as int) as nat)
    } else if 'a' <= c && c <= 'f' {
        Some((c as int - 'a' as int + 10) as nat)
    } else if 'A' <= c && c <= 'F' {
        Some((c as int - 'A' as int + 10) as nat)
    } else {
        None
    }
}

/// Every character of `s` is a hexadecimal digit.
pub open spec fn all_hex(s: Seq<char>) -> bool {
    forall|i: int| 0 <= i < s.len() ==> (#[trigger] hex_digit(s[i])) is Some
}

/// The number that `s` writes in base sixteen, most significant digit first.
pub open spec fn hex_number(s: Seq<char>) -> nat
    decreases s.len(),
{
    if s.len() == 0 {
        0
    } else {
        16 * hex_number(s.drop_last()) + match hex_digit(s.last()) {
            Some(d) => d,
            None => 0,
        }
    }
}

/// `s` without its leading `#`, where it has one.
pub open spec fn strip_hash(s: Seq<char>) -> Seq<char> {
    if s.len() > 0 && s[0] == '#' {
        s.skip(1)
    } else {
        s
    }
}

/// The three bytes of a 24-bit number, most significant first: red, green, blue.
pub open spec fn rgb_of_number(n: nat) -> (u8, u8, u8) {
    (((n / 0x10000) % 0x100) as u8, ((n / 0x100) % 0x100) as u8, (n % 0x100) as u8)
}

/// What a palette value decodes to: its red, green and blue bytes, or the reason
/// why it is malformed.
pub open spec fn color_rgb(value: Seq<char>) -> Result<(u8, u8, u8), ColorError> {
    let digits = strip_hash(value);
    if digits.len() != 6 {
        Err(ColorError::BadLength)
    } else if !all_hex(digits) {
        Err(ColorError::BadDigit)
    } else {
        Ok(rgb_of_number(hex_number(digits)))
    }
}

/// Decodes one character as a hexadecimal digit.
pub fn hex_digit_value(c: char) -> (d: Option<u8>)
    ensures
        match hex_digit(c) {
            Some(v) => d == Some(v as u8) && v < 16,
            None => d is None,
        },
{
    if c >= '0' && c <= '9' {
        Some((c as u32 - '0' as u32) as u8)
    } else if c >= 'a' && c <= 'f' {
        Some((c as u32 - 'a' as u32 + 10) as u8)
    } else if c >= 'A' && c <= 'F' {
        Some((c as u32 - 'A' as u32 + 10) as u8)
    } else {
        None
    }
}

/// Sixteen to the power `k`.
spec fn pow16(k: nat) -> nat
    decreases k,
{
    if k == 0 {
        1
    } else {
        16 * pow16((k - 1) as nat)
    }
}

/// One more digit multiplies the number by sixteen and adds the digit.
proof fn lemma_hex_number_step(s: Seq<char>, k: int)
    requires
        0 <= k < s.len(),
        hex_digit(s[k]) is Some,
    ensures
        hex_number(s.take(k + 1)) == 16 * hex_number(s.take(k)) + hex_digit(s[k])->0,
{
    assert(s.take(k + 1).drop_last() =~= s.take(k));
    assert(s.take(k + 1).last() == s[k]);
}

/// Decodes a palette value: an optional leading `#`, then exactly six hexadecimal
/// digits read as one 24-bit number whose bytes are red, green and blue.
pub fn palette_value_to_rgb(value: &String) -> (r: Result<(u8, u8, u8), ColorError>)
    ensures
        r == color_rgb(value@),
{
    let text = value.as_str();
    let n = text.unicode_len();
    let start: usize = if n > 0 && text.get_char(0) == '#' {
        1
    } else {
        0
    };
    let ghost digits = strip_hash(value@);
    assert(digits.len() == n - start);
    if n - start != 6 {
        return Err(ColorError::BadLength);
    }
    let mut number: u32 = 0;
    let mut k: usize = 0;
    while k < 6
        invariant
            0 <= k <= 6,
            n == start + 6,
            start <= 1,
            text@ == value@,
            text@.len() == n,
            digits == strip_hash(value@),
            digits.len() == 6,
            forall|j: int| 0 <= j < 6 ==> digits[j] == text@[start + j],
            forall|j: int| 0 <= j < k ==> (#[trigger] hex_digit(digits[j])) is Some,
            number == hex_number(digits.take(k as int)),
            number < pow16(k as nat),
        decreases 6 - k,
    {
        let c = text.get_char(start + k);
        match hex_digit_value(c) {
            None => {
                assert(hex_digit(digits[k as int]) is None);
                return Err(ColorError::BadDigit);
            },
            Some(d) => {
                proof {
                    lemma_hex_number_step(digits, k as int);
                    reveal_with_fuel(pow16, 8);
                }
                number = number * 16 + d as u32;
            },
        }
        k += 1;
    }
    proof {
        assert(digits.take(6) =~= digits);
        reveal_with_fuel(pow16, 8);
    }
    let red = (number / 0x10000) as u8;
    let green = ((number / 0x100) % 0x100) as u8;
    let blue = (number % 0x100) as u8;
    Ok((red, green, blue))
}

/// A value is decoded if and only if, after its optional `#`, it is six
/// hexadecimal digits; a wrong length and a foreign character are both refused.
pub proof fn lemma_malformed_is_refused(value: Seq<char>)
    ensures
        color_rgb(value) is Ok <==> strip_hash(value).len() == 6 && all_hex(strip_hash(value)),
        strip_hash(value).len() != 6 ==> color_rgb(value) == Err::<(u8, u8, u8), ColorError>(
            ColorError::BadLength,
        ),
        forall|i: int|
            strip_hash(value).len() == 6 && 0 <= i < 6 && hex_digit(#[trigger] strip_hash(value)[i])
                is None ==> color_rgb(value) == Err::<(u8, u8, u8), ColorError>(
                ColorError::BadDigit,
            ),
{
}

/// Six hexadecimal digits decode to the same colour with a leading `#` as
/// without one, and each channel is the byte that its two digits write: red from
/// the first pair, green from the second, blue from the third.
pub proof fn lemma_hash_is_optional(digits: Seq<char>)
    requires
        digits.len() == 6,
        all_hex(digits),
    ensures
        color_rgb(seq!['#'] + digits) == color_rgb(digits),
        color_rgb(digits) == Ok::<(u8, u8, u8), ColorError>(
            (
                (16 * hex_digit(digits[0])->0 + hex_digit(digits[1])->0) as u8,
                (16 * hex_digit(digits[2])->0 + hex_digit(digits[3])->0) as u8,
                (16 * hex_digit(digits[4])->0 + hex_digit(digits[5])->0) as u8,
            ),
        ),
{
    assert(hex_digit(digits[0]) is Some);
    assert(strip_hash(digits) == digits);
    assert(strip_hash(seq!['#'] + digits) =~= digits);
    let red = 16 * hex_digit(digits[0])->0 + hex_digit(digits[1])->0;
    let green = 16 * hex_digit(digits[2])->0 + hex_digit(digits[3])->0;
    let blue = 16 * hex_digit(digits[4])->0 + hex_digit(digits[5])->0;
    assert(digits.take(0) =~= Seq::<char>::empty());
    assert(digits.take(6) =~= digits);
    lemma_hex_number_step(digits, 0);
    lemma_hex_number_step(digits, 1);
    lemma_hex_number_step(digits, 2);
    lemma_hex_number_step(digits, 3);
    lemma_hex_number_step(digits, 4);
    lemma_hex_number_step(digits, 5);
    assert(hex_number(digits) == 0x10000 * red + 0x100 * green + blue);
    lemma_bytes_of_number(red, green, blue);
}

/// The bytes of a number put together from three bytes are those three.
proof fn lemma_bytes_of_number(red: nat, green: nat, blue: nat)
    requires
        red < 0x100,
        green < 0x100,
        blue < 0x100,
    ensures
        rgb_of_number(0x10000 * red + 0x100 * green + blue) == (red as u8, green as u8, blue as u8),
{
}

} // verus!
