//! Hexadecimal digit classification and single-digit encode/decode.
use vstd::prelude::*;

verus! {

/// `c` is a decimal digit `'0'..='9'`.
pub open spec fn is_digit_char(c: char) -> bool {
    '0' as u32 <= c as u32 && c as u32 <= '9' as u32
}

/// `c` is a lowercase hexadecimal letter `'a'..='f'`.
pub open spec fn is_lower_hex_letter(c: char) -> bool {
    'a' as u32 <= c as u32 && c as u32 <= 'f' as u32
}

/// `c` is an uppercase hexadecimal letter `'A'..='F'`.
pub open spec fn is_upper_hex_letter(c: char) -> bool {
    'A' as u32 <= c as u32 && c as u32 <= 'F' as u32
}

/// `c` is a hexadecimal digit of either case.
pub open spec fn is_hex_digit(c: char) -> bool {
    is_digit_char(c) || is_lower_hex_letter(c) || is_upper_hex_letter(c)
}

/// The numeric value of a hexadecimal digit; meaningful only when
/// `is_hex_digit(c)` holds, and then always below 16.
pub open spec fn nibble_of_char(c: char) -> u8 {
    if is_digit_char(c) {
        (c as u32 - '0' as u32) as u8
    } else if is_lower_hex_letter(c) {
        (c as u32 - 'a' as u32 + 10) as u8
    } else {
        (c as u32 - 'A' as u32 + 10) as u8
    }
}

/// The canonical (lowercase) hexadecimal digit for a nibble value;
/// meaningful only when `n < 16`.
pub open spec fn hex_char_of_nibble(n: u8) -> char {
    if n < 10 {
        (('0' as u8 + n) as u8) as char
    } else {
        (('a' as u8 + n - 10) as u8) as char
    }
}

/// The byte encoded by a pair of hexadecimal digits, high digit first.
pub open spec fn byte_of_pair(hi: char, lo: char) -> u8 {
    (nibble_of_char(hi) * 16 + nibble_of_char(lo)) as u8
}

/// Decodes one character as a case-insensitive hexadecimal digit.
pub fn hex_char_to_nibble(c: char) -> (r: Option<u8>)
    ensures
        r is Some <==> is_hex_digit(c),
        is_hex_digit(c) ==> r == Some(nibble_of_char(c)),
{
    let u = c as u32;
    if 48 <= u && u <= 57 {
        Some((u - 48) as u8)
    } else if 97 <= u && u <= 102 {
        Some((u - 97 + 10) as u8)
    } else if 65 <= u && u <= 70 {
        Some((u - 65 + 10) as u8)
    } else {
        None
    }
}

/// Encodes a nibble value as its canonical lowercase hexadecimal digit.
pub fn nibble_to_hex_char(n: u8) -> (c: char)
    requires
        n < 16,
    ensures
        c == hex_char_of_nibble(n),
{
    if n < 10 {
        (48 + n) as char
    } else {
        (87 + n) as char
    }
}

/// A hexadecimal digit's value is always below 16, and the canonical digit
/// of a nibble is a hexadecimal digit that decodes back to the same nibble.
pub proof fn lemma_hex_char_of_nibble_inverse(n: u8)
    requires
        n < 16,
    ensures
        is_hex_digit(hex_char_of_nibble(n)),
        !is_upper_hex_letter(hex_char_of_nibble(n)),
        nibble_of_char(hex_char_of_nibble(n)) == n,
        (hex_char_of_nibble(n) as u32) < 128,
{
}

} // verus!
