//! Library-wide properties, stated and proved over the specification
//! model that the executable functions' contracts use.
use vstd::prelude::*;

use crate::hex::{
    byte_of_pair, hex_char_of_nibble, is_hex_digit, is_upper_hex_letter,
    lemma_hex_char_of_nibble_inverse, nibble_of_char,
};
use crate::parser::{
    bare_error_at, decode_bare, decode_sep, first_bad_bare, first_bad_sep, is_separator,
    lemma_parse_spec_bare_err, lemma_parse_spec_sep_err, parse_spec, sep_error_at, sep_good_at,
    valid_bare, valid_sep, StringToEuiError,
};
use crate::render::hex_chars_of;
use crate::{bytes6_of, bytes8_of, lemma_bytes8_view, u64_of_bytes6, u64_of_bytes8, widened_bytes};

verus! {

/// Round trip: reading the integer back from the eight bytes built out of
/// any 64-bit value yields that value again.
pub proof fn lemma_u64_roundtrip_64(v: u64)
    ensures
        u64_of_bytes8(bytes8_of(v)@) == v,
        <u64 as vstd::std_specs::convert::FromSpec<crate::Eui64>>::from_spec(
            <crate::Eui64 as vstd::std_specs::convert::FromSpec<u64>>::from_spec(v),
        ) == v,
{
    let b = bytes8_of(v)@;
    let b0 = b[0];
    let b1 = b[1];
    let b2 = b[2];
    let b3 = b[3];
    let b4 = b[4];
    let b5 = b[5];
    let b6 = b[6];
    let b7 = b[7];
    assert(v >> 0 == v) by (bit_vector);
    assert((((b0 as u64) << 56) | ((b1 as u64) << 48) | ((b2 as u64) << 40) | ((b3 as u64) << 32)
        | ((b4 as u64) << 24) | ((b5 as u64) << 16) | ((b6 as u64) << 8) | (b7 as u64)) == v)
        by (bit_vector)
        requires
            b0 == ((v >> 56) & 0xff) as u8,
            b1 == ((v >> 48) & 0xff) as u8,
            b2 == ((v >> 40) & 0xff) as u8,
            b3 == ((v >> 32) & 0xff) as u8,
            b4 == ((v >> 24) & 0xff) as u8,
            b5 == ((v >> 16) & 0xff) as u8,
            b6 == ((v >> 8) & 0xff) as u8,
            b7 == (v & 0xff) as u8,
    ;
}

/// Round trip: reading the integer back from the six bytes built out of
/// any value below two to the 48th yields that value again.
pub proof fn lemma_u64_roundtrip_48(v: u64)
    requires
        v < 0x1000000000000,
    ensures
        u64_of_bytes6(bytes6_of(v)@) == v,
        <u64 as vstd::std_specs::convert::FromSpec<crate::Eui48>>::from_spec(
            <crate::Eui48 as vstd::std_specs::convert::FromSpec<u64>>::from_spec(v),
        ) == v,
{
    let b = bytes6_of(v)@;
    let b0 = b[0];
    let b1 = b[1];
    let b2 = b[2];
    let b3 = b[3];
    let b4 = b[4];
    let b5 = b[5];
    assert(v >> 0 == v) by (bit_vector);
    assert((((b0 as u64) << 40) | ((b1 as u64) << 32) | ((b2 as u64) << 24) | ((b3 as u64) << 16)
        | ((b4 as u64) << 8) | (b5 as u64)) == v) by (bit_vector)
        requires
            v < 0x1000000000000,
            b0 == ((v >> 40) & 0xff) as u8,
            b1 == ((v >> 32) & 0xff) as u8,
            b2 == ((v >> 24) & 0xff) as u8,
            b3 == ((v >> 16) & 0xff) as u8,
            b4 == ((v >> 8) & 0xff) as u8,
            b5 == (v & 0xff) as u8,
    ;
}

/// Text round trip: the canonical rendering of any byte sequence is made
/// of lowercase hexadecimal digits only and parses back to exactly those
/// bytes under the matching width.
pub proof fn lemma_format_parse_roundtrip(b: Seq<u8>, n: nat)
    requires
        b.len() == n,
    ensures
        valid_bare(hex_chars_of(b), n),
        parse_spec(hex_chars_of(b), n) == Ok::<Seq<u8>, StringToEuiError>(b),
        forall|i: int|
            0 <= i < hex_chars_of(b).len() ==> is_hex_digit(#[trigger] hex_chars_of(b)[i])
                && !is_upper_hex_letter(hex_chars_of(b)[i]),
{
    let s = hex_chars_of(b);
    assert forall|i: int|
        0 <= i < s.len() implies is_hex_digit(#[trigger] s[i]) && !is_upper_hex_letter(s[i]) by {
        if i % 2 == 0 {
            lemma_hex_char_of_nibble_inverse(b[i / 2] / 16);
        } else {
            lemma_hex_char_of_nibble_inverse(b[i / 2] % 16);
        }
    }
    assert(valid_bare(s, n));
    assert forall|k: int| 0 <= k < n implies decode_bare(s)[k] == b[k] by {
        lemma_hex_char_of_nibble_inverse(b[k] / 16);
        lemma_hex_char_of_nibble_inverse(b[k] % 16);
        assert(s[2 * k] == hex_char_of_nibble(b[k] / 16));
        assert(s[2 * k + 1] == hex_char_of_nibble(b[k] % 16));
    }
    assert(decode_bare(s) =~= b);
}

/// The separated rendering of bytes `b`: digit pairs joined by `c`.
pub open spec fn hex_chars_sep(b: Seq<u8>, c: char) -> Seq<char> {
    Seq::new(
        if b.len() == 0 {
            0
        } else {
            (3 * b.len() - 1) as nat
        },
        |i: int|
            if i % 3 == 0 {
                hex_char_of_nibble(b[i / 3] / 16)
            } else if i % 3 == 1 {
                hex_char_of_nibble(b[i / 3] % 16)
            } else {
                c
            },
    )
}

/// Separator acceptance: with either recognized separator, the separated
/// rendering of any nonempty byte sequence parses back to exactly those
/// bytes under the matching width.
pub proof fn lemma_separated_parse(b: Seq<u8>, c: char, n: nat)
    requires
        is_separator(c),
        b.len() == n,
        1 <= n,
    ensures
        parse_spec(hex_chars_sep(b, c), n) == Ok::<Seq<u8>, StringToEuiError>(b),
{
    let s = hex_chars_sep(b, c);
    assert(s.len() + 1 == 3 * n);
    if n == 1 {
        lemma_hex_char_of_nibble_inverse(b[0] / 16);
        lemma_hex_char_of_nibble_inverse(b[0] % 16);
        assert(valid_bare(s, n));
        assert(decode_bare(s) =~= b);
    } else {
        assert(s.len() != 2 * n);
        assert forall|i: int| 0 <= i < s.len() implies sep_good_at(s, i) by {
            if i % 3 == 0 {
                lemma_hex_char_of_nibble_inverse(b[i / 3] / 16);
            } else if i % 3 == 1 {
                lemma_hex_char_of_nibble_inverse(b[i / 3] % 16);
            } else {
                assert(s[i] == c && s[2] == c);
            }
        }
        assert(valid_sep(s, n));
        assert forall|k: int| 0 <= k < n implies decode_sep(s)[k] == b[k] by {
            lemma_hex_char_of_nibble_inverse(b[k] / 16);
            lemma_hex_char_of_nibble_inverse(b[k] % 16);
            assert(s[3 * k] == hex_char_of_nibble(b[k] / 16));
            assert(s[3 * k + 1] == hex_char_of_nibble(b[k] % 16));
        }
        assert(decode_sep(s) =~= b);
    }
}

/// Some position of `s` breaks the separated form, so a first such
/// position exists.
proof fn lemma_first_bad_sep_exists(s: Seq<char>, j: int)
    requires
        0 <= j < s.len(),
        !sep_good_at(s, j),
    ensures
        exists|jj: int| first_bad_sep(s, jj),
    decreases j,
{
    if forall|k: int| 0 <= k < j ==> #[trigger] sep_good_at(s, k) {
        assert(first_bad_sep(s, j));
    } else {
        let k = choose|k: int| 0 <= k < j && !(#[trigger] sep_good_at(s, k));
        lemma_first_bad_sep_exists(s, k);
    }
}

/// Some position of `s` is not a hexadecimal digit, so a first such
/// position exists.
proof fn lemma_first_bad_bare_exists(s: Seq<char>, j: int)
    requires
        0 <= j < s.len(),
        !is_hex_digit(s[j]),
    ensures
        exists|jj: int| first_bad_bare(s, jj),
    decreases j,
{
    if forall|k: int| 0 <= k < j ==> is_hex_digit(#[trigger] s[k]) {
        assert(first_bad_bare(s, j));
    } else {
        let k = choose|k: int| 0 <= k < j && !is_hex_digit(#[trigger] s[k]);
        lemma_first_bad_bare_exists(s, k);
    }
}

/// Mixing separators: an input of the separated length whose digit
/// positions all hold digits and whose separator positions all hold
/// separators of more than one kind fails with the mixed-separator
/// error, wherever the differing separators stand.
pub proof fn lemma_mixed_separators(s: Seq<char>, n: nat, p: int, q: int)
    requires
        s.len() + 1 == 3 * n,
        forall|k: int| 0 <= k < s.len() && k % 3 != 2 ==> is_hex_digit(#[trigger] s[k]),
        forall|k: int| 0 <= k < s.len() && k % 3 == 2 ==> is_separator(#[trigger] s[k]),
        0 <= p < s.len() && p % 3 == 2,
        0 <= q < s.len() && q % 3 == 2,
        s[p] != s[q],
    ensures
        parse_spec(s, n) == Err::<Seq<u8>, StringToEuiError>(
            StringToEuiError::OnlyOneSeparatorTypeExpected,
        ),
{
    assert(2 <= p && 2 <= q);
    assert(s.len() != 2 * n);
    let w: int = if s[p] != s[2] {
        p
    } else {
        q
    };
    assert(is_separator(s[w]) && s[w] != s[2]);
    assert(!sep_good_at(s, w));
    lemma_first_bad_sep_exists(s, w);
    let j = choose|jj: int| first_bad_sep(s, jj);
    assert(first_bad_sep(s, j));
    if j % 3 != 2 {
        assert(sep_good_at(s, j));
    }
    assert(is_separator(s[j]) && !is_hex_digit(s[j]));
    assert(s[j] != s[2]);
    assert(3 <= j);
    assert(sep_error_at(s, j) == StringToEuiError::OnlyOneSeparatorTypeExpected);
    lemma_parse_spec_sep_err(s, n, j);
}

/// `a` and `b` are the same character up to hexadecimal-digit case.
pub open spec fn same_up_to_case(a: char, b: char) -> bool {
    a == b || (is_hex_digit(a) && is_hex_digit(b) && nibble_of_char(a) == nibble_of_char(b))
}

/// Case insensitivity: two inputs of equal length that agree character
/// for character up to digit case parse identically, to the same bytes
/// or to the same error.
pub proof fn lemma_case_insensitive(s: Seq<char>, t: Seq<char>, n: nat)
    requires
        s.len() == t.len(),
        forall|i: int| 0 <= i < s.len() ==> same_up_to_case(s[i], #[trigger] t[i]),
    ensures
        parse_spec(s, n) == parse_spec(t, n),
{
    assert forall|i: int|
        0 <= i < s.len() implies (is_hex_digit(s[i]) == is_hex_digit(#[trigger] t[i]))
        && (is_separator(s[i]) == is_separator(t[i])) && (is_hex_digit(s[i])
        ==> nibble_of_char(s[i]) == nibble_of_char(t[i])) && (!is_hex_digit(s[i]) ==> s[i]
        == t[i]) by {
        assert(same_up_to_case(s[i], t[i]));
    }
    if s.len() == 2 * n {
        if valid_bare(s, n) {
            assert(valid_bare(t, n));
            assert forall|k: int| 0 <= k < n implies decode_bare(s)[k] == decode_bare(t)[k] by {
                assert(byte_of_pair(s[2 * k], s[2 * k + 1]) == byte_of_pair(
                    t[2 * k],
                    t[2 * k + 1],
                ));
            }
            assert(decode_bare(s) =~= decode_bare(t));
        } else {
            let i = choose|i: int| 0 <= i < s.len() && !is_hex_digit(#[trigger] s[i]);
            assert(0 <= i < s.len() && !is_hex_digit(s[i]));
            lemma_first_bad_bare_exists(s, i);
            let j = choose|jj: int| first_bad_bare(s, jj);
            assert(first_bad_bare(s, j));
            assert(first_bad_bare(t, j));
            assert(!valid_bare(t, n));
            lemma_parse_spec_bare_err(s, n, j);
            lemma_parse_spec_bare_err(t, n, j);
            assert(bare_error_at(s, j) == bare_error_at(t, j));
        }
    } else if s.len() + 1 == 3 * n {
        assert forall|k: int| 0 <= k < s.len() implies #[trigger] sep_good_at(s, k)
            == sep_good_at(t, k) by {
            if k % 3 == 2 {
                if is_separator(s[k]) {
                    assert(s[k] == t[k]);
                    if is_hex_digit(s[2]) {
                        assert(s[k] != s[2] && t[k] != t[2]);
                    } else {
                        assert(s[2] == t[2]);
                    }
                }
            }
        }
        if valid_sep(s, n) {
            assert forall|k: int| 0 <= k < t.len() implies #[trigger] sep_good_at(t, k) by {
                assert(sep_good_at(s, k));
            }
            assert(valid_sep(t, n));
            assert forall|k: int| 0 <= k < n implies decode_sep(s)[k] == decode_sep(t)[k] by {
                assert(sep_good_at(s, 3 * k) && sep_good_at(s, 3 * k + 1));
                assert(byte_of_pair(s[3 * k], s[3 * k + 1]) == byte_of_pair(
                    t[3 * k],
                    t[3 * k + 1],
                ));
            }
            assert(decode_sep(s) =~= decode_sep(t));
        } else {
            let i = choose|i: int| 0 <= i < s.len() && !(#[trigger] sep_good_at(s, i));
            assert(0 <= i < s.len() && !sep_good_at(s, i));
            lemma_first_bad_sep_exists(s, i);
            let j = choose|jj: int| first_bad_sep(s, jj);
            assert(first_bad_sep(s, j));
            assert forall|k: int| 0 <= k < j implies #[trigger] sep_good_at(t, k) by {
                assert(sep_good_at(s, k));
            }
            assert(first_bad_sep(t, j));
            assert(!valid_sep(t, n));
            lemma_parse_spec_sep_err(s, n, j);
            lemma_parse_spec_sep_err(t, n, j);
            if 3 <= j && is_separator(s[j]) && !is_hex_digit(s[j]) {
                assert(sep_good_at(s, 2));
                assert(!is_hex_digit(s[2]));
                assert(s[2] == t[2] && s[j] == t[j]);
            }
            assert(sep_error_at(s, j) == sep_error_at(t, j));
        }
    }
}

/// Length sensitivity: exactly the inputs whose length fits neither the
/// bare nor the separated form are rejected with the length error, and
/// that error reports the input's length.
pub proof fn lemma_length_error(s: Seq<char>, n: nat)
    ensures
        (s.len() != 2 * n && s.len() + 1 != 3 * n) <==> parse_spec(s, n) == Err::<
            Seq<u8>,
            StringToEuiError,
        >(StringToEuiError::InvalidLength { length: s.len() as usize }),
{
}

/// Widening: the eight bytes of the widened identifier are the first
/// three bytes of the source, two bytes of value zero, and the last three
/// bytes of the source.
pub proof fn lemma_widening(e: crate::Eui48)
    ensures
        (<crate::Eui64 as vstd::std_specs::convert::FromSpec<crate::Eui48>>::from_spec(e))@
            == widened_bytes(e@),
{
    lemma_bytes8_view(
        <crate::Eui64 as vstd::std_specs::convert::FromSpec<crate::Eui48>>::from_spec(e).0,
        widened_bytes(e@),
    );
}

} // verus!
