//! Canonical text rendering: fixed-size lowercase hexadecimal, built one
//! nibble at a time, delivered in a fixed-capacity string.
use vstd::prelude::*;

use crate::hex::{
    byte_of_pair, hex_char_of_nibble, lemma_hex_char_of_nibble_inverse, nibble_to_hex_char,
};

verus! {

/// The canonical rendering of bytes `b`: two lowercase hexadecimal digits
/// per byte, high nibble first, no separators.
pub open spec fn hex_chars_of(b: Seq<u8>) -> Seq<char> {
    Seq::new(
        2 * b.len(),
        |i: int|
            if i % 2 == 0 {
                hex_char_of_nibble(b[i / 2] / 16)
            } else {
                hex_char_of_nibble(b[i / 2] % 16)
            },
    )
}

/// Renders bytes as their canonical hexadecimal character sequence.
pub fn hex_string_chars(b: &[u8]) -> (r: Vec<char>)
    requires
        b@.len() * 2 <= usize::MAX,
    ensures
        r@ == hex_chars_of(b@),
{
    let mut v: Vec<char> = Vec::new();
    let mut i: usize = 0;
    while i < b.len()
        invariant
            i <= b@.len(),
            b@.len() * 2 <= usize::MAX,
            v@.len() == 2 * i,
            forall|k: int| 0 <= k < v@.len() ==> v@[k] == hex_chars_of(b@)[k],
        decreases b@.len() - i,
    {
        let byte = b[i];
        v.push(nibble_to_hex_char(byte / 16));
        v.push(nibble_to_hex_char(byte % 16));
        i += 1;
    }
    proof {
        assert(v@ =~= hex_chars_of(b@));
    }
    v
}

/// Declares heapless::String, the fixed-capacity string that carries the
/// rendered text, so that it can stand in signatures; its contents are
/// reached only through the named functions below.
#[verifier::external_type_specification]
#[verifier::external_body]
pub struct ExHeaplessString<const N: usize>(heapless::String<N>);

/// The characters held by a fixed-capacity string of capacity 12.
pub uninterp spec fn hstr12_chars(s: heapless::String<12>) -> Seq<char>;

/// The characters held by a fixed-capacity string of capacity 16.
pub uninterp spec fn hstr16_chars(s: heapless::String<16>) -> Seq<char>;

/// Relies on heapless::String::new and heapless::String::push: starting
/// empty and pushing twelve ASCII characters, each one byte long, fills a
/// string of capacity 12 with exactly those characters in order.
#[verifier::external_body]
pub(crate) fn heapless_string_12(chars: &Vec<char>) -> (r: heapless::String<12>)
    requires
        chars@.len() == 12,
        forall|i: int| 0 <= i < chars@.len() ==> ((#[trigger] chars@[i]) as u32) < 128,
    ensures
        hstr12_chars(r) == chars@,
{
    let mut s = heapless::String::new();
    for c in chars.iter() {
        let _ = s.push(*c);
    }
    s
}

/// Relies on heapless::String::new and heapless::String::push: starting
/// empty and pushing sixteen ASCII characters, each one byte long, fills a
/// string of capacity 16 with exactly those characters in order.
#[verifier::external_body]
pub(crate) fn heapless_string_16(chars: &Vec<char>) -> (r: heapless::String<16>)
    requires
        chars@.len() == 16,
        forall|i: int| 0 <= i < chars@.len() ==> ((#[trigger] chars@[i]) as u32) < 128,
    ensures
        hstr16_chars(r) == chars@,
{
    let mut s = heapless::String::new();
    for c in chars.iter() {
        let _ = s.push(*c);
    }
    s
}

/// Every character of a canonical rendering is an ASCII character.
pub proof fn lemma_hex_chars_ascii(b: Seq<u8>)
    ensures
        forall|i: int|
            0 <= i < hex_chars_of(b).len() ==> ((#[trigger] hex_chars_of(b)[i]) as u32) < 128,
{
    assert forall|i: int|
        0 <= i < hex_chars_of(b).len() implies ((#[trigger] hex_chars_of(b)[i]) as u32) < 128 by {
        if i % 2 == 0 {
            lemma_hex_char_of_nibble_inverse(b[i / 2] / 16);
        } else {
            lemma_hex_char_of_nibble_inverse(b[i / 2] % 16);
        }
    }
}

} // verus!
