//! Fixed-width extended unique identifiers (48-bit and 64-bit), with
//! construction from 64-bit integers, lossless conversion between the two
//! widths and back to integers, canonical lowercase hexadecimal rendering,
//! and parsing of bare or separated hexadecimal text.
use vstd::prelude::*;

pub mod hex;
pub mod laws;
pub mod parser;
pub mod render;

pub use crate::parser::{string_to_eui, StringToEuiError};

use crate::parser::parse_spec;
use crate::render::{
    heapless_string_12, heapless_string_16, hex_chars_of, hex_string_chars, hstr12_chars,
    hstr16_chars, lemma_hex_chars_ascii,
};

verus! {

/// A 48-bit extended unique identifier: exactly six bytes, big-endian.
#[derive(Clone, Copy, PartialEq, Eq, Hash, Debug)]
pub struct Eui48(pub [u8; 6]);

/// A 64-bit extended unique identifier: exactly eight bytes, big-endian.
#[derive(Clone, Copy, PartialEq, Eq, Hash, Debug)]
pub struct Eui64(pub [u8; 8]);

impl View for Eui48 {
    type V = Seq<u8>;

    open spec fn view(&self) -> Seq<u8> {
        self.0@
    }
}

impl View for Eui64 {
    type V = Seq<u8>;

    open spec fn view(&self) -> Seq<u8> {
        self.0@
    }
}

/// Byte `i` (0 the most significant) of the eight-byte big-endian form of `v`.
pub open spec fn be_byte(v: u64, i: int) -> u8 {
    ((v >> ((8 * (7 - i)) as u64)) & 0xff) as u8
}

/// The eight big-endian bytes of `v`.
pub open spec fn bytes8_of(v: u64) -> [u8; 8] {
    [
        be_byte(v, 0),
        be_byte(v, 1),
        be_byte(v, 2),
        be_byte(v, 3),
        be_byte(v, 4),
        be_byte(v, 5),
        be_byte(v, 6),
        be_byte(v, 7),
    ]
}

/// The six big-endian bytes of the low 48 bits of `v`.
pub open spec fn bytes6_of(v: u64) -> [u8; 6] {
    [be_byte(v, 2), be_byte(v, 3), be_byte(v, 4), be_byte(v, 5), be_byte(v, 6), be_byte(v, 7)]
}

/// The 64-bit integer read from eight big-endian bytes.
pub open spec fn u64_of_bytes8(b: Seq<u8>) -> u64 {
    ((b[0] as u64) << 56) | ((b[1] as u64) << 48) | ((b[2] as u64) << 40) | ((b[3] as u64) << 32)
        | ((b[4] as u64) << 24) | ((b[5] as u64) << 16) | ((b[6] as u64) << 8) | (b[7] as u64)
}

/// The 64-bit integer read from six big-endian bytes, zero-extended.
pub open spec fn u64_of_bytes6(b: Seq<u8>) -> u64 {
    ((b[0] as u64) << 40) | ((b[1] as u64) << 32) | ((b[2] as u64) << 24) | ((b[3] as u64) << 16)
        | ((b[4] as u64) << 8) | (b[5] as u64)
}

/// The widening of six bytes to eight: the first three bytes kept, two
/// bytes of value zero inserted, the last three bytes kept.
pub open spec fn widened_bytes(b: Seq<u8>) -> Seq<u8> {
    seq![b[0], b[1], b[2], 0u8, 0u8, b[3], b[4], b[5]]
}

/// Six-byte arrays that agree at every index are equal.
pub proof fn lemma_bytes6_eq(a: [u8; 6], b: [u8; 6])
    requires
        a[0] == b[0],
        a[1] == b[1],
        a[2] == b[2],
        a[3] == b[3],
        a[4] == b[4],
        a[5] == b[5],
    ensures
        a == b,
{
    broadcast use vstd::array::group_array_axioms;

    assert forall|i: int| 0 <= i < 6 implies a[i] == b[i] by {
        if i == 0 {
            assert(a[0] == b[0]);
        } else if i == 1 {
            assert(a[1] == b[1]);
        } else if i == 2 {
            assert(a[2] == b[2]);
        } else if i == 3 {
            assert(a[3] == b[3]);
        } else if i == 4 {
            assert(a[4] == b[4]);
        } else {
            assert(a[5] == b[5]);
        }
    }
    assert(a =~= b);
}

/// Eight-byte arrays that agree at every index are equal.
pub proof fn lemma_bytes8_eq(a: [u8; 8], b: [u8; 8])
    requires
        a[0] == b[0],
        a[1] == b[1],
        a[2] == b[2],
        a[3] == b[3],
        a[4] == b[4],
        a[5] == b[5],
        a[6] == b[6],
        a[7] == b[7],
    ensures
        a == b,
{
    broadcast use vstd::array::group_array_axioms;

    assert forall|i: int| 0 <= i < 8 implies a[i] == b[i] by {
        if i == 0 {
            assert(a[0] == b[0]);
        } else if i == 1 {
            assert(a[1] == b[1]);
        } else if i == 2 {
            assert(a[2] == b[2]);
        } else if i == 3 {
            assert(a[3] == b[3]);
        } else if i == 4 {
            assert(a[4] == b[4]);
        } else if i == 5 {
            assert(a[5] == b[5]);
        } else if i == 6 {
            assert(a[6] == b[6]);
        } else {
            assert(a[7] == b[7]);
        }
    }
    assert(a =~= b);
}

/// A six-byte array whose entries match a sequence index for index has
/// that sequence as its view.
pub proof fn lemma_bytes6_view(a: [u8; 6], s: Seq<u8>)
    requires
        s.len() == 6,
        a[0] == s[0],
        a[1] == s[1],
        a[2] == s[2],
        a[3] == s[3],
        a[4] == s[4],
        a[5] == s[5],
    ensures
        a@ == s,
{
    broadcast use vstd::array::group_array_axioms;

    assert forall|i: int| 0 <= i < 6 implies a[i] == s[i] by {
        if i == 0 {
            assert(a[0] == s[0]);
        } else if i == 1 {
            assert(a[1] == s[1]);
        } else if i == 2 {
            assert(a[2] == s[2]);
        } else if i == 3 {
            assert(a[3] == s[3]);
        } else if i == 4 {
            assert(a[4] == s[4]);
        } else {
            assert(a[5] == s[5]);
        }
    }
    assert(a@ =~= s);
}

/// An eight-byte array whose entries match a sequence index for index has
/// that sequence as its view.
pub proof fn lemma_bytes8_view(a: [u8; 8], s: Seq<u8>)
    requires
        s.len() == 8,
        a[0] == s[0],
        a[1] == s[1],
        a[2] == s[2],
        a[3] == s[3],
        a[4] == s[4],
        a[5] == s[5],
        a[6] == s[6],
        a[7] == s[7],
    ensures
        a@ == s,
{
    broadcast use vstd::array::group_array_axioms;

    assert forall|i: int| 0 <= i < 8 implies a[i] == s[i] by {
        if i == 0 {
            assert(a[0] == s[0]);
        } else if i == 1 {
            assert(a[1] == s[1]);
        } else if i == 2 {
            assert(a[2] == s[2]);
        } else if i == 3 {
            assert(a[3] == s[3]);
        } else if i == 4 {
            assert(a[4] == s[4]);
        } else if i == 5 {
            assert(a[5] == s[5]);
        } else if i == 6 {
            assert(a[6] == s[6]);
        } else {
            assert(a[7] == s[7]);
        }
    }
    assert(a@ =~= s);
}

impl Eui48 {
    /// Renders the canonical text: twelve lowercase hexadecimal
    /// characters, two per byte, high nibble first, no separators.
    pub fn to_string(&self) -> (r: heapless::String<12>)
        ensures
            hstr12_chars(r) == hex_chars_of(self@),
    {
        let chars = hex_string_chars(self.0.as_slice());
        proof {
            lemma_hex_chars_ascii(self@);
        }
        heapless_string_12(&chars)
    }

    /// Parses the bare (12 characters) or separated (17 characters)
    /// hexadecimal rendering of a 48-bit identifier.
    pub fn parse_str(s: &str) -> (r: Result<Eui48, StringToEuiError>)
        ensures
            match r {
                Ok(e) => parse_spec(s@, 6) == Ok::<Seq<u8>, StringToEuiError>(e@),
                Err(err) => parse_spec(s@, 6) == Err::<Seq<u8>, StringToEuiError>(err),
            },
    {
        let mut out: Vec<u8> = Vec::new();
        out.push(0);
        out.push(0);
        out.push(0);
        out.push(0);
        out.push(0);
        out.push(0);
        match string_to_eui(s, &mut out) {
            Ok(()) => {
                let e = Eui48([out[0], out[1], out[2], out[3], out[4], out[5]]);
                proof {
                    lemma_bytes6_view(e.0, out@);
                }
                Ok(e)
            },
            Err(err) => Err(err),
        }
    }
}

impl Eui64 {
    /// Renders the canonical text: sixteen lowercase hexadecimal
    /// characters, two per byte, high nibble first, no separators.
    pub fn to_string(&self) -> (r: heapless::String<16>)
        ensures
            hstr16_chars(r) == hex_chars_of(self@),
    {
        let chars = hex_string_chars(self.0.as_slice());
        proof {
            lemma_hex_chars_ascii(self@);
        }
        heapless_string_16(&chars)
    }

    /// Parses the bare (16 characters) or separated (23 characters)
    /// hexadecimal rendering of a 64-bit identifier.
    pub fn parse_str(s: &str) -> (r: Result<Eui64, StringToEuiError>)
        ensures
            match r {
                Ok(e) => parse_spec(s@, 8) == Ok::<Seq<u8>, StringToEuiError>(e@),
                Err(err) => parse_spec(s@, 8) == Err::<Seq<u8>, StringToEuiError>(err),
            },
    {
        let mut out: Vec<u8> = Vec::new();
        out.push(0);
        out.push(0);
        out.push(0);
        out.push(0);
        out.push(0);
        out.push(0);
        out.push(0);
        out.push(0);
        match string_to_eui(s, &mut out) {
            Ok(()) => {
                let e = Eui64(
                    [out[0], out[1], out[2], out[3], out[4], out[5], out[6], out[7]],
                );
                proof {
                    lemma_bytes8_view(e.0, out@);
                }
                Ok(e)
            },
            Err(err) => Err(err),
        }
    }
}

impl From<u64> for Eui48 {
    /// Takes the low 48 bits of `value`, most significant byte first.
    fn from(value: u64) -> (r: Self) {
        proof {
            assert((value >> 40) & 0xff < 256 && (value >> 32) & 0xff < 256 && (value >> 24)
                & 0xff < 256 && (value >> 16) & 0xff < 256 && (value >> 8) & 0xff < 256 && value
                & 0xff < 256) by (bit_vector);
        }
        let b1: u8 = ((value >> 40) & 0xff) as u8;
        let b2: u8 = ((value >> 32) & 0xff) as u8;
        let b3: u8 = ((value >> 24) & 0xff) as u8;
        let b4: u8 = ((value >> 16) & 0xff) as u8;
        let b5: u8 = ((value >> 8) & 0xff) as u8;
        let b6: u8 = (value & 0xff) as u8;
        let r = Eui48([b1, b2, b3, b4, b5, b6]);
        proof {
            assert(value >> 0 == value) by (bit_vector);
            lemma_bytes6_eq(r.0, bytes6_of(value));
        }
        r
    }
}

impl vstd::std_specs::convert::FromSpecImpl<u64> for Eui48 {
    open spec fn obeys_from_spec() -> bool {
        true
    }

    open spec fn from_spec(value: u64) -> Self {
        Eui48(bytes6_of(value))
    }
}

impl From<u64> for Eui64 {
    /// Takes all 64 bits of `value` as eight big-endian bytes.
    fn from(value: u64) -> (r: Self) {
        proof {
            assert((value >> 56) & 0xff < 256 && (value >> 48) & 0xff < 256 && (value >> 40)
                & 0xff < 256 && (value >> 32) & 0xff < 256 && (value >> 24) & 0xff < 256 && (value
                >> 16) & 0xff < 256 && (value >> 8) & 0xff < 256 && value & 0xff < 256)
                by (bit_vector);
        }
        let b1: u8 = ((value >> 56) & 0xff) as u8;
        let b2: u8 = ((value >> 48) & 0xff) as u8;
        let b3: u8 = ((value >> 40) & 0xff) as u8;
        let b4: u8 = ((value >> 32) & 0xff) as u8;
        let b5: u8 = ((value >> 24) & 0xff) as u8;
        let b6: u8 = ((value >> 16) & 0xff) as u8;
        let b7: u8 = ((value >> 8) & 0xff) as u8;
        let b8: u8 = (value & 0xff) as u8;
        let r = Eui64([b1, b2, b3, b4, b5, b6, b7, b8]);
        proof {
            assert(value >> 0 == value) by (bit_vector);
            lemma_bytes8_eq(r.0, bytes8_of(value));
        }
        r
    }
}

impl vstd::std_specs::convert::FromSpecImpl<u64> for Eui64 {
    open spec fn obeys_from_spec() -> bool {
        true
    }

    open spec fn from_spec(value: u64) -> Self {
        Eui64(bytes8_of(value))
    }
}

impl From<Eui48> for Eui64 {
    /// Widens a 48-bit identifier: the first three bytes are kept, the two
    /// middle bytes are set to zero, the last three bytes are kept.
    fn from(eui48: Eui48) -> (r: Self) {
        let d = eui48.0;
        Eui64([d[0], d[1], d[2], 0, 0, d[3], d[4], d[5]])
    }
}

impl vstd::std_specs::convert::FromSpecImpl<Eui48> for Eui64 {
    open spec fn obeys_from_spec() -> bool {
        true
    }

    open spec fn from_spec(eui48: Eui48) -> Self {
        Eui64(
            [
                eui48.0[0],
                eui48.0[1],
                eui48.0[2],
                0u8,
                0u8,
                eui48.0[3],
                eui48.0[4],
                eui48.0[5],
            ],
        )
    }
}

impl From<Eui48> for u64 {
    /// Reads the six bytes back as the low 48 bits of a 64-bit integer.
    fn from(eui48: Eui48) -> (r: Self) {
        let data = eui48.0;
        ((data[0] as u64) << 40) | ((data[1] as u64) << 32) | ((data[2] as u64) << 24) | ((data[3]
            as u64) << 16) | ((data[4] as u64) << 8) | (data[5] as u64)
    }
}

impl vstd::std_specs::convert::FromSpecImpl<Eui48> for u64 {
    open spec fn obeys_from_spec() -> bool {
        true
    }

    open spec fn from_spec(eui48: Eui48) -> Self {
        u64_of_bytes6(eui48@)
    }
}

impl From<Eui64> for u64 {
    /// Reads the eight bytes back as a big-endian 64-bit integer.
    fn from(eui64: Eui64) -> (r: Self) {
        let data = eui64.0;
        ((data[0] as u64) << 56) | ((data[1] as u64) << 48) | ((data[2] as u64) << 40) | ((data[3]
            as u64) << 32) | ((data[4] as u64) << 24) | ((data[5] as u64) << 16) | ((data[6]
            as u64) << 8) | (data[7] as u64)
    }
}

impl vstd::std_specs::convert::FromSpecImpl<Eui64> for u64 {
    open spec fn obeys_from_spec() -> bool {
        true
    }

    open spec fn from_spec(eui64: Eui64) -> Self {
        u64_of_bytes8(eui64@)
    }
}

} // verus!
