//! The text-to-binary parser: detects the textual format (bare or separated
//! hexadecimal), validates every character and the separator cadence, and
//! decodes the input into a caller-supplied byte buffer in a single pass.
use vstd::prelude::*;
use vstd::string::StrSliceExecFns;

use crate::hex::{byte_of_pair, hex_char_to_nibble, is_hex_digit, nibble_of_char};

verus! {

/// The outcome of a failed parse: exactly one distinguished failure kind.
#[derive(Clone, Copy, PartialEq, Eq, Debug)]
pub enum StringToEuiError {
    /// The input length is neither the bare nor the separated form's length.
    InvalidLength { length: usize },
    /// A character is neither a hexadecimal digit nor a recognized separator
    /// where one of those was expected.
    InvalidChar { c: char },
    /// A separator, or its absence, breaks the pair-separator cadence.
    InvalidSeparatorPlace,
    /// Both recognized separator characters appear in the same input.
    OnlyOneSeparatorTypeExpected,
}

/// `c` is one of the two recognized separator characters.
pub open spec fn is_separator(c: char) -> bool {
    c == ':' || c == '-'
}

/// Tells whether `c` is one of the two recognized separator characters.
pub fn is_separator_char(c: char) -> (r: bool)
    ensures
        r == is_separator(c),
{
    c == ':' || c == '-'
}

/// `s` is a well-formed bare rendering of `n` bytes: `2n` hexadecimal digits.
pub open spec fn valid_bare(s: Seq<char>, n: nat) -> bool {
    s.len() == 2 * n && (forall|i: int| 0 <= i < s.len() ==> is_hex_digit(#[trigger] s[i]))
}

/// In the separated form, position `i` carries what the cadence demands
/// there: a hexadecimal digit, or the input's single separator character
/// (the one at position 2) at every third position.
pub open spec fn sep_good_at(s: Seq<char>, i: int) -> bool {
    if i % 3 == 2 {
        is_separator(s[i]) && s[i] == s[2]
    } else {
        is_hex_digit(s[i])
    }
}

/// `s` is a well-formed separated rendering of `n` bytes: `n` digit pairs
/// joined by `n - 1` copies of one separator character.
pub open spec fn valid_sep(s: Seq<char>, n: nat) -> bool {
    s.len() + 1 == 3 * n && (forall|i: int| 0 <= i < s.len() ==> sep_good_at(s, i))
}

/// The bytes encoded by a well-formed bare rendering.
pub open spec fn decode_bare(s: Seq<char>) -> Seq<u8> {
    Seq::new(s.len() / 2, |i: int| byte_of_pair(s[2 * i], s[2 * i + 1]))
}

/// The bytes encoded by a well-formed separated rendering.
pub open spec fn decode_sep(s: Seq<char>) -> Seq<u8> {
    Seq::new((s.len() + 1) / 3, |i: int| byte_of_pair(s[3 * i], s[3 * i + 1]))
}

/// `j` is the first position of `s` that is not a hexadecimal digit.
pub open spec fn first_bad_bare(s: Seq<char>, j: int) -> bool {
    0 <= j < s.len() && !is_hex_digit(s[j]) && (forall|k: int|
        0 <= k < j ==> is_hex_digit(#[trigger] s[k]))
}

/// `j` is the first position of `s` that breaks the separated form.
pub open spec fn first_bad_sep(s: Seq<char>, j: int) -> bool {
    0 <= j < s.len() && !sep_good_at(s, j) && (forall|k: int|
        0 <= k < j ==> #[trigger] sep_good_at(s, k))
}

/// The error reported for a bare-length input whose first offending
/// position is `j`: a separator there is misplaced, anything else that is
/// not a digit is an invalid character.
pub open spec fn bare_error_at(s: Seq<char>, j: int) -> StringToEuiError {
    if is_separator(s[j]) {
        StringToEuiError::InvalidSeparatorPlace
    } else {
        StringToEuiError::InvalidChar { c: s[j] }
    }
}

/// The error reported for a separated-length input whose first offending
/// position is `j`. A digit standing where the cadence demands a separator
/// is misplaced; a separator that differs from the one already established
/// (the input's first separator, at position 2) mixes the two kinds; any
/// other separator is misplaced; anything else is an invalid character.
pub open spec fn sep_error_at(s: Seq<char>, j: int) -> StringToEuiError {
    if is_hex_digit(s[j]) {
        StringToEuiError::InvalidSeparatorPlace
    } else if is_separator(s[j]) {
        if j >= 3 && s[j] != s[2] {
            StringToEuiError::OnlyOneSeparatorTypeExpected
        } else {
            StringToEuiError::InvalidSeparatorPlace
        }
    } else {
        StringToEuiError::InvalidChar { c: s[j] }
    }
}

/// What parsing `s` into `n` bytes yields: the decoded bytes, or the one
/// error the first offending position earns. A length that fits neither
/// form is rejected outright, reporting that length.
pub open spec fn parse_spec(s: Seq<char>, n: nat) -> Result<Seq<u8>, StringToEuiError> {
    if s.len() != 2 * n && s.len() + 1 != 3 * n {
        Err(StringToEuiError::InvalidLength { length: s.len() as usize })
    } else if s.len() == 2 * n {
        if valid_bare(s, n) {
            Ok(decode_bare(s))
        } else {
            Err(bare_error_at(s, choose|j: int| first_bad_bare(s, j)))
        }
    } else {
        if valid_sep(s, n) {
            Ok(decode_sep(s))
        } else {
            Err(sep_error_at(s, choose|j: int| first_bad_sep(s, j)))
        }
    }
}

/// At most one position can be the first offending one of the bare form.
pub proof fn lemma_first_bad_bare_unique(s: Seq<char>, j1: int, j2: int)
    requires
        first_bad_bare(s, j1),
        first_bad_bare(s, j2),
    ensures
        j1 == j2,
{
    if j1 < j2 {
        assert(is_hex_digit(s[j1]));
    } else if j2 < j1 {
        assert(is_hex_digit(s[j2]));
    }
}

/// At most one position can be the first offending one of the separated form.
pub proof fn lemma_first_bad_sep_unique(s: Seq<char>, j1: int, j2: int)
    requires
        first_bad_sep(s, j1),
        first_bad_sep(s, j2),
    ensures
        j1 == j2,
{
    if j1 < j2 {
        assert(sep_good_at(s, j1));
    } else if j2 < j1 {
        assert(sep_good_at(s, j2));
    }
}

/// For a bare-length input, the first offending position determines the
/// parse result: the error that position earns.
pub proof fn lemma_parse_spec_bare_err(s: Seq<char>, n: nat, j: int)
    requires
        s.len() == 2 * n,
        first_bad_bare(s, j),
    ensures
        parse_spec(s, n) == Err::<Seq<u8>, StringToEuiError>(bare_error_at(s, j)),
{
    assert(!valid_bare(s, n));
    let jc = choose|jj: int| first_bad_bare(s, jj);
    assert(first_bad_bare(s, jc));
    lemma_first_bad_bare_unique(s, j, jc);
}

/// For a separated-length input, the first offending position determines
/// the parse result: the error that position earns.
pub proof fn lemma_parse_spec_sep_err(s: Seq<char>, n: nat, j: int)
    requires
        s.len() + 1 == 3 * n,
        s.len() != 2 * n,
        first_bad_sep(s, j),
    ensures
        parse_spec(s, n) == Err::<Seq<u8>, StringToEuiError>(sep_error_at(s, j)),
{
    assert(!valid_sep(s, n));
    let jc = choose|jj: int| first_bad_sep(s, jj);
    assert(first_bad_sep(s, jc));
    lemma_first_bad_sep_unique(s, j, jc);
}

/// Parses `s` into `out`, whose length selects the expected width: the
/// input must be exactly `2 * out.len()` bare hexadecimal digits or
/// `3 * out.len() - 1` characters of digit pairs joined by one separator
/// kind. On success every byte of `out` is the decoded value; on failure
/// the result is the one error `parse_spec` assigns, and only the length
/// of `out` is promised.
pub fn string_to_eui(s: &str, out: &mut Vec<u8>) -> (r: Result<(), StringToEuiError>)
    ensures
        final(out)@.len() == old(out)@.len(),
        match r {
            Ok(()) => parse_spec(s@, old(out)@.len() as nat) == Ok::<Seq<u8>, StringToEuiError>(
                final(out)@,
            ),
            Err(e) => parse_spec(s@, old(out)@.len() as nat) == Err::<Seq<u8>, StringToEuiError>(e),
        },
{
    let n = out.len();
    let len = s.unicode_len();
    let bare_ok = len % 2 == 0 && len / 2 == n;
    let sep_ok = len % 3 == 2 && len / 3 + 1 == n;
    if !bare_ok && !sep_ok {
        return Err(StringToEuiError::InvalidLength { length: len });
    }
    if bare_ok {
        let mut i: usize = 0;
        while i < n
            invariant
                out@.len() == n,
                n == old(out)@.len(),
                s@.len() == 2 * n,
                s@.len() <= usize::MAX,
                i <= n,
                forall|k: int| 0 <= k < 2 * i ==> is_hex_digit(#[trigger] s@[k]),
                forall|k: int|
                    0 <= k < i ==> out@[k] == byte_of_pair(s@[2 * k], s@[2 * k + 1]),
            decreases n - i,
        {
            let c1 = s.get_char(2 * i);
            match hex_char_to_nibble(c1) {
                None => {
                    proof {
                        let j = 2 * (i as int);
                        assert(first_bad_bare(s@, j));
                        lemma_parse_spec_bare_err(s@, n as nat, j);
                    }
                    if is_separator_char(c1) {
                        return Err(StringToEuiError::InvalidSeparatorPlace);
                    } else {
                        return Err(StringToEuiError::InvalidChar { c: c1 });
                    }
                },
                Some(hi) => {
                    let c2 = s.get_char(2 * i + 1);
                    match hex_char_to_nibble(c2) {
                        None => {
                            proof {
                                let j = 2 * (i as int) + 1;
                                assert(first_bad_bare(s@, j));
                                lemma_parse_spec_bare_err(s@, n as nat, j);
                            }
                            if is_separator_char(c2) {
                                return Err(StringToEuiError::InvalidSeparatorPlace);
                            } else {
                                return Err(StringToEuiError::InvalidChar { c: c2 });
                            }
                        },
                        Some(lo) => {
                            out.set(i, hi * 16 + lo);
                            i += 1;
                        },
                    }
                },
            }
        }
        proof {
            assert(valid_bare(s@, n as nat));
            assert(out@ =~= decode_bare(s@));
        }
        Ok(())
    } else {
        let mut i: usize = 0;
        let mut established: Option<char> = None;
        while i < n
            invariant
                out@.len() == n,
                n == old(out)@.len(),
                s@.len() + 1 == 3 * n,
                s@.len() != 2 * n,
                s@.len() <= usize::MAX,
                i <= n,
                forall|k: int| 0 <= k < 3 * i && k < s@.len() ==> #[trigger] sep_good_at(s@, k),
                match established {
                    Some(e) => 1 <= i && 2 <= n && e == s@[2] && is_separator(e),
                    None => i == 0 || n == 1,
                },
                forall|k: int|
                    0 <= k < i ==> out@[k] == byte_of_pair(s@[3 * k], s@[3 * k + 1]),
            decreases n - i,
        {
            let c1 = s.get_char(3 * i);
            match hex_char_to_nibble(c1) {
                None => {
                    proof {
                        let j = 3 * (i as int);
                        assert(first_bad_sep(s@, j));
                        lemma_parse_spec_sep_err(s@, n as nat, j);
                    }
                    if is_separator_char(c1) {
                        match established {
                            Some(e) => {
                                if c1 != e {
                                    return Err(StringToEuiError::OnlyOneSeparatorTypeExpected);
                                } else {
                                    return Err(StringToEuiError::InvalidSeparatorPlace);
                                }
                            },
                            None => {
                                return Err(StringToEuiError::InvalidSeparatorPlace);
                            },
                        }
                    } else {
                        return Err(StringToEuiError::InvalidChar { c: c1 });
                    }
                },
                Some(hi) => {
                    let c2 = s.get_char(3 * i + 1);
                    match hex_char_to_nibble(c2) {
                        None => {
                            proof {
                                let j = 3 * (i as int) + 1;
                                assert(first_bad_sep(s@, j));
                                lemma_parse_spec_sep_err(s@, n as nat, j);
                            }
                            if is_separator_char(c2) {
                                match established {
                                    Some(e) => {
                                        if c2 != e {
                                            return Err(
                                                StringToEuiError::OnlyOneSeparatorTypeExpected,
                                            );
                                        } else {
                                            return Err(StringToEuiError::InvalidSeparatorPlace);
                                        }
                                    },
                                    None => {
                                        return Err(StringToEuiError::InvalidSeparatorPlace);
                                    },
                                }
                            } else {
                                return Err(StringToEuiError::InvalidChar { c: c2 });
                            }
                        },
                        Some(lo) => {
                            out.set(i, hi * 16 + lo);
                            if i + 1 < n {
                                let cs = s.get_char(3 * i + 2);
                                if is_separator_char(cs) {
                                    match established {
                                        None => {
                                            established = Some(cs);
                                        },
                                        Some(e) => {
                                            if cs != e {
                                                proof {
                                                    let j = 3 * (i as int) + 2;
                                                    assert(first_bad_sep(s@, j));
                                                    lemma_parse_spec_sep_err(s@, n as nat, j);
                                                }
                                                return Err(
                                                    StringToEuiError::OnlyOneSeparatorTypeExpected,
                                                );
                                            }
                                        },
                                    }
                                } else {
                                    proof {
                                        let j = 3 * (i as int) + 2;
                                        assert(first_bad_sep(s@, j));
                                        lemma_parse_spec_sep_err(s@, n as nat, j);
                                    }
                                    match hex_char_to_nibble(cs) {
                                        Some(_) => {
                                            return Err(StringToEuiError::InvalidSeparatorPlace);
                                        },
                                        None => {
                                            return Err(StringToEuiError::InvalidChar { c: cs });
                                        },
                                    }
                                }
                            }
                            i += 1;
                        },
                    }
                },
            }
        }
        proof {
            assert(valid_sep(s@, n as nat));
            assert(out@ =~= decode_sep(s@));
        }
        Ok(())
    }
}

} // verus!
