//! Syntactic validation of base64 text.
//!
//! A fast pre-filter applied to user input before any decoding: it accepts
//! exactly the strings whose bytes all belong to the base64 alphabet and
//! whose trailing padding is at most two symbols.  Passing the filter does
//! not guarantee that the text decodes.

use vstd::prelude::*;
use vstd::string::StringSliceAdditionalSpecFns;

use crate::errors::Base64Issue;
use crate::errors::TokenProviderError;

verus! {

/// True for the bytes of the base64 alphabet: letters, digits, `+`, `/`,
/// and the padding symbol `=`.
pub open spec fn is_base64_byte(b: u8) -> bool {
    (0x41u8 <= b <= 0x5au8) || (0x61u8 <= b <= 0x7au8) || (0x30u8 <= b <= 0x39u8) || b == 0x2bu8 || b == 0x2fu8
        || b == 0x3du8
}

/// True when every byte of the text belongs to the base64 alphabet.
pub open spec fn all_base64_bytes(s: Seq<u8>) -> bool {
    forall|i: int| 0 <= i < s.len() ==> is_base64_byte(#[trigger] s[i])
}

/// The number of padding bytes (`=`) at the end of the text.
pub open spec fn trailing_padding(s: Seq<u8>) -> nat
    decreases s.len(),
{
    if s.len() == 0 || s.last() != 0x3du8 {
        0
    } else {
        trailing_padding(s.drop_last()) + 1
    }
}

/// When the last `p` bytes are padding and the byte before them is not,
/// the trailing padding count is exactly `p`.
proof fn lemma_trailing_padding_count(s: Seq<u8>, p: int)
    requires
        0 <= p <= s.len(),
        forall|q: int| s.len() - p <= q < s.len() ==> s[q] == 0x3du8,
        p == s.len() || s[s.len() - 1 - p] != 0x3du8,
    ensures
        trailing_padding(s) == p,
    decreases p,
{
    if p == 0 {
    } else {
        assert(s.last() == 0x3du8);
        lemma_trailing_padding_count(s.drop_last(), p - 1);
    }
}

/// When the last `p` bytes are all padding, the trailing padding count is at
/// least `p`.
proof fn lemma_trailing_padding_lower(s: Seq<u8>, p: int)
    requires
        0 <= p <= s.len(),
        forall|q: int| s.len() - p <= q < s.len() ==> s[q] == 0x3du8,
    ensures
        trailing_padding(s) >= p,
    decreases p,
{
    if p > 0 {
        assert(s.last() == 0x3du8);
        lemma_trailing_padding_lower(s.drop_last(), p - 1);
    }
}

/// Syntactic pre-check of base64 text: accepts exactly the strings made of
/// alphabet bytes with at most two trailing padding symbols.  A byte outside
/// the alphabet is reported before excessive padding is.
#[verifier::loop_isolation(false)]
pub fn validate_base64_format(input: &str) -> (r: Result<(), TokenProviderError>)
    ensures
        r is Ok <==> (all_base64_bytes(input.spec_bytes()) && trailing_padding(input.spec_bytes())
            <= 2),
        !all_base64_bytes(input.spec_bytes()) ==> r == Err::<(), TokenProviderError>(
            TokenProviderError::InvalidBase64(Base64Issue::InvalidByte(0, 0)),
        ),
        (all_base64_bytes(input.spec_bytes()) && trailing_padding(input.spec_bytes()) > 2) ==> r
            == Err::<(), TokenProviderError>(
            TokenProviderError::InvalidBase64(Base64Issue::InvalidPadding),
        ),
{
    let bytes = input.as_bytes();
    let n = bytes.len();
    let mut i: usize = 0;
    while i < n
        invariant
            i <= n,
            forall|j: int| 0 <= j < i ==> is_base64_byte(#[trigger] bytes@[j]),
        decreases n - i,
    {
        let c = bytes[i];
        let in_alphabet = (c >= 0x41u8 && c <= 0x5au8) || (c >= 0x61u8 && c <= 0x7au8) || (c >= 0x30u8 && c
            <= 0x39u8) || c == 0x2bu8 || c == 0x2fu8 || c == 0x3du8;
        if !in_alphabet {
            return Err(TokenProviderError::InvalidBase64(Base64Issue::InvalidByte(0, 0)));
        }
        i = i + 1;
    }
    let mut pad: usize = 0;
    while pad < n && bytes[n - 1 - pad] == 0x3du8
        invariant
            pad <= n,
            pad <= 2,
            forall|q: int| n - pad <= q < n ==> bytes@[q] == 0x3du8,
        decreases n - pad,
    {
        pad = pad + 1;
        if pad > 2 {
            proof {
                lemma_trailing_padding_lower(bytes@, pad as int);
            }
            return Err(TokenProviderError::InvalidBase64(Base64Issue::InvalidPadding));
        }
    }
    proof {
        lemma_trailing_padding_count(bytes@, pad as int);
    }
    Ok(())
}

/// True for the ASCII whitespace bytes the confirmation prompt strips.
pub open spec fn is_ascii_space(b: u8) -> bool {
    b == 0x20 || b == 0x09 || b == 0x0a || b == 0x0b || b == 0x0c || b == 0x0d
}

/// The text with leading and trailing ASCII whitespace removed.
pub open spec fn trimmed(s: Seq<u8>) -> Seq<u8>
    decreases s.len(),
{
    if s.len() > 0 && is_ascii_space(s.first()) {
        trimmed(s.drop_first())
    } else if s.len() > 0 && is_ascii_space(s.last()) {
        trimmed(s.drop_last())
    } else {
        s
    }
}

/// The byte with an upper-case letter folded to lower case.
pub open spec fn lower_byte(b: u8) -> u8 {
    if 0x41 <= b <= 0x5a {
        (b + 0x20) as u8
    } else {
        b
    }
}

/// True when the text, trimmed and folded to lower case, reads `y` or `yes`.
pub open spec fn affirmative(s: Seq<u8>) -> bool {
    let t = trimmed(s).map_values(|b: u8| lower_byte(b));
    t == seq![0x79u8] || t == seq![0x79u8, 0x65u8, 0x73u8]
}

/// The trimmed text is the subrange left between the whitespace prefix and
/// the whitespace suffix.
proof fn lemma_trimmed_bounds(s: Seq<u8>, lo: int, hi: int)
    requires
        0 <= lo <= hi <= s.len(),
        forall|i: int| 0 <= i < lo ==> is_ascii_space(#[trigger] s[i]),
        forall|i: int| hi <= i < s.len() ==> is_ascii_space(#[trigger] s[i]),
        lo < hi ==> !is_ascii_space(s[lo]) && !is_ascii_space(s[hi - 1]),
    ensures
        trimmed(s) == s.subrange(lo, hi),
    decreases s.len(),
{
    if s.len() > 0 && is_ascii_space(s.first()) {
        if lo == hi {
            lemma_trimmed_bounds(s.drop_first(), 0, 0);
            assert(s.subrange(lo, hi) =~= s.drop_first().subrange(0, 0));
        } else {
            lemma_trimmed_bounds(s.drop_first(), lo - 1, hi - 1);
            assert(s.drop_first().subrange(lo - 1, hi - 1) =~= s.subrange(lo, hi));
        }
    } else if s.len() > 0 && is_ascii_space(s.last()) {
        if lo == hi {
            lemma_trimmed_bounds(s.drop_last(), 0, 0);
            assert(s.subrange(lo, hi) =~= s.drop_last().subrange(0, 0));
        } else {
            lemma_trimmed_bounds(s.drop_last(), lo, hi);
            assert(s.drop_last().subrange(lo, hi) =~= s.subrange(lo, hi));
        }
    } else {
        assert(s.subrange(lo, hi) =~= s);
    }
}

/// Whitespace test over bytes.
fn is_space_byte(b: u8) -> (r: bool)
    ensures
        r == is_ascii_space(b),
{
    b == 0x20 || b == 0x09 || b == 0x0a || b == 0x0b || b == 0x0c || b == 0x0d
}

/// Lower-case folding over bytes.
fn to_lower_byte(b: u8) -> (r: u8)
    ensures
        r == lower_byte(b),
{
    if b >= 0x41 && b <= 0x5a {
        b + 0x20
    } else {
        b
    }
}

/// The decision behind the self-deletion confirmation: true exactly when the
/// answer, trimmed of surrounding whitespace, reads `y` or `yes` in any
/// letter case.
#[verifier::loop_isolation(false)]
pub fn is_affirmative(answer: &str) -> (r: bool)
    ensures
        r == affirmative(answer.spec_bytes()),
{
    let bytes = answer.as_bytes();
    let n = bytes.len();
    let mut lo: usize = 0;
    while lo < n && is_space_byte(bytes[lo])
        invariant
            lo <= n,
            forall|i: int| 0 <= i < lo ==> is_ascii_space(#[trigger] bytes@[i]),
        decreases n - lo,
    {
        lo = lo + 1;
    }
    let mut hi: usize = n;
    while hi > lo && is_space_byte(bytes[hi - 1])
        invariant
            lo <= hi <= n,
            forall|i: int| hi <= i < n ==> is_ascii_space(#[trigger] bytes@[i]),
        decreases hi,
    {
        hi = hi - 1;
    }
    proof {
        lemma_trimmed_bounds(bytes@, lo as int, hi as int);
    }
    let ghost t = trimmed(bytes@).map_values(|b: u8| lower_byte(b));
    if hi - lo == 1 {
        let matched = to_lower_byte(bytes[lo]) == 0x79u8;
        proof {
            assert(t.len() == 1);
            assert(t[0] == lower_byte(bytes@[lo as int]));
            if matched {
                assert(t =~= seq![0x79u8]);
            }
        }
        matched
    } else if hi - lo == 3 {
        let matched = to_lower_byte(bytes[lo]) == 0x79u8 && to_lower_byte(bytes[lo + 1]) == 0x65u8
            && to_lower_byte(bytes[lo + 2]) == 0x73u8;
        proof {
            assert(t.len() == 3);
            assert(t[0] == lower_byte(bytes@[lo as int]));
            assert(t[1] == lower_byte(bytes@[lo as int + 1]));
            assert(t[2] == lower_byte(bytes@[lo as int + 2]));
            if matched {
                assert(t =~= seq![0x79u8, 0x65u8, 0x73u8]);
            }
        }
        matched
    } else {
        proof {
            assert(t.len() != 1 && t.len() != 3);
        }
        false
    }
}

} // verus!
