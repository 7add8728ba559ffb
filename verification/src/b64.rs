//! The base64url text form of an identifier, specified mathematically.
//!
//! Nine bytes are 72 bits, which is twelve 6-bit groups exactly, so the
//! text form of an identifier is always 12 characters and never needs
//! padding. The spec functions here say which character stands at each
//! position and which byte each group of characters decodes to; the
//! encoding and decoding themselves are done by the `data-encoding`
//! crate behind the two trusted wrappers at the bottom.

use vstd::prelude::*;

use data_encoding::BASE64URL_NOPAD;

verus! {

/// The 6-bit value of a base64url alphabet character
/// (`A-Z a-z 0-9 - _`), or 64 if the character is outside the alphabet.
pub open spec fn b64_val(c: char) -> int {
    let u = c as int;
    if 'A' as int <= u && u <= 'Z' as int {
        u - 'A' as int
    } else if 'a' as int <= u && u <= 'z' as int {
        u - 'a' as int + 26
    } else if '0' as int <= u && u <= '9' as int {
        u - '0' as int + 52
    } else if u == '-' as int {
        62
    } else if u == '_' as int {
        63
    } else {
        64
    }
}

/// Whether `c` belongs to the base64url alphabet.
pub open spec fn is_b64_char(c: char) -> bool {
    b64_val(c) < 64
}

/// The `j`-th 6-bit group of the byte sequence `b`, read big-endianly:
/// group `j` covers bits `6*j .. 6*j + 6` of the concatenated bytes.
pub open spec fn sextet(b: Seq<u8>, j: int) -> u8 {
    let b0 = b[3 * (j / 4)];
    let b1 = b[3 * (j / 4) + 1];
    let b2 = b[3 * (j / 4) + 2];
    if j % 4 == 0 {
        b0 >> 2
    } else if j % 4 == 1 {
        ((b0 & 3) << 4) | (b1 >> 4)
    } else if j % 4 == 2 {
        ((b1 & 15) << 2) | (b2 >> 6)
    } else {
        b2 & 63
    }
}

/// `s` is the base64url-no-padding text of the bytes `b`: four characters
/// for every three bytes, each carrying one 6-bit group.
pub open spec fn encodes(b: Seq<u8>, s: Seq<char>) -> bool {
    &&& b.len() % 3 == 0
    &&& s.len() == b.len() / 3 * 4
    &&& forall|j: int| 0 <= j < s.len() ==> b64_val(#[trigger] s[j]) == sextet(b, j) as int
}

/// The texts that parse into an identifier: exactly 12 characters, all of
/// the base64url alphabet. (A 12-character group is three full byte
/// triples, so no trailing-bit condition arises.)
pub open spec fn valid_id_text(s: Seq<char>) -> bool {
    &&& s.len() == 12
    &&& forall|i: int| 0 <= i < s.len() ==> is_b64_char(#[trigger] s[i])
}

/// The texts that base64url-no-padding decoding accepts, of any length:
/// no character outside the alphabet, no length of 1 modulo 4 (6 bits do
/// not make a byte), and zero trailing bits in a final partial group.
pub open spec fn nopad_valid(s: Seq<char>) -> bool {
    &&& s.len() % 4 != 1
    &&& forall|i: int| 0 <= i < s.len() ==> is_b64_char(#[trigger] s[i])
    &&& (s.len() % 4 == 2 ==> b64_val(s[s.len() - 1]) % 16 == 0)
    &&& (s.len() % 4 == 3 ==> b64_val(s[s.len() - 1]) % 4 == 0)
}

/// How many bytes a valid text of `n` characters decodes to: three for
/// every full group of four, plus one or two for a final partial group.
pub open spec fn decoded_len(n: int) -> int {
    n / 4 * 3 + if n % 4 == 2 {
        1int
    } else if n % 4 == 3 {
        2int
    } else {
        0int
    }
}

/// The `i`-th byte that a valid 12-character text decodes to, rebuilt
/// from the 6-bit values of the four characters of its group.
pub open spec fn decoded_byte(s: Seq<char>, i: int) -> u8 {
    let v0 = b64_val(s[4 * (i / 3)]) as u8;
    let v1 = b64_val(s[4 * (i / 3) + 1]) as u8;
    let v2 = b64_val(s[4 * (i / 3) + 2]) as u8;
    let v3 = b64_val(s[4 * (i / 3) + 3]) as u8;
    if i % 3 == 0 {
        (v0 << 2) | (v1 >> 4)
    } else if i % 3 == 1 {
        ((v1 & 15) << 4) | (v2 >> 2)
    } else {
        ((v2 & 3) << 6) | v3
    }
}

/// The nine bytes behind a valid 12-character text.
pub open spec fn decoded_bytes(s: Seq<char>) -> Seq<u8> {
    Seq::new(9, |i: int| decoded_byte(s, i))
}

/// Every 6-bit group is below 64, hence a character of the alphabet.
pub proof fn lemma_sextet_range(b: Seq<u8>, j: int)
    requires
        0 <= j,
        3 * (j / 4) + 2 < b.len(),
    ensures
        sextet(b, j) < 64,
{
    let b0 = b[3 * (j / 4)];
    let b1 = b[3 * (j / 4) + 1];
    let b2 = b[3 * (j / 4) + 2];
    assert((b0 >> 2) < 64 && (((b0 & 3) << 4) | (b1 >> 4)) < 64 && (((b1 & 15) << 2) | (b2 >> 6))
        < 64 && (b2 & 63) < 64) by (bit_vector);
}

/// A byte triple is recovered exactly from its four 6-bit groups.
proof fn lemma_triple_inverse(b0: u8, b1: u8, b2: u8)
    ensures
        ((b0 >> 2) << 2) | ((((b0 & 3) << 4) | (b1 >> 4)) >> 4) == b0,
        (((((b0 & 3) << 4) | (b1 >> 4)) & 15) << 4) | ((((b1 & 15) << 2) | (b2 >> 6)) >> 2) == b1,
        (((((b1 & 15) << 2) | (b2 >> 6)) & 3) << 6) | (b2 & 63) == b2,
{
    assert(((b0 >> 2) << 2) | ((((b0 & 3) << 4) | (b1 >> 4)) >> 4) == b0) by (bit_vector);
    assert((((((b0 & 3) << 4) | (b1 >> 4)) & 15) << 4) | ((((b1 & 15) << 2) | (b2 >> 6)) >> 2)
        == b1) by (bit_vector);
    assert((((((b1 & 15) << 2) | (b2 >> 6)) & 3) << 6) | (b2 & 63) == b2) by (bit_vector);
}

/// A text determines the bytes it encodes: whatever nine bytes stand
/// behind `s`, they are `decoded_bytes(s)`.
pub proof fn lemma_encodes_determines(b: Seq<u8>, s: Seq<char>)
    requires
        b.len() == 9,
        encodes(b, s),
    ensures
        b == decoded_bytes(s),
{
    assert forall|i: int| 0 <= i < 9 implies decoded_bytes(s)[i] == b[i] by {
        let g = i / 3;
        let b0 = b[3 * g];
        let b1 = b[3 * g + 1];
        let b2 = b[3 * g + 2];
        assert(b64_val(s[4 * g]) == sextet(b, 4 * g) as int);
        assert(b64_val(s[4 * g + 1]) == sextet(b, 4 * g + 1) as int);
        assert(b64_val(s[4 * g + 2]) == sextet(b, 4 * g + 2) as int);
        assert(b64_val(s[4 * g + 3]) == sextet(b, 4 * g + 3) as int);
        assert((4 * g) / 4 == g && (4 * g) % 4 == 0);
        assert((4 * g + 1) / 4 == g && (4 * g + 1) % 4 == 1);
        assert((4 * g + 2) / 4 == g && (4 * g + 2) % 4 == 2);
        assert((4 * g + 3) / 4 == g && (4 * g + 3) % 4 == 3);
        lemma_triple_inverse(b0, b1, b2);
    }
    assert(b =~= decoded_bytes(s));
}

/// Law: two identifiers with the same text are the same bytes. Together
/// with `lemma_encodes_valid` this is the round trip: the text of any
/// nine bytes parses, and parses back to those bytes alone.
pub proof fn lemma_encodes_injective(b1: Seq<u8>, b2: Seq<u8>, s: Seq<char>)
    requires
        b1.len() == 9,
        b2.len() == 9,
        encodes(b1, s),
        encodes(b2, s),
    ensures
        b1 == b2,
{
    lemma_encodes_determines(b1, s);
    lemma_encodes_determines(b2, s);
}

/// Law: the text of nine bytes is a valid identifier text, so parsing it
/// is owed to succeed.
pub proof fn lemma_encodes_valid(b: Seq<u8>, s: Seq<char>)
    requires
        b.len() == 9,
        encodes(b, s),
    ensures
        valid_id_text(s),
{
    assert forall|i: int| 0 <= i < s.len() implies is_b64_char(s[i]) by {
        assert(b64_val(s[i]) == sextet(b, i) as int);
        lemma_sextet_range(b, i);
    }
}

/// Distinct alphabet characters carry distinct 6-bit values.
pub proof fn lemma_b64_val_injective(c1: char, c2: char)
    requires
        b64_val(c1) < 64,
        b64_val(c2) < 64,
        b64_val(c1) == b64_val(c2),
    ensures
        c1 == c2,
{
    assert(c1 as int == c2 as int);
}

/// Law: nine bytes have one text. Whatever two texts stand for the same
/// bytes, they are the same characters; together with the injectivity of
/// parsing, the encoding is a bijection between nine-byte values and
/// valid identifier texts.
pub proof fn lemma_text_unique(b: Seq<u8>, s1: Seq<char>, s2: Seq<char>)
    requires
        b.len() == 9,
        encodes(b, s1),
        encodes(b, s2),
    ensures
        s1 == s2,
{
    assert forall|j: int| 0 <= j < 12 implies s1[j] == s2[j] by {
        lemma_sextet_range(b, j);
        lemma_b64_val_injective(s1[j], s2[j]);
    }
    assert(s1 =~= s2);
}

/// Relies on data_encoding::BASE64URL_NOPAD.encode: the base64url text of
/// the input bytes, one character per 6-bit group, without padding.
#[verifier::external_body]
pub(crate) fn encode_b64(bytes: &[u8]) -> (r: String)
    requires
        bytes@.len() == 9,
    ensures
        encodes(bytes@, r@),
{
    BASE64URL_NOPAD.encode(bytes)
}

#[verifier::external_type_specification]
#[verifier::external_body]
pub struct ExDecodeError(data_encoding::DecodeError);

/// Relies on data_encoding::BASE64URL_NOPAD.decode: succeeds exactly on
/// the canonical no-padding texts (alphabet characters, a possible
/// length, zero trailing bits), and returns the decoded bytes.
#[verifier::external_body]
pub(crate) fn decode_b64(s: &str) -> (r: Result<Vec<u8>, data_encoding::DecodeError>)
    ensures
        r is Ok <==> nopad_valid(s@),
        r matches Ok(v) ==> v@.len() == decoded_len(s@.len() as int),
        r matches Ok(v) ==> s@.len() % 4 == 0 ==> encodes(v@, s@),
{
    BASE64URL_NOPAD.decode(s.as_bytes())
}

} // verus!
