//! Compact, collision-resistant unique identifiers.
//!
//! An identifier is a fixed 9-byte value: a 4-byte big-endian time-derived
//! seed followed by 5 random bytes. Its text form is the base64url
//! encoding of those 9 bytes, without padding, which is always exactly
//! 12 characters.

pub mod b64;
mod generator;
mod seed;

use vstd::prelude::*;

use core::cmp::Ordering;
use rand::RngCore;

pub use generator::Generator;
pub use seed::Seed;

use b64::decode_b64;
use b64::decoded_bytes;
use b64::encode_b64;
use b64::encodes;
use b64::nopad_valid;
use b64::valid_id_text;
use seed::u32_be_bytes;

verus! {

/// Why a text failed to parse into an identifier.
#[derive(Clone, Copy, Debug, PartialEq, Eq, Structural)]
pub enum ParseError {
    /// The text is not valid base64url without padding.
    InvalidEncoding,
    /// The text decoded to some number of bytes other than nine.
    WrongLength,
}

/// The all-zero value of the nine identifier bytes.
pub open spec fn zero_bytes() -> Seq<u8> {
    Seq::new(9, |i: int| 0u8)
}

/// The bytes an identifier text stands for under the lenient conversion:
/// the decoded bytes where the text parses, the zero value where it
/// does not.
pub open spec fn lenient_bytes(s: Seq<char>) -> Seq<u8> {
    if valid_id_text(s) {
        decoded_bytes(s)
    } else {
        zero_bytes()
    }
}

/// The identifier: nine bytes, a 4-byte big-endian seed followed by a
/// 5-byte random tail. An immutable value type; equality, ordering and
/// hashing all go by the nine raw bytes.
#[derive(Eq, Copy, Clone, Debug, Hash)]
#[verifier::ext_equal]
pub struct MinimalId {
    value: [u8; 9],
}

/// The lexicographic order on byte sequences: the first differing byte
/// decides, a proper prefix comes first.
pub open spec fn lex_cmp(a: Seq<u8>, b: Seq<u8>) -> Ordering
    decreases a.len(),
{
    if a.len() == 0 && b.len() == 0 {
        Ordering::Equal
    } else if a.len() == 0 {
        Ordering::Less
    } else if b.len() == 0 {
        Ordering::Greater
    } else if a[0] < b[0] {
        Ordering::Less
    } else if a[0] > b[0] {
        Ordering::Greater
    } else {
        lex_cmp(a.drop_first(), b.drop_first())
    }
}

/// Sequences that agree on their first `i` elements compare as their
/// remainders do.
proof fn lemma_lex_cmp_skip(a: Seq<u8>, b: Seq<u8>, i: int)
    requires
        0 <= i <= a.len(),
        i <= b.len(),
        forall|k: int| 0 <= k < i ==> a[k] == b[k],
    ensures
        lex_cmp(a, b) == lex_cmp(a.skip(i), b.skip(i)),
    decreases i,
{
    if i > 0 {
        assert(a[0] == b[0]);
        assert forall|k: int| 0 <= k < i - 1 implies a.drop_first()[k] == b.drop_first()[k] by {
            assert(a.drop_first()[k] == a[k + 1]);
        }
        lemma_lex_cmp_skip(a.drop_first(), b.drop_first(), i - 1);
        assert(a.drop_first().skip(i - 1) =~= a.skip(i));
        assert(b.drop_first().skip(i - 1) =~= b.skip(i));
    } else {
        assert(a.skip(0) =~= a);
        assert(b.skip(0) =~= b);
    }
}

impl View for MinimalId {
    type V = Seq<u8>;

    closed spec fn view(&self) -> Seq<u8> {
        self.value@
    }
}

impl Default for MinimalId {
    /// Creates the empty (all-zero) identifier, whose text is
    /// twelve `A` characters.
    fn default() -> (r: Self)
        ensures
            r@ == zero_bytes(),
    {
        let r = MinimalId { value: [0; 9] };
        proof {
            assert(r@ =~= zero_bytes());
        }
        r
    }
}

impl PartialEq for MinimalId {
    fn eq(&self, rhs: &Self) -> (r: bool) {
        let mut i: usize = 0;
        while i < 9
            invariant
                i <= 9,
                forall|k: int| 0 <= k < i ==> self.value@[k] == rhs.value@[k],
            decreases 9 - i,
        {
            if self.value[i] != rhs.value[i] {
                return false;
            }
            i += 1;
        }
        proof {
            assert(self.value@ =~= rhs.value@);
        }
        true
    }
}

impl vstd::std_specs::cmp::PartialEqSpecImpl for MinimalId {
    open spec fn obeys_eq_spec() -> bool {
        true
    }

    open spec fn eq_spec(&self, rhs: &MinimalId) -> bool {
        self@ == rhs@
    }
}

impl PartialOrd for MinimalId {
    fn partial_cmp(&self, rhs: &Self) -> (r: Option<Ordering>) {
        let mut i: usize = 0;
        while i < 9
            invariant
                i <= 9,
                forall|k: int| 0 <= k < i ==> self.value@[k] == rhs.value@[k],
            decreases 9 - i,
        {
            proof {
                lemma_lex_cmp_skip(self@, rhs@, i as int);
                assert(self@.skip(i as int)[0] == self@[i as int]);
                assert(rhs@.skip(i as int)[0] == rhs@[i as int]);
            }
            if self.value[i] < rhs.value[i] {
                return Some(Ordering::Less);
            }
            if self.value[i] > rhs.value[i] {
                return Some(Ordering::Greater);
            }
            i += 1;
        }
        proof {
            lemma_lex_cmp_skip(self@, rhs@, 9);
        }
        Some(Ordering::Equal)
    }
}

impl vstd::std_specs::cmp::PartialOrdSpecImpl for MinimalId {
    open spec fn obeys_partial_cmp_spec() -> bool {
        true
    }

    open spec fn partial_cmp_spec(&self, rhs: &MinimalId) -> Option<Ordering> {
        Some(lex_cmp(self@, rhs@))
    }
}

impl From<&str> for MinimalId {
    /// The lenient conversion: a text that does not parse becomes the
    /// zero identifier instead of an error.
    fn from(id: &str) -> (r: Self) {
        let r = match MinimalId::from_str(id) {
            Ok(parsed) => parsed,
            Err(_) => MinimalId::default(),
        };
        proof {
            if valid_id_text(id@) {
                b64::lemma_encodes_determines(r@, id@);
            }
            assert(r@ == lenient_bytes(id@));
            assert(exists|c: MinimalId| c@ == lenient_bytes(id@));
            let c = choose|c: MinimalId| c@ == lenient_bytes(id@);
            assert(c.value@ == r.value@);
            assert(c.value =~= r.value);
            assert(c =~= r);
        }
        r
    }
}

impl From<MinimalId> for String {
    /// The identifier's text, as `to_string` returns it.
    fn from(id: MinimalId) -> (r: String)
        ensures
            encodes(id@, r@),
    {
        id.to_string()
    }
}

impl vstd::std_specs::convert::FromSpecImpl<MinimalId> for String {
    open spec fn obeys_from_spec() -> bool {
        false
    }

    open spec fn from_spec(v: MinimalId) -> String {
        choose|s: String| encodes(v@, s@)
    }
}

impl vstd::std_specs::convert::FromSpecImpl<&str> for MinimalId {
    open spec fn obeys_from_spec() -> bool {
        true
    }

    open spec fn from_spec(v: &str) -> MinimalId {
        choose|c: MinimalId| c@ == lenient_bytes(v@)
    }
}

impl MinimalId {
    /// Returns the encoded version of the identifier: its base64url text,
    /// without padding, always 12 characters.
    pub fn to_string(&self) -> (r: String)
        ensures
            encodes(self@, r@),
            r@.len() == 12,
    {
        encode_b64(self.value.as_slice())
    }

    /// Returns the raw nine bytes of the identifier.
    pub fn to_slice(&self) -> (r: &[u8])
        ensures
            r@ == self@,
    {
        self.value.as_slice()
    }

    /// Creates a new identifier from a seed: the seed's four bytes in
    /// network byte order, then five bytes from the random source.
    pub fn new(seed: &Seed) -> (r: Self)
        ensures
            r@.len() == 9,
            r@.subrange(0, 4) == u32_be_bytes(seed@),
    {
        let s = seed.as_slice();
        let t = random_tail();
        let value = [s[0], s[1], s[2], s[3], t[0], t[1], t[2], t[3], t[4]];
        let r = Self { value };
        proof {
            assert(r@.subrange(0, 4) =~= u32_be_bytes(seed@));
        }
        r
    }

    /// Parses a text into an identifier. Succeeds exactly on the texts of
    /// identifiers: 12 characters of the base64url alphabet. Any other
    /// input is rejected with a typed error, never a crash: a text that
    /// base64url decoding refuses is `InvalidEncoding`, one that decodes
    /// to some other number of bytes than nine is `WrongLength`.
    pub fn from_str(id_str: &str) -> (r: Result<Self, ParseError>)
        ensures
            r is Ok <==> valid_id_text(id_str@),
            r matches Ok(id) ==> encodes(id@, id_str@),
            r matches Err(e) ==> (e == ParseError::WrongLength <==> nopad_valid(id_str@)),
            r matches Err(e) ==> (e == ParseError::InvalidEncoding <==> !nopad_valid(id_str@)),
    {
        match decode_b64(id_str) {
            Err(_) => {
                proof {
                    assert(!valid_id_text(id_str@));
                }
                Err(ParseError::InvalidEncoding)
            },
            Ok(value) => {
                if value.len() == 9 {
                    proof {
                        lemma_only_twelve_chars_decode_to_nine(id_str@);
                    }
                    Ok(Self::from_slice(value.as_slice()))
                } else {
                    proof {
                        lemma_only_twelve_chars_decode_to_nine(id_str@);
                    }
                    Err(ParseError::WrongLength)
                }
            },
        }
    }

    /// Parses a text into an identifier; kept for callers of older
    /// versions of `from_str`.
    pub fn id_from_str(id_str: &str) -> (r: Result<Self, ParseError>)
        ensures
            r is Ok <==> valid_id_text(id_str@),
            r matches Ok(id) ==> encodes(id@, id_str@),
            r matches Err(e) ==> (e == ParseError::WrongLength <==> nopad_valid(id_str@)),
            r matches Err(e) ==> (e == ParseError::InvalidEncoding <==> !nopad_valid(id_str@)),
    {
        Self::from_str(id_str)
    }

    /// Creates an identifier from the raw nine-byte array.
    pub fn from_bytes(buf: [u8; 9]) -> (r: Self)
        ensures
            r@ == buf@,
    {
        Self { value: buf }
    }

    /// Creates an identifier from a slice of exactly nine bytes.
    fn from_slice(buf: &[u8]) -> (r: Self)
        requires
            buf@.len() == 9,
        ensures
            r@ == buf@,
    {
        let value = [buf[0], buf[1], buf[2], buf[3], buf[4], buf[5], buf[6], buf[7], buf[8]];
        let r = Self { value };
        proof {
            assert(r@ =~= buf@);
        }
        r
    }
}

/// A text of the base64url alphabet decodes to nine bytes exactly when it
/// has twelve characters.
proof fn lemma_only_twelve_chars_decode_to_nine(s: Seq<char>)
    requires
        nopad_valid(s),
    ensures
        b64::decoded_len(s.len() as int) == 9 <==> s.len() == 12,
        b64::decoded_len(s.len() as int) == 9 <==> valid_id_text(s),
{
    let n = s.len() as int;
    if b64::decoded_len(n) == 9 {
        assert(n == n / 4 * 4 + n % 4);
        assert(n % 4 != 1);
        if n % 4 == 0 {
            assert(n / 4 * 3 == 9);
            assert(n / 4 == 3);
        } else if n % 4 == 2 {
            assert(n / 4 * 3 == 8);
            assert(false);
        } else {
            assert(n % 4 == 3);
            assert(n / 4 * 3 == 7);
            assert(false);
        }
    }
}

/// Law: an identifier's text comes back to the identifier alone. The
/// text of any nine bytes is a valid identifier text, and any identifier
/// that shares that text is byte-for-byte the same value.
pub proof fn lemma_text_round_trip(a: MinimalId, b: MinimalId, s: Seq<char>)
    requires
        encodes(a@, s),
        encodes(b@, s),
    ensures
        a == b,
        valid_id_text(s),
{
    b64::lemma_encodes_injective(a@, b@, s);
    b64::lemma_encodes_valid(a@, s);
    assert(a.value =~= b.value);
    assert(a =~= b);
}

/// Law: two identifiers are equal exactly when their nine bytes are
/// pairwise equal. Hashing and ordering are derived from the same nine
/// bytes, so a hash or an order can never tell two equal identifiers
/// apart.
pub proof fn lemma_eq_is_byte_eq(a: MinimalId, b: MinimalId)
    ensures
        a == b <==> a@ == b@,
{
    if a@ == b@ {
        assert(a.value =~= b.value);
        assert(a =~= b);
    }
}

/// The lexicographic order ranks two sequences of one length equal
/// exactly when they are the same sequence.
proof fn lemma_lex_cmp_equal(a: Seq<u8>, b: Seq<u8>)
    requires
        a.len() == b.len(),
    ensures
        lex_cmp(a, b) == Ordering::Equal <==> a == b,
    decreases a.len(),
{
    if a.len() == 0 {
        assert(a =~= b);
    } else {
        lemma_lex_cmp_equal(a.drop_first(), b.drop_first());
        if a == b {
            assert(a.drop_first() =~= b.drop_first());
        }
        if lex_cmp(a, b) == Ordering::Equal {
            assert(a[0] == b[0]);
            assert forall|k: int| 0 <= k < a.len() implies a[k] == b[k] by {
                if k > 0 {
                    assert(a[k] == a.drop_first()[k - 1]);
                    assert(b[k] == b.drop_first()[k - 1]);
                }
            }
            assert(a =~= b);
        }
    }
}

/// Law: ordering agrees with equality. `partial_cmp` ranks two
/// identifiers equal exactly when they are the same nine bytes, so
/// sorting identifiers can never separate two equal ones.
pub proof fn lemma_order_agrees_with_eq(a: MinimalId, b: MinimalId)
    ensures
        lex_cmp(a@, b@) == Ordering::Equal <==> a == b,
{
    lemma_lex_cmp_equal(a@, b@);
    lemma_eq_is_byte_eq(a, b);
}

/// Relies on rand::thread_rng and RngCore::fill_bytes: five bytes from
/// the process-wide, thread-safe random source. The result depends on
/// chance, so nothing is promised of it.
#[verifier::external_body]
fn random_tail() -> [u8; 5] {
    let mut buf = [0u8; 5];
    rand::thread_rng().fill_bytes(&mut buf);
    buf
}

} // verus!
