use std::collections::hash_map::DefaultHasher;
use std::collections::HashSet;
use std::convert::TryFrom;
use std::hash::Hash;
use std::hash::Hasher;

use minimal_id::Generator;
use minimal_id::MinimalId;
use minimal_id::ParseError;
use minimal_id::Seed;

#[test]
fn acceptance_test_round_trip() {
    let id = Generator::new_id();
    let id_string = id.to_string();
    let id_str: &str = &id_string;
    let actual = MinimalId::try_from(id_str).expect("Unable to parse id string");
    assert_eq!(id, actual);
}

#[test]
fn functional_serializes_to_encoded_string() {
    let id = MinimalId::from_bytes([0, 1, 2, 3, 4, 5, 6, 7, 8]);
    let expected_encoding = "AAECAwQFBgcI";

    assert_eq!(id.to_string(), expected_encoding);
}

#[test]
fn can_clone_minimal_id() {
    let id = MinimalId::from_bytes([0, 1, 2, 3, 4, 5, 6, 7, 8]);
    let id2 = id.clone();

    assert_eq!(id, id2);
}

/// Generating many ids in fast order from one seed hits no collisions.
/// The tail is five uniform random bytes, so with 20,000 draws the chance
/// of any collision is below one in five thousand; a much larger count
/// would make a collision among 2^40 tails likely rather than negligible.
#[test]
fn no_collisions_under_load() {
    let seed = Seed::from_time();
    let mut generated = HashSet::new();
    let r = (0..20_000).fold(true, |acc, _| acc && generated.insert(MinimalId::new(&seed)));
    assert!(r);
}

#[test]
fn str_slice_into_minimal_id() {
    let idstr = "123456789abc";
    let id: MinimalId = idstr.into();

    assert_eq!(id.to_string(), idstr);
}

#[test]
fn minimal_id_into_string() {
    let id = MinimalId::from_str("cba987654321").expect("Unable to parse sample id");
    let strid: String = id.into();

    assert_eq!(strid, "cba987654321");
}

#[test]
fn round_trip_from_raw_bytes() {
    let bytes: [u8; 9] = [0x0A, 0x14, 0x1E, 0x28, 0xFF, 0x00, 0x7F, 0x80, 0x01];
    let id = MinimalId::from_bytes(bytes);
    let back = MinimalId::from_str(&id.to_string()).expect("text of an id must parse");
    assert_eq!(back, id);
    assert_eq!(back.to_slice(), &bytes);
}

#[test]
fn default_is_zero_text() {
    let id = MinimalId::default();
    assert_eq!(id.to_slice(), &[0u8; 9]);
    assert_eq!(id.to_string(), "AAAAAAAAAAAA");
}

#[test]
fn all_ones_round_trip() {
    let id = MinimalId::from_bytes([0xFF; 9]);
    assert_eq!(id.to_string(), "____________");
    let back = MinimalId::from_str("____________").expect("twelve underscores are a valid id");
    assert_eq!(back.to_slice(), &[0xFF; 9]);
}

#[test]
fn parse_rejects_wrong_length() {
    assert_eq!(MinimalId::from_str("AAAA"), Err(ParseError::WrongLength));
    assert_eq!(MinimalId::from_str("AAAAAAAAAAAAAAAA"), Err(ParseError::WrongLength));
    assert_eq!(MinimalId::from_str(""), Err(ParseError::WrongLength));
}

#[test]
fn parse_distinguishes_short_texts() {
    // Three alphabet characters decode to two bytes, so the length is wrong;
    // a length of one modulo four can never decode, and nonzero trailing
    // bits make the text non-canonical, so both are invalid encodings.
    assert_eq!(MinimalId::from_str("AAA"), Err(ParseError::WrongLength));
    assert_eq!(MinimalId::from_str("AAAAA"), Err(ParseError::InvalidEncoding));
    assert_eq!(MinimalId::from_str("AAB"), Err(ParseError::InvalidEncoding));
}

#[test]
fn parse_rejects_invalid_characters() {
    assert_eq!(MinimalId::from_str("AAECAwQFBg+I"), Err(ParseError::InvalidEncoding));
    assert_eq!(MinimalId::from_str("AAECAwQFBg/I"), Err(ParseError::InvalidEncoding));
    assert_eq!(MinimalId::from_str("AAECAwQFBgcI=="), Err(ParseError::InvalidEncoding));
    assert_eq!(MinimalId::from_str("AAECAwQFB\u{00e9}cI"), Err(ParseError::InvalidEncoding));
}

#[test]
fn lenient_conversion_falls_back_to_zero() {
    let id: MinimalId = "not base64url!".into();
    assert_eq!(id, MinimalId::default());
}

#[test]
fn ordering_is_lexicographic_over_bytes() {
    let low_seed = MinimalId::from_bytes([1, 0, 0, 0, 255, 255, 255, 255, 255]);
    let high_seed = MinimalId::from_bytes([2, 0, 0, 0, 0, 0, 0, 0, 0]);
    assert!(low_seed < high_seed);

    let a = MinimalId::from_bytes([1, 2, 3, 4, 5, 6, 7, 8, 9]);
    let b = MinimalId::from_bytes([1, 2, 3, 4, 5, 6, 7, 8, 10]);
    assert!(a < b);
    assert!(b > a);
    assert!(a <= a && a >= a);
}

#[test]
fn hash_is_consistent_with_equality() {
    let a = MinimalId::from_str("cba987654321").expect("Unable to parse sample id");
    let b = MinimalId::from_str("cba987654321").expect("Unable to parse sample id");
    assert_eq!(a, b);

    let mut ha = DefaultHasher::new();
    a.hash(&mut ha);
    let mut hb = DefaultHasher::new();
    b.hash(&mut hb);
    assert_eq!(ha.finish(), hb.finish());
}
