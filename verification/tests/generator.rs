use minimal_id::Generator;
use minimal_id::MinimalId;

#[test]
fn functional_test_generate_unique_ids() {
    let id1 = Generator::new_id();
    let id2 = Generator::new_id();
    assert_ne!(id1, id2);
}

#[test]
fn generator_parses_through_facade() {
    let generator = Generator::default();
    let id = generator
        .id_from_str("AAECAwQFBgcI")
        .expect("Cannot parse String into ID");
    assert_eq!(id.to_slice()[0], 0);
}

#[test]
fn generated_id_round_trips_through_text() {
    let generator = Generator::default();
    let id = generator.generate();
    let text = id.to_string();
    assert_eq!(text.len(), 12);
    let back = MinimalId::from_str(&text).expect("text of a generated id must parse");
    assert_eq!(back, id);
}
