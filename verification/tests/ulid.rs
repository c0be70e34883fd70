use id_generator_service::generator::ulid::{ulid_to_string, ULIDGenerator, UlidValue};
use id_generator_service::generator::IdGenerator;

#[test]
fn test_generate_ulid() {
    let mut gen = ULIDGenerator::new();
    let id = gen.generate().unwrap();
    assert_eq!(id.len(), 26);
}

#[test]
fn ulid_test_generate_unique_ids() {
    let mut gen = ULIDGenerator::new();
    let id1 = gen.generate().unwrap();
    let id2 = gen.generate().unwrap();
    assert_ne!(id1, id2);
}

#[test]
fn test_ulid_format() {
    let mut gen = ULIDGenerator::new();
    let id = gen.generate().unwrap();
    assert!(id.chars().all(|c| c.is_ascii_digit() || ('A'..='Z').contains(&c)));
    assert!(!id.contains('I'));
    assert!(!id.contains('L'));
    assert!(!id.contains('O'));
    assert!(!id.contains('U'));
}

#[test]
fn ulid_text_of_known_values() {
    assert_eq!(ulid_to_string(0), "00000000000000000000000000");
    assert_eq!(ulid_to_string(1), "00000000000000000000000001");
    assert_eq!(ulid_to_string(31), "0000000000000000000000000Z");
    assert_eq!(ulid_to_string(32), "00000000000000000000000010");
    assert_eq!(ulid_to_string(0x41414141414141414141414141414141), "21850M2GA1850M2GA1850M2GA1");
    assert_eq!(ulid_to_string(u128::MAX), "7ZZZZZZZZZZZZZZZZZZZZZZZZZ");
}

#[test]
fn ulid_texts_sort_as_values() {
    let values = [0u128, 1, 31, 32, 1000, 1 << 80, (1 << 80) + 1, u128::MAX - 1, u128::MAX];
    for w in values.windows(2) {
        assert!(ulid_to_string(w[0]) < ulid_to_string(w[1]));
    }
}

#[test]
fn ulid_generator_parts() {
    let gen = ULIDGenerator::default();
    let value = gen.next_id().0;
    assert_ne!(value, 0);
    assert_eq!(gen.name(), "ulid");
    let mut gen = ULIDGenerator::new();
    let ids = gen.generate_batch(3).unwrap();
    assert_eq!(ids.len(), 3);
}

#[test]
fn ulid_value_text() {
    assert_eq!(UlidValue(0).to_string(), "00000000000000000000000000");
    assert_eq!(UlidValue(32).to_string(), "00000000000000000000000010");
    let id = ULIDGenerator::new().next_id();
    assert_eq!(id.to_string(), ulid_to_string(id.0));
    assert_eq!(id.to_string().len(), 26);
}
