use id_generator_service::error::{AppError, GeneratorError};
use id_generator_service::generator::nanoid::{NanoIDGenerator, DEFAULT_ALPHABET};
use id_generator_service::generator::IdGenerator;

#[test]
fn nanoid_test_new_generator() {
    let gen = NanoIDGenerator::with_default_alphabet(21);
    assert!(gen.is_ok());
}

#[test]
fn test_empty_alphabet() {
    let gen = NanoIDGenerator::new(21, "");
    assert!(gen.is_err());
}

#[test]
fn nanoid_test_generate_id() {
    let mut gen = NanoIDGenerator::with_default_alphabet(21).unwrap();
    let id = gen.generate().unwrap();
    assert_eq!(id.len(), 21);
}

#[test]
fn nanoid_test_generate_unique_ids() {
    let mut gen = NanoIDGenerator::with_default_alphabet(21).unwrap();
    let id1 = gen.generate().unwrap();
    let id2 = gen.generate().unwrap();
    assert_ne!(id1, id2);
}

#[test]
fn test_custom_length() {
    let mut gen = NanoIDGenerator::with_default_alphabet(32).unwrap();
    let id = gen.generate().unwrap();
    assert_eq!(id.len(), 32);
}

#[test]
fn nanoid_refusals_carry_their_reason() {
    match NanoIDGenerator::new(21, "") {
        Err(AppError::Generator(GeneratorError::GenerationFailed(m))) => assert_eq!(m, "字符集不能为空"),
        _ => panic!("empty alphabet accepted"),
    }
    match NanoIDGenerator::new(21, "abca") {
        Err(AppError::Generator(GeneratorError::GenerationFailed(m))) => assert_eq!(m, "字符集包含重复字符"),
        _ => panic!("repeated character accepted"),
    }
    assert!(NanoIDGenerator::new(0, "é中").is_ok());
}

#[test]
fn nanoid_ids_are_drawn_from_the_alphabet() {
    let mut gen = NanoIDGenerator::new(50, "xyz").unwrap();
    let id = gen.next_id();
    assert_eq!(id.chars().count(), 50);
    assert!(id.chars().all(|c| "xyz".contains(c)));
    let id = gen.generate().unwrap();
    assert!(id.chars().all(|c| "xyz".contains(c)));
    let unicode = NanoIDGenerator::new(7, "中文").unwrap();
    let id = unicode.next_id();
    assert_eq!(id.chars().count(), 7);
    assert!(id.chars().all(|c| c == '中' || c == '文'));
    let empty = NanoIDGenerator::with_default_alphabet(0).unwrap();
    assert_eq!(empty.next_id(), "");
}

#[test]
fn nanoid_id_from_indices_selects_characters() {
    let gen = NanoIDGenerator::new(3, "abc").unwrap();
    assert_eq!(gen.id_from_indices(&vec![2, 0, 1, 1]), "cabb");
    assert_eq!(gen.id_from_indices(&vec![]), "");
    let default = NanoIDGenerator::with_default_alphabet(2).unwrap();
    assert_eq!(default.id_from_indices(&vec![0, 63, 62, 26]), "A_-a");
    assert_eq!(DEFAULT_ALPHABET.len(), 64);
}

#[test]
fn nanoid_batch_has_requested_count() {
    let mut gen = NanoIDGenerator::with_default_alphabet(10).unwrap();
    let ids = gen.generate_batch(5).unwrap();
    assert_eq!(ids.len(), 5);
    assert!(ids.iter().all(|id| id.len() == 10));
    assert_eq!(gen.name(), "nanoid");
}
