use id_generator_service::error::{AppError, GeneratorError};
use id_generator_service::generator::snowflake::{compose_id, SnowflakeGenerator, EPOCH};
use id_generator_service::generator::IdGenerator;

#[test]
fn snowflake_test_new_generator() {
    let gen = SnowflakeGenerator::new(1, 1);
    assert!(gen.is_ok());
}

#[test]
fn test_invalid_worker_id() {
    let gen = SnowflakeGenerator::new(100, 1);
    assert!(gen.is_err());
}

#[test]
fn snowflake_test_generate_id() {
    let mut gen = SnowflakeGenerator::new(1, 1).unwrap();
    let id = gen.generate().unwrap();
    assert!(!id.is_empty());
    assert!(id.parse::<u64>().is_ok());
}

#[test]
fn snowflake_test_generate_unique_ids() {
    let mut gen = SnowflakeGenerator::new(1, 1).unwrap();
    let id1 = gen.generate().unwrap();
    let id2 = gen.generate().unwrap();
    assert_ne!(id1, id2);
}

#[test]
fn snowflake_creation_refusals() {
    assert!(matches!(
        SnowflakeGenerator::new(32, 1),
        Err(AppError::Generator(GeneratorError::InvalidWorkerId(32)))
    ));
    assert!(matches!(
        SnowflakeGenerator::new(31, 32),
        Err(AppError::Generator(GeneratorError::InvalidDatacenterId(32)))
    ));
    assert!(matches!(
        SnowflakeGenerator::new(40, 40),
        Err(AppError::Generator(GeneratorError::InvalidWorkerId(40)))
    ));
    assert!(SnowflakeGenerator::new(31, 31).is_ok());
    assert!(SnowflakeGenerator::new(0, 0).is_ok());
}

#[test]
fn snowflake_layout_of_fields() {
    assert_eq!(compose_id(0, 0, 0, 0), 0);
    assert_eq!(compose_id(1, 0, 0, 0), 1 << 22);
    assert_eq!(compose_id(0, 1, 0, 0), 1 << 17);
    assert_eq!(compose_id(0, 0, 1, 0), 1 << 12);
    assert_eq!(compose_id(0, 0, 0, 1), 1);
    assert_eq!(compose_id(5, 3, 7, 9), (5 << 22) | (3 << 17) | (7 << 12) | 9);
    // Each field is taken modulo its range.
    assert_eq!(compose_id((1 << 41) + 2, 33, 34, 4096 + 3), (2 << 22) | (1 << 17) | (2 << 12) | 3);
    assert_eq!(compose_id(u64::MAX, 31, 31, 4095), i64::MAX as u64);
}

#[test]
fn snowflake_sequence_within_one_millisecond() {
    let mut gen = SnowflakeGenerator::new(2, 3).unwrap();
    assert_eq!(gen.next_id_at(10), Ok(compose_id(10, 3, 2, 0)));
    assert_eq!(gen.next_id_at(10), Ok(compose_id(10, 3, 2, 1)));
    assert_eq!(gen.next_id_at(10), Ok(compose_id(10, 3, 2, 2)));
    assert_eq!(gen.next_id_at(11), Ok(compose_id(11, 3, 2, 0)));
    assert!(matches!(gen.next_id_at(9), Err(GeneratorError::ClockMovedBackwards)));
    // A refused request leaves the generator as it was.
    assert_eq!(gen.next_id_at(11), Ok(compose_id(11, 3, 2, 1)));
}

#[test]
fn snowflake_sequence_overflow_is_refused() {
    let mut gen = SnowflakeGenerator::new(1, 1).unwrap();
    assert_eq!(gen.next_id_at(5), Ok(compose_id(5, 1, 1, 0)));
    for s in 1..4096u64 {
        assert_eq!(gen.next_id_at(5), Ok(compose_id(5, 1, 1, s)));
    }
    assert!(matches!(gen.next_id_at(5), Err(GeneratorError::SequenceOverflow)));
    assert_eq!(gen.next_id_at(6), Ok(compose_id(6, 1, 1, 0)));
}

#[test]
fn snowflake_first_request_at_epoch_uses_sequence_one() {
    let mut gen = SnowflakeGenerator::new(0, 0).unwrap();
    assert_eq!(gen.next_id_at(0), Ok(1));
}

#[test]
fn snowflake_ids_increase_and_carry_the_machine() {
    let mut gen = SnowflakeGenerator::new(5, 7).unwrap();
    let mut last = 0u64;
    for _ in 0..10000 {
        let id = gen.next_id().unwrap();
        assert!(id > last);
        assert_eq!((id >> 12) & 31, 5);
        assert_eq!((id >> 17) & 31, 7);
        last = id;
    }
}

#[test]
fn snowflake_timestamp_is_milliseconds_since_2024() {
    let mut gen = SnowflakeGenerator::new(1, 1).unwrap();
    let before = id_generator_service::utils::time::current_timestamp_millis() - EPOCH;
    let id = gen.next_id().unwrap();
    let after = id_generator_service::utils::time::current_timestamp_millis() - EPOCH;
    let ts = id >> 22;
    assert!(before <= ts && ts <= after);
}

#[test]
fn snowflake_batch_increases() {
    let mut gen = SnowflakeGenerator::new(1, 2).unwrap();
    let ids = gen.generate_batch(5000).unwrap();
    assert_eq!(ids.len(), 5000);
    let values: Vec<u64> = ids.iter().map(|s| s.parse().unwrap()).collect();
    assert!(values.windows(2).all(|w| w[0] < w[1]));
    assert_eq!(gen.name(), "snowflake");
}

#[test]
fn snowflake_run_at_most_4096_per_millisecond_and_distinct() {
    // One generator, many successive requests at the current time: the IDs
    // strictly increase, and no millisecond carries more than 4096 of them.
    let mut gen = SnowflakeGenerator::new(3, 4).unwrap();
    let mut ids = Vec::new();
    for _ in 0..20000 {
        ids.push(gen.next_id().unwrap());
    }
    assert!(ids.windows(2).all(|w| w[0] < w[1]));
    let mut per_ms = std::collections::HashMap::new();
    for id in &ids {
        *per_ms.entry(id >> 22).or_insert(0u32) += 1;
    }
    assert!(per_ms.values().all(|&n| n <= 4096));
    let texts: std::collections::HashSet<String> = ids.iter().map(|id| id.to_string()).collect();
    assert_eq!(texts.len(), ids.len());
}

#[test]
fn snowflake_run_of_fixed_readings() {
    // A millisecond takes at most 4096 IDs; the next reading moves on.
    let mut gen = SnowflakeGenerator::new(0, 0).unwrap();
    let mut issued_at_7 = 0;
    for _ in 0..5000 {
        if gen.next_id_at(7).is_ok() {
            issued_at_7 += 1;
        }
    }
    assert_eq!(issued_at_7, 4096);
    assert_eq!(gen.next_id_at(8), Ok(compose_id(8, 0, 0, 0)));
}

#[test]
fn snowflake_fresh_generator_issues() {
    let mut gen = SnowflakeGenerator::new(31, 31).unwrap();
    assert!(gen.generate().is_ok());
    let mut gen = SnowflakeGenerator::new(0, 0).unwrap();
    assert_eq!(gen.generate_batch(1).unwrap().len(), 1);
    assert_eq!(gen.generate_batch(0).unwrap().len(), 0);
}
