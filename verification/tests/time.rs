use id_generator_service::utils::time::{
    current_timestamp_micros, current_timestamp_millis, current_timestamp_nanos, micros_from_parts,
    millis_from_parts, nanos_from_parts,
};

#[test]
fn test_timestamp_millis() {
    let ts1 = current_timestamp_millis();
    let ts2 = current_timestamp_millis();
    assert!(ts2 >= ts1);
}

#[test]
fn test_timestamp_micros() {
    let ts = current_timestamp_micros();
    assert!(ts > 0);
}

#[test]
fn timestamps_agree_across_units() {
    let ms = current_timestamp_millis();
    let us = current_timestamp_micros();
    let ns = current_timestamp_nanos();
    assert!(us / 1000 >= ms);
    assert!(ns / 1_000_000 >= ms as u128);
    // After 2024-01-01.
    assert!(ms > 1_704_067_200_000);
}

#[test]
fn timestamp_parts_combine() {
    assert_eq!(millis_from_parts(0, 0), 0);
    assert_eq!(millis_from_parts(1_704_067_200, 5), 1_704_067_200_005);
    assert_eq!(micros_from_parts(2, 999_999), 2_999_999);
    assert_eq!(nanos_from_parts(3, 7), 3_000_000_007);
    assert_eq!(millis_from_parts(-1, 0), 0u64.wrapping_sub(1000));
}
