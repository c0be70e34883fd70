use id_generator_service::config::Settings;

#[test]
fn test_default_settings() {
    let settings = Settings::default();
    assert_eq!(settings.server.port, 3000);
    assert_eq!(settings.snowflake.worker_id, 1);
    assert_eq!(settings.nanoid.length, 21);
}

#[test]
fn test_validate_default() {
    let settings = Settings::default();
    assert!(settings.validate().is_ok());
}

#[test]
fn test_validate_invalid_worker_id() {
    let mut settings = Settings::default();
    settings.snowflake.worker_id = 2000;
    assert!(settings.validate().is_err());
}

#[test]
fn default_settings_values() {
    let settings = Settings::default();
    assert_eq!(settings.server.host, "0.0.0.0");
    assert_eq!(settings.snowflake.datacenter_id, 1);
    assert!(!settings.ulid._placeholder);
    assert_eq!(
        settings.nanoid.alphabet,
        "ABCDEFGHIJKLMNOPQRSTUVWXYZabcdefghijklmnopqrstuvwxyz0123456789-_"
    );
}

#[test]
fn validate_reports_first_failing_setting() {
    let mut settings = Settings::default();
    settings.snowflake.worker_id = 1023;
    assert!(settings.validate().is_ok());
    settings.snowflake.worker_id = 1024;
    settings.snowflake.datacenter_id = 32;
    assert_eq!(settings.validate(), Err("worker_id 必须在 0-1023 范围内".to_string()));
    settings.snowflake.worker_id = 0;
    assert_eq!(settings.validate(), Err("datacenter_id 必须在 0-31 范围内".to_string()));
    settings.snowflake.datacenter_id = 31;
    settings.nanoid.length = 0;
    settings.nanoid.alphabet = String::new();
    assert_eq!(settings.validate(), Err("nanoid.length 必须大于 0".to_string()));
    settings.nanoid.length = 5;
    assert_eq!(settings.validate(), Err("nanoid.alphabet 不能为空".to_string()));
    settings.nanoid.alphabet = "ab".to_string();
    assert_eq!(settings.validate(), Ok(()));
}
