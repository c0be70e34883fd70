use id_generator_service::config::Settings;
use id_generator_service::error::{AppError, ConfigError, GeneratorError, ServerError};
use id_generator_service::generator::nanoid::NanoIDGenerator;
use id_generator_service::generator::snowflake::SnowflakeGenerator;
use id_generator_service::generator::ulid::ULIDGenerator;
use id_generator_service::generator::{AnyGenerator, GeneratorFactory, GeneratorType, IdGenerator};
use id_generator_service::server::http::{
    batch_answer, batch_generate, generate_ids, health_check, readiness_check, GenerateRequest,
};
use id_generator_service::server::AppState;
use id_generator_service::utils::text::u64_to_decimal;
use id_generator_service::VERSION;

#[test]
fn test_version() {
    assert!(!VERSION.is_empty());
}

fn state() -> AppState {
    AppState::new(
        SnowflakeGenerator::new(1, 1).unwrap(),
        ULIDGenerator::new(),
        NanoIDGenerator::with_default_alphabet(21).unwrap(),
    )
}

#[test]
fn algorithm_names_parse() {
    assert_eq!("snowflake".parse::<GeneratorType>().unwrap(), GeneratorType::Snowflake);
    assert_eq!(GeneratorType::parse("SnowFlake").unwrap(), GeneratorType::Snowflake);
    assert_eq!(GeneratorType::parse("ULID").unwrap(), GeneratorType::ULID);
    assert_eq!(GeneratorType::parse("nanoid").unwrap(), GeneratorType::NanoID);
    assert_eq!(GeneratorType::parse("Nano_Id").unwrap(), GeneratorType::NanoID);
    match GeneratorType::parse("uuid") {
        Err(GeneratorError::UnsupportedAlgorithm(name)) => assert_eq!(name, "uuid"),
        _ => panic!("unknown name accepted"),
    }
    for t in [GeneratorType::Snowflake, GeneratorType::ULID, GeneratorType::NanoID] {
        assert_eq!(GeneratorType::parse(t.as_str()).unwrap(), t);
    }
    assert_eq!(GeneratorType::NanoID.as_str(), "nanoid");
}

#[test]
fn error_messages_and_statuses() {
    let clock = AppError::Generator(GeneratorError::ClockMovedBackwards);
    assert_eq!(clock.status_code(), 503);
    assert_eq!(clock.detail(), "时钟回退检测：服务器时间似乎倒流");
    assert_eq!(clock.message(), "生成器错误：时钟回退检测：服务器时间似乎倒流");
    let overflow = AppError::Generator(GeneratorError::SequenceOverflow);
    assert_eq!(overflow.status_code(), 429);
    let (status, body) = overflow.to_response();
    assert_eq!(status, 429);
    assert!(body.error);
    assert_eq!(body.message, "序列号溢出：当前毫秒内已生成过多 ID");
    let worker = AppError::Generator(GeneratorError::InvalidWorkerId(1024));
    assert_eq!(worker.status_code(), 500);
    assert_eq!(worker.detail(), "无效的机器 ID: 1024");
    assert_eq!(GeneratorError::InvalidDatacenterId(0).message(), "无效的机房 ID: 0");
    assert_eq!(
        GeneratorError::GenerationFailed("x".to_string()).message(),
        "ID 生成失败：x"
    );
    assert_eq!(
        GeneratorError::UnsupportedAlgorithm("uuid".to_string()).message(),
        "不支持的算法：uuid"
    );
    let config = AppError::Config(ConfigError::InvalidValue("bad".to_string()));
    assert_eq!(config.status_code(), 500);
    assert_eq!(config.message(), "配置错误：配置值无效：bad");
    assert_eq!(ConfigError::LoadFailed("f".to_string()).message(), "加载配置文件失败：f");
    assert_eq!(ConfigError::MissingField("g".to_string()).message(), "缺少必要配置：g");
    let server = AppError::Server(ServerError::BindFailed("port".to_string()));
    assert_eq!(server.message(), "服务器错误：绑定端口失败：port");
    assert_eq!(ServerError::StartupFailed("s".to_string()).message(), "服务启动失败：s");
    assert_eq!(ServerError::InternalError("i".to_string()).message(), "内部服务器错误：i");
    let io = AppError::Io("disk".to_string());
    assert_eq!(io.status_code(), 500);
    assert_eq!(io.message(), "IO 错误：disk");
}

#[test]
fn decimal_text() {
    assert_eq!(u64_to_decimal(0), "0");
    assert_eq!(u64_to_decimal(7), "7");
    assert_eq!(u64_to_decimal(10), "10");
    assert_eq!(u64_to_decimal(69134384458), "69134384458");
    assert_eq!(u64_to_decimal(u64::MAX), u64::MAX.to_string());
}

#[test]
fn factory_builds_generators() {
    let settings = Settings::default();
    let mut snowflake = GeneratorFactory::create(GeneratorType::Snowflake, &settings).unwrap();
    assert!(matches!(snowflake, AnyGenerator::Snowflake(_)));
    assert_eq!(snowflake.name(), "snowflake");
    assert!(snowflake.generate().unwrap().parse::<u64>().is_ok());
    let mut ulid = GeneratorFactory::create(GeneratorType::ULID, &settings).unwrap();
    assert_eq!(ulid.generate().unwrap().len(), 26);
    let mut nanoid = GeneratorFactory::create(GeneratorType::NanoID, &settings).unwrap();
    assert_eq!(nanoid.generate().unwrap().len(), 21);
    assert_eq!(nanoid.generate_batch(4).unwrap().len(), 4);

    let mut bad = Settings::default();
    bad.snowflake.datacenter_id = 40;
    assert!(matches!(
        GeneratorFactory::create(GeneratorType::Snowflake, &bad),
        Err(AppError::Generator(GeneratorError::InvalidDatacenterId(40)))
    ));
    bad.nanoid.alphabet = "aa".to_string();
    assert!(GeneratorFactory::create(GeneratorType::NanoID, &bad).is_err());
    assert!(GeneratorFactory::create(GeneratorType::ULID, &bad).is_ok());
    assert!(GeneratorFactory::create_snowflake(3, 4).is_ok());
    assert!(GeneratorFactory::create_ulid().is_ok());
    assert!(GeneratorFactory::create_nanoid(4, "").is_err());
}

#[test]
fn state_selects_generators_by_name() {
    let s = state();
    assert_eq!(s.get_generator("snowflake"), Some(GeneratorType::Snowflake));
    assert_eq!(s.get_generator("ULID"), Some(GeneratorType::ULID));
    assert_eq!(s.get_generator("NanoID"), Some(GeneratorType::NanoID));
    assert_eq!(s.get_generator("nano_id"), None);
    assert_eq!(s.get_generator("uuid"), None);
}

#[test]
fn generate_ids_answers() {
    let mut s = state();
    let one = generate_ids(&mut s, "snowflake", 1).unwrap();
    assert_eq!(one.ids.len(), 1);
    assert_eq!(one.count, 1);
    assert_eq!(one.algorithm, "snowflake");
    let zero = generate_ids(&mut s, "ulid", 0).unwrap();
    assert_eq!(zero.count, 1);
    assert_eq!(zero.ids[0].len(), 26);
    let many = generate_ids(&mut s, "NanoID", 500).unwrap();
    assert_eq!(many.count, 100);
    assert_eq!(many.ids.len(), 100);
    assert_eq!(many.algorithm, "NanoID");
    let batch = generate_ids(&mut s, "snowflake", 50).unwrap();
    let values: Vec<u64> = batch.ids.iter().map(|id| id.parse().unwrap()).collect();
    assert!(values.windows(2).all(|w| w[0] < w[1]));
    assert!(values[0] > one.ids[0].parse::<u64>().unwrap());
    let (status, body) = generate_ids(&mut s, "uuid", 3).unwrap_err();
    assert_eq!(status, 404);
    assert!(body.error);
    assert_eq!(body.message, "不支持的算法：uuid");
}

#[test]
fn batch_endpoint_bounds() {
    let mut s = state();
    let (status, body) = batch_generate(&mut s, "snowflake", 0).unwrap_err();
    assert_eq!(status, 400);
    assert_eq!(body.message, "count 必须在 1-1000 范围内");
    assert_eq!(batch_generate(&mut s, "ulid", 1001).unwrap_err().0, 400);
    let ok = batch_generate(&mut s, "ulid", 1000).unwrap();
    assert_eq!(ok.count, 100);
    assert_eq!(batch_generate(&mut s, "snowflake", 10).unwrap().ids.len(), 10);
    assert_eq!(batch_generate(&mut s, "x", 10).unwrap_err().0, 404);
}

#[test]
fn health_and_readiness() {
    let health = health_check();
    assert_eq!(health.status, "healthy");
    assert!(health.timestamp > 1_704_067_200_000);
    let mut s = state();
    let ready = readiness_check(&mut s);
    assert_eq!(ready.status, "ready");
    assert_eq!(GenerateRequest::default().count, 1);
}

#[test]
fn batch_answer_carries_ids_or_error() {
    let ok = batch_answer(Ok(vec!["1".to_string(), "2".to_string()]), "snowflake").unwrap();
    assert_eq!(ok.ids, vec!["1".to_string(), "2".to_string()]);
    assert_eq!(ok.count, 2);
    assert_eq!(ok.algorithm, "snowflake");
    let (status, body) =
        batch_answer(Err(AppError::Generator(GeneratorError::ClockMovedBackwards)), "snowflake").unwrap_err();
    assert_eq!(status, 500);
    assert!(body.error);
    assert_eq!(body.message, AppError::Generator(GeneratorError::ClockMovedBackwards).message());
    let (_, body) =
        batch_answer(Err(AppError::Generator(GeneratorError::SequenceOverflow)), "snowflake").unwrap_err();
    assert_eq!(body.message, AppError::Generator(GeneratorError::SequenceOverflow).message());
}

#[test]
fn loaded_settings_or_defaults() {
    let mut custom = Settings::default();
    custom.server.port = 8080;
    let s = Settings::from_loaded(Ok(custom));
    assert_eq!(s.server.port, 8080);
    let d = Settings::from_loaded(Err(ConfigError::LoadFailed("missing".to_string())));
    assert_eq!(d.server.port, 3000);
    assert_eq!(d.server.host, "0.0.0.0");
    assert_eq!(d.nanoid.length, 21);
}

#[test]
fn snowflake_answers_are_new_ids() {
    let mut s = state();
    let first = generate_ids(&mut s, "snowflake", 100).unwrap();
    let second = batch_generate(&mut s, "snowflake", 100).unwrap();
    let values: Vec<u64> = first.ids.iter().chain(second.ids.iter()).map(|id| id.parse().unwrap()).collect();
    assert_eq!(values.len(), 200);
    assert!(values.windows(2).all(|w| w[0] < w[1]));
}

#[test]
fn empty_batches_succeed() {
    assert!(ULIDGenerator::new().generate_batch(0).unwrap().is_empty());
    let mut nano = NanoIDGenerator::with_default_alphabet(21).unwrap();
    assert!(nano.generate_batch(0).unwrap().is_empty());
    assert_eq!(nano.generate_batch(4).unwrap().len(), 4);
}
