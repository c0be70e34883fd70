//! Error types of the service, their messages, and the HTTP status that
//! each one is answered with.

use vstd::prelude::*;

use crate::server::http::ErrorResponse;
use vstd::string::StringExecFns;

use crate::utils::text::{push_decimal, spec_decimal};

verus! {

/// Errors of the ID generators.
#[derive(Debug, PartialEq, Eq)]
pub enum GeneratorError {
    /// The clock reads earlier than the last timestamp used.
    ClockMovedBackwards,
    /// Too many IDs were asked for within one millisecond.
    SequenceOverflow,
    /// The machine ID is out of range.
    InvalidWorkerId(u64),
    /// The data-center ID is out of range.
    InvalidDatacenterId(u64),
    /// Generation failed for the reason given.
    GenerationFailed(String),
    /// No generator has the name given.
    UnsupportedAlgorithm(String),
}

/// Errors of the configuration.
#[derive(Debug, PartialEq, Eq)]
pub enum ConfigError {
    /// The configuration could not be loaded; the loader's message.
    LoadFailed(String),
    /// A required setting is missing.
    MissingField(String),
    /// A setting has a value out of range.
    InvalidValue(String),
}

/// Errors of the HTTP server.
#[derive(Debug, PartialEq, Eq)]
pub enum ServerError {
    /// The server could not start.
    StartupFailed(String),
    /// The listening address could not be bound.
    BindFailed(String),
    /// An internal failure.
    InternalError(String),
}

/// Any error of the application.
#[derive(Debug, PartialEq, Eq)]
pub enum AppError {
    Generator(GeneratorError),
    Config(ConfigError),
    Server(ServerError),
    /// An I/O failure; the message of the underlying error.
    Io(String),
}

/// `prefix` followed by `detail`.
fn prefixed(prefix: &str, detail: &str) -> (r: String)
    ensures
        r@ == prefix@ + detail@,
{
    let mut r = prefix.to_owned();
    r.append(detail);
    r
}

impl GeneratorError {
    /// The message that describes the error.
    pub open spec fn spec_message(&self) -> Seq<char> {
        match self {
            GeneratorError::ClockMovedBackwards => "时钟回退检测：服务器时间似乎倒流"@,
            GeneratorError::SequenceOverflow => "序列号溢出：当前毫秒内已生成过多 ID"@,
            GeneratorError::InvalidWorkerId(id) => "无效的机器 ID: "@ + spec_decimal(*id as nat),
            GeneratorError::InvalidDatacenterId(id) => "无效的机房 ID: "@ + spec_decimal(*id as nat),
            GeneratorError::GenerationFailed(reason) => "ID 生成失败："@ + reason@,
            GeneratorError::UnsupportedAlgorithm(name) => "不支持的算法："@ + name@,
        }
    }

    /// The message that describes the error.
    pub fn message(&self) -> (r: String)
        ensures
            r@ == self.spec_message(),
    {
        match self {
            GeneratorError::ClockMovedBackwards => "时钟回退检测：服务器时间似乎倒流".to_owned(),
            GeneratorError::SequenceOverflow => "序列号溢出：当前毫秒内已生成过多 ID".to_owned(),
            GeneratorError::InvalidWorkerId(id) => {
                let mut r = "无效的机器 ID: ".to_owned();
                push_decimal(&mut r, *id);
                r
            },
            GeneratorError::InvalidDatacenterId(id) => {
                let mut r = "无效的机房 ID: ".to_owned();
                push_decimal(&mut r, *id);
                r
            },
            GeneratorError::GenerationFailed(reason) => prefixed("ID 生成失败：", reason.as_str()),
            GeneratorError::UnsupportedAlgorithm(name) => prefixed("不支持的算法：", name.as_str()),
        }
    }
}

impl ConfigError {
    /// The message that describes the error.
    pub open spec fn spec_message(&self) -> Seq<char> {
        match self {
            ConfigError::LoadFailed(m) => "加载配置文件失败："@ + m@,
            ConfigError::MissingField(m) => "缺少必要配置："@ + m@,
            ConfigError::InvalidValue(m) => "配置值无效："@ + m@,
        }
    }

    /// The message that describes the error.
    pub fn message(&self) -> (r: String)
        ensures
            r@ == self.spec_message(),
    {
        match self {
            ConfigError::LoadFailed(m) => prefixed("加载配置文件失败：", m.as_str()),
            ConfigError::MissingField(m) => prefixed("缺少必要配置：", m.as_str()),
            ConfigError::InvalidValue(m) => prefixed("配置值无效：", m.as_str()),
        }
    }
}

impl ServerError {
    /// The message that describes the error.
    pub open spec fn spec_message(&self) -> Seq<char> {
        match self {
            ServerError::StartupFailed(m) => "服务启动失败："@ + m@,
            ServerError::BindFailed(m) => "绑定端口失败："@ + m@,
            ServerError::InternalError(m) => "内部服务器错误："@ + m@,
        }
    }

    /// The message that describes the error.
    pub fn message(&self) -> (r: String)
        ensures
            r@ == self.spec_message(),
    {
        match self {
            ServerError::StartupFailed(m) => prefixed("服务启动失败：", m.as_str()),
            ServerError::BindFailed(m) => prefixed("绑定端口失败：", m.as_str()),
            ServerError::InternalError(m) => prefixed("内部服务器错误：", m.as_str()),
        }
    }
}

impl AppError {
    /// The message of the error that this one wraps.
    pub open spec fn spec_detail(&self) -> Seq<char> {
        match self {
            AppError::Generator(e) => e.spec_message(),
            AppError::Config(e) => e.spec_message(),
            AppError::Server(e) => e.spec_message(),
            AppError::Io(m) => m@,
        }
    }

    /// The message that describes the error: its kind, then the wrapped error's message.
    pub open spec fn spec_message(&self) -> Seq<char> {
        match self {
            AppError::Generator(_) => "生成器错误："@ + self.spec_detail(),
            AppError::Config(_) => "配置错误："@ + self.spec_detail(),
            AppError::Server(_) => "服务器错误："@ + self.spec_detail(),
            AppError::Io(_) => "IO 错误："@ + self.spec_detail(),
        }
    }

    /// The HTTP status that answers the error: 503 when the clock moved
    /// backwards, 429 when the sequence overflowed, 500 otherwise.
    pub open spec fn spec_status_code(&self) -> u16 {
        match self {
            AppError::Generator(GeneratorError::ClockMovedBackwards) => 503,
            AppError::Generator(GeneratorError::SequenceOverflow) => 429,
            _ => 500,
        }
    }

    /// The message of the error that this one wraps.
    pub fn detail(&self) -> (r: String)
        ensures
            r@ == self.spec_detail(),
    {
        match self {
            AppError::Generator(e) => e.message(),
            AppError::Config(e) => e.message(),
            AppError::Server(e) => e.message(),
            AppError::Io(m) => m.clone(),
        }
    }

    /// The message that describes the error.
    pub fn message(&self) -> (r: String)
        ensures
            r@ == self.spec_message(),
    {
        let d = self.detail();
        match self {
            AppError::Generator(_) => prefixed("生成器错误：", d.as_str()),
            AppError::Config(_) => prefixed("配置错误：", d.as_str()),
            AppError::Server(_) => prefixed("服务器错误：", d.as_str()),
            AppError::Io(_) => prefixed("IO 错误：", d.as_str()),
        }
    }

    /// The HTTP status that answers the error.
    pub fn status_code(&self) -> (r: u16)
        ensures
            r == self.spec_status_code(),
    {
        match self {
            AppError::Generator(GeneratorError::ClockMovedBackwards) => 503,
            AppError::Generator(GeneratorError::SequenceOverflow) => 429,
            _ => 500,
        }
    }

    /// The HTTP answer to the error: its status, and a body that flags an
    /// error and carries the wrapped error's message.
    pub fn to_response(&self) -> (r: (u16, ErrorResponse))
        ensures
            r.0 == self.spec_status_code(),
            r.1.error,
            r.1.message@ == self.spec_detail(),
    {
        (self.status_code(), ErrorResponse { error: true, message: self.detail() })
    }
}

} // verus!
