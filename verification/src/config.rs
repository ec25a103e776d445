//! The configuration snapshot, as plain values, and its compilation into the
//! register model.
//!
//! Reading the file from disk and deserializing it belong to the
//! application; the shape of a snapshot, the choice of format by file
//! extension, and the compilation of declared registers into the typed
//! register model are here. Durations arrive as milliseconds; multipliers as
//! exact decimals.

use vstd::prelude::*;

use crate::decimal::{wf_decimal_opt, Decimal};
use crate::register;
use crate::schema;
use crate::schema::{MatchModel, MatchSpec};

verus! {

/// How verbose the gateway logs.
#[derive(Debug, Clone, Copy, PartialEq, Eq, Structural)]
pub enum LogLevel {
    Trace,
    Debug,
    Info,
    Warn,
    Error,
}

/// A declared string register.
#[derive(Debug, Clone, Copy, PartialEq, Eq, Structural)]
pub struct StringRegisterKind {
    pub length: u16,
}

/// A declared numeric register.
#[derive(Debug, Clone, Copy, PartialEq, Eq)]
pub struct NumericRegisterKind {
    pub multiplier: Option<Decimal>,
}

/// A declared register kind.
#[derive(Debug, Clone, Copy, PartialEq)]
pub enum RegisterKind {
    U16(NumericRegisterKind),
    U32(NumericRegisterKind),
    U64(NumericRegisterKind),
    S16(NumericRegisterKind),
    S32(NumericRegisterKind),
    S64(NumericRegisterKind),
    F32(NumericRegisterKind),
    F64(NumericRegisterKind),
    String(StringRegisterKind),
}

/// A declared measurement register.
#[derive(Debug, Clone)]
pub struct MeasurementRegister {
    pub name: String,
    pub address: u16,
    pub kind: RegisterKind,
}

/// A declared detect register; `matches` is a literal or a regular
/// expression source.
#[derive(Debug, Clone)]
pub struct DetectRegister {
    pub address: u16,
    pub kind: RegisterKind,
    pub matches: String,
}

/// A declared id register.
#[derive(Debug, Clone)]
pub struct IdRegister {
    pub address: u16,
    pub kind: RegisterKind,
}

/// One device kind's declared registers.
#[derive(Debug, Clone)]
pub struct Device {
    pub detect: Vec<DetectRegister>,
    pub id: Vec<IdRegister>,
    pub measurement: Vec<MeasurementRegister>,
}

/// The sweep configuration.
#[derive(Debug, Clone)]
pub struct Network {
    pub ip_range_start: String,
    pub ip_range_end: String,
    pub timeout_ms: u64,
}

/// The worker configuration.
#[derive(Debug, Clone)]
pub struct Modbus {
    pub initial_timeout_ms: u64,
    pub initial_backoff_ms: u64,
    pub initial_retries: u32,
    pub batch_threshold: u16,
    pub termination_timeout_ms: u64,
    pub metric_history_size: usize,
    pub ping_timeout_ms: u64,
    pub inactive_timeout_ms: u64,
    pub discovery_timeout_ms: u64,
    pub devices: Vec<(String, Device)>,
}

/// The cloud client configuration.
#[derive(Debug, Clone)]
pub struct Cloud {
    pub domain: String,
    pub ssl: bool,
    pub api_key: Option<String>,
    pub id: Option<String>,
    pub timeout_ms: u64,
}

/// The store client configuration.
#[derive(Debug, Clone)]
pub struct Db {
    pub timeout_ms: u64,
    pub ssl: bool,
    pub domain: String,
    pub port: Option<u16>,
    pub user: String,
    pub password: Option<String>,
    pub name: String,
}

/// The hardware configuration.
#[derive(Debug, Clone)]
pub struct Hardware {
    pub temperature_monitor: Option<String>,
}

/// One configuration snapshot.
#[derive(Debug, Clone)]
pub struct Values {
    pub log_level: Option<LogLevel>,
    pub discover_interval_ms: u64,
    pub ping_interval_ms: u64,
    pub measure_interval_ms: u64,
    pub push_interval_ms: u64,
    pub update_interval_ms: u64,
    pub health_interval_ms: u64,
    pub hardware: Hardware,
    pub network: Network,
    pub modbus: Modbus,
    pub cloud: Cloud,
    pub db: Db,
}

/// Why a snapshot could not be read.
#[derive(Debug, Clone, PartialEq, Eq)]
pub enum ParseError {
    MissingProjectDirs,
    Read(String),
    MissingExtension,
    InvalidExtension,
    DeserializationYaml(String),
    DeserializationToml(String),
    DeserializationJson(String),
}

/// The file formats a snapshot may be written in.
#[derive(Debug, Clone, Copy, PartialEq, Eq, Structural)]
pub enum ConfigFormat {
    Yaml,
    Toml,
    Json,
}

/// Choose the snapshot's format by the file extension: `yaml`/`yml`, `toml`
/// or `json`; a missing or other extension is refused.
pub fn format_for_extension(extension: Option<&String>) -> (r: Result<ConfigFormat, ParseError>)
    ensures
        match extension {
            None => r == Err::<ConfigFormat, _>(ParseError::MissingExtension),
            Some(e) => if e@ == "yaml"@ || e@ == "yml"@ {
                r == Ok::<_, ParseError>(ConfigFormat::Yaml)
            } else if e@ == "toml"@ {
                r == Ok::<_, ParseError>(ConfigFormat::Toml)
            } else if e@ == "json"@ {
                r == Ok::<_, ParseError>(ConfigFormat::Json)
            } else {
                r == Err::<ConfigFormat, _>(ParseError::InvalidExtension)
            },
        },
{
    match extension {
        None => Err(ParseError::MissingExtension),
        Some(e) => {
            if *e == ("yaml").to_owned() || *e == ("yml").to_owned() {
                Ok(ConfigFormat::Yaml)
            } else if *e == ("toml").to_owned() {
                Ok(ConfigFormat::Toml)
            } else if *e == ("json").to_owned() {
                Ok(ConfigFormat::Json)
            } else {
                Err(ParseError::InvalidExtension)
            }
        },
    }
}

/// The register-model kind a declared kind compiles to.
pub open spec fn kind_conversion(kind: RegisterKind) -> register::RegisterKind {
    match kind {
        RegisterKind::U16(nk) => register::RegisterKind::U16(
            register::NumericRegisterKind { multiplier: nk.multiplier },
        ),
        RegisterKind::U32(nk) => register::RegisterKind::U32(
            register::NumericRegisterKind { multiplier: nk.multiplier },
        ),
        RegisterKind::U64(nk) => register::RegisterKind::U64(
            register::NumericRegisterKind { multiplier: nk.multiplier },
        ),
        RegisterKind::S16(nk) => register::RegisterKind::S16(
            register::NumericRegisterKind { multiplier: nk.multiplier },
        ),
        RegisterKind::S32(nk) => register::RegisterKind::S32(
            register::NumericRegisterKind { multiplier: nk.multiplier },
        ),
        RegisterKind::S64(nk) => register::RegisterKind::S64(
            register::NumericRegisterKind { multiplier: nk.multiplier },
        ),
        RegisterKind::F32(nk) => register::RegisterKind::F32(
            register::NumericRegisterKind { multiplier: nk.multiplier },
        ),
        RegisterKind::F64(nk) => register::RegisterKind::F64(
            register::NumericRegisterKind { multiplier: nk.multiplier },
        ),
        RegisterKind::String(sk) => register::RegisterKind::String(
            register::StringRegisterKind { length: sk.length },
        ),
    }
}

/// The multiplier a declared kind carries, if a numeric one.
pub open spec fn wf_config_kind(kind: RegisterKind) -> bool {
    match kind {
        RegisterKind::U16(nk) => wf_decimal_opt(nk.multiplier),
        RegisterKind::U32(nk) => wf_decimal_opt(nk.multiplier),
        RegisterKind::U64(nk) => wf_decimal_opt(nk.multiplier),
        RegisterKind::S16(nk) => wf_decimal_opt(nk.multiplier),
        RegisterKind::S32(nk) => wf_decimal_opt(nk.multiplier),
        RegisterKind::S64(nk) => wf_decimal_opt(nk.multiplier),
        RegisterKind::F32(nk) => wf_decimal_opt(nk.multiplier),
        RegisterKind::F64(nk) => wf_decimal_opt(nk.multiplier),
        RegisterKind::String(_) => true,
    }
}

/// Compile a declared kind into the register model.
pub fn to_modbus_register_kind(kind: RegisterKind) -> (r: register::RegisterKind)
    ensures
        r == kind_conversion(kind),
        wf_config_kind(kind) ==> register::wf_kind(r),
{
    match kind {
        RegisterKind::U16(nk) => register::RegisterKind::U16(
            register::NumericRegisterKind { multiplier: nk.multiplier },
        ),
        RegisterKind::U32(nk) => register::RegisterKind::U32(
            register::NumericRegisterKind { multiplier: nk.multiplier },
        ),
        RegisterKind::U64(nk) => register::RegisterKind::U64(
            register::NumericRegisterKind { multiplier: nk.multiplier },
        ),
        RegisterKind::S16(nk) => register::RegisterKind::S16(
            register::NumericRegisterKind { multiplier: nk.multiplier },
        ),
        RegisterKind::S32(nk) => register::RegisterKind::S32(
            register::NumericRegisterKind { multiplier: nk.multiplier },
        ),
        RegisterKind::S64(nk) => register::RegisterKind::S64(
            register::NumericRegisterKind { multiplier: nk.multiplier },
        ),
        RegisterKind::F32(nk) => register::RegisterKind::F32(
            register::NumericRegisterKind { multiplier: nk.multiplier },
        ),
        RegisterKind::F64(nk) => register::RegisterKind::F64(
            register::NumericRegisterKind { multiplier: nk.multiplier },
        ),
        RegisterKind::String(sk) => register::RegisterKind::String(
            register::StringRegisterKind { length: sk.length },
        ),
    }
}

/// Compile a declared measurement register.
pub fn to_modbus_measurement_register(register: MeasurementRegister) -> (r:
    schema::MeasurementRegister<register::RegisterKind>)
    ensures
        r.address == register.address,
        r.storage == kind_conversion(register.kind),
        r.name@ == register.name@,
        wf_config_kind(register.kind) ==> register::wf_kind(r.storage),
{
    schema::MeasurementRegister {
        address: register.address,
        storage: to_modbus_register_kind(register.kind),
        name: register.name,
    }
}

/// Compile a declared detect register: a match source the regex compiler
/// accepts becomes a pattern, any other is kept as a literal.
pub fn to_modbus_detect_register(register: DetectRegister) -> (r: schema::DetectRegister<
    register::RegisterKind,
>)
    ensures
        r.address == register.address,
        r.storage == kind_conversion(register.kind),
        r.matcher@ == if schema::regex_ok(register.matches@) {
            MatchModel::Pattern(register.matches@)
        } else {
            MatchModel::Literal(register.matches@)
        },
        wf_config_kind(register.kind) ==> register::wf_kind(r.storage),
{
    schema::DetectRegister {
        address: register.address,
        storage: to_modbus_register_kind(register.kind),
        matcher: MatchSpec::new(register.matches),
    }
}

/// Compile a declared id register.
pub fn to_modbus_id_register(register: IdRegister) -> (r: schema::IdRegister<
    register::RegisterKind,
>)
    ensures
        r.address == register.address,
        r.storage == kind_conversion(register.kind),
        wf_config_kind(register.kind) ==> register::wf_kind(r.storage),
{
    schema::IdRegister {
        address: register.address,
        storage: to_modbus_register_kind(register.kind),
    }
}

} // verus!
