use pidgeon::cloud::{
    api_key_value, classify_outcome, endpoints, gateway_id, to_cloud_measurements, Response,
};
use pidgeon::config::{
    format_for_extension, to_modbus_detect_register, to_modbus_id_register,
    to_modbus_measurement_register, to_modbus_register_kind, ConfigFormat, ParseError,
};
use pidgeon::config;
use pidgeon::decimal::Decimal;
use pidgeon::measure::{find_schema, measurement_pairs, stream_registers, verify_id, StreamRegister};
use pidgeon::register::{NumericRegisterKind, RegisterKind, RegisterValue};
use pidgeon::schema::{DeviceSchema, IdRegister, MatchSpec, MeasurementRegister};
use pidgeon::services::Services;
use pidgeon::store::{LogStatus, Measurement};
use pidgeon::update::to_cloud_health;

#[test]
fn endpoints_name_scheme_and_gateway() {
    let (push, update) = endpoints(&"example.com".to_string(), true, &"gw-1".to_string());
    assert_eq!(push, "https://example.com/push/gw-1");
    assert_eq!(update, "https://example.com/update/gw-1");
    let (push, _) = endpoints(&"example.com".to_string(), false, &"gw-1".to_string());
    assert_eq!(push, "http://example.com/push/gw-1");
}

#[test]
fn api_key_falls_back_to_the_id_suffix() {
    assert_eq!(
        api_key_value(Some("secret".to_string()), &"gw-1".to_string()),
        "secret"
    );
    assert_eq!(
        api_key_value(None, &"gw-1".to_string()),
        "gw-1-oil-rulz-5000"
    );
}

#[test]
fn gateway_id_falls_back_to_the_serial() {
    assert_eq!(
        gateway_id(Some("custom".to_string()), &"abc123".to_string()),
        "custom"
    );
    assert_eq!(gateway_id(None, &"abc123".to_string()), "pidgeon-abc123");
}

#[test]
fn outcomes_classify_into_log_rows() {
    let (status, text) = classify_outcome(Some(Response {
        success: true,
        text: "ok".to_string(),
    }));
    assert_eq!(status, LogStatus::Success);
    assert_eq!(text, "ok");
    let (status, text) = classify_outcome(Some(Response {
        success: false,
        text: "denied".to_string(),
    }));
    assert_eq!(status, LogStatus::Failure);
    assert_eq!(text, "denied");
    let (status, text) = classify_outcome(None);
    assert_eq!(status, LogStatus::Failure);
    assert_eq!(text, "connection error");
}

#[test]
fn payload_rows_carry_source_and_data() {
    let rows = vec![Measurement {
        id: 1,
        source: "meter-7".to_string(),
        timestamp_ms: 99,
        data: "{\"power\":3}".to_string(),
    }];
    let cloud_rows = to_cloud_measurements(&rows);
    assert_eq!(cloud_rows[0].device_id, "meter-7");
    assert_eq!(cloud_rows[0].timestamp_ms, 99);
    assert_eq!(cloud_rows[0].data, "{\"power\":3}");
    let health = to_cloud_health(&rows);
    assert_eq!(health[0].device_id, "meter-7");
}

#[test]
fn config_format_follows_the_extension() {
    assert_eq!(
        format_for_extension(Some(&"yaml".to_string())),
        Ok(ConfigFormat::Yaml)
    );
    assert_eq!(
        format_for_extension(Some(&"yml".to_string())),
        Ok(ConfigFormat::Yaml)
    );
    assert_eq!(
        format_for_extension(Some(&"toml".to_string())),
        Ok(ConfigFormat::Toml)
    );
    assert_eq!(
        format_for_extension(Some(&"json".to_string())),
        Ok(ConfigFormat::Json)
    );
    assert_eq!(
        format_for_extension(Some(&"ini".to_string())),
        Err(ParseError::InvalidExtension)
    );
    assert_eq!(
        format_for_extension(None),
        Err(ParseError::MissingExtension)
    );
}

#[test]
fn declared_kinds_compile_one_to_one() {
    let tenth = Some(Decimal {
        mantissa: 1,
        scale: 1,
    });
    let compiled = to_modbus_register_kind(config::RegisterKind::U32(
        config::NumericRegisterKind { multiplier: tenth },
    ));
    assert_eq!(
        compiled,
        RegisterKind::U32(NumericRegisterKind { multiplier: tenth })
    );
    let compiled = to_modbus_register_kind(config::RegisterKind::String(
        config::StringRegisterKind { length: 6 },
    ));
    assert_eq!(
        compiled,
        RegisterKind::String(pidgeon::register::StringRegisterKind { length: 6 })
    );
}

#[test]
fn declared_registers_compile_with_their_fields() {
    let m = to_modbus_measurement_register(config::MeasurementRegister {
        name: "power".to_string(),
        address: 7,
        kind: config::RegisterKind::U16(config::NumericRegisterKind { multiplier: None }),
    });
    assert_eq!(m.name, "power");
    assert_eq!(m.address, 7);

    let d = to_modbus_detect_register(config::DetectRegister {
        address: 1,
        kind: config::RegisterKind::U16(config::NumericRegisterKind { multiplier: None }),
        matches: "^a$".to_string(),
    });
    assert!(matches!(d.matcher, MatchSpec::Pattern(_)));

    let i = to_modbus_id_register(config::IdRegister {
        address: 2,
        kind: config::RegisterKind::U16(config::NumericRegisterKind { multiplier: None }),
    });
    assert_eq!(i.address, 2);
}

fn snapshot() -> config::Values {
    config::Values {
        log_level: None,
        discover_interval_ms: 60_000,
        ping_interval_ms: 10_000,
        measure_interval_ms: 1_000,
        push_interval_ms: 30_000,
        update_interval_ms: 30_000,
        health_interval_ms: 60_000,
        hardware: config::Hardware {
            temperature_monitor: None,
        },
        network: config::Network {
            ip_range_start: "10.0.0.1".to_string(),
            ip_range_end: "10.0.0.9".to_string(),
            timeout_ms: 200,
        },
        modbus: config::Modbus {
            initial_timeout_ms: 1000,
            initial_backoff_ms: 10,
            initial_retries: 3,
            batch_threshold: 8,
            termination_timeout_ms: 5000,
            metric_history_size: 100,
            ping_timeout_ms: 500,
            inactive_timeout_ms: 60_000,
            discovery_timeout_ms: 10_000,
            devices: vec![(
                "meter".to_string(),
                config::Device {
                    detect: vec![config::DetectRegister {
                        address: 0,
                        kind: config::RegisterKind::U16(config::NumericRegisterKind {
                            multiplier: None,
                        }),
                        matches: "5".to_string(),
                    }],
                    id: vec![config::IdRegister {
                        address: 1,
                        kind: config::RegisterKind::U16(config::NumericRegisterKind {
                            multiplier: None,
                        }),
                    }],
                    measurement: vec![config::MeasurementRegister {
                        name: "power".to_string(),
                        address: 2,
                        kind: config::RegisterKind::U16(config::NumericRegisterKind {
                            multiplier: None,
                        }),
                    }],
                },
            )],
        },
        cloud: config::Cloud {
            domain: "example.com".to_string(),
            ssl: true,
            api_key: None,
            id: None,
            timeout_ms: 5000,
        },
        db: config::Db {
            timeout_ms: 5000,
            ssl: false,
            domain: "localhost".to_string(),
            port: Some(5432),
            user: "pidgeon".to_string(),
            password: None,
            name: "pidgeon".to_string(),
        },
    }
}

#[test]
fn services_compile_the_snapshot() {
    let services = Services::new(snapshot());
    assert_eq!(services.schemas.len(), 1);
    let schema = &services.schemas[0];
    assert_eq!(schema.kind, "meter");
    assert_eq!(schema.detect.len(), 1);
    assert_eq!(schema.id.len(), 1);
    assert_eq!(schema.measurement.len(), 1);
    assert_eq!(schema.measurement[0].name, "power");
    assert_eq!(services.params.timeout_ms, 1000);
    assert_eq!(services.params.retries, 3);
    assert_eq!(services.range.start, 0x0A00_0001);
    assert_eq!(services.range.end, 0x0A00_0009);
    assert_eq!(services.termination_timeout_ms, 5000);
}

#[test]
fn schemas_are_found_by_kind() {
    let services = Services::new(snapshot());
    assert_eq!(find_schema(&services.schemas, &"meter".to_string()), Some(0));
    assert_eq!(find_schema(&services.schemas, &"other".to_string()), None);
}

#[test]
fn stream_registers_interleave_ids_first() {
    let services = Services::new(snapshot());
    let schema = &services.schemas[0];
    let regs = stream_registers(&schema.id, &schema.measurement);
    assert_eq!(regs.len(), 2);
    assert!(matches!(regs[0], StreamRegister::Id(_)));
    assert!(matches!(regs[1], StreamRegister::Measurement(_)));
}

#[test]
fn stream_identity_is_reverified() {
    let parsed = vec![IdRegister {
        address: 1,
        storage: RegisterValue::U16(42),
    }];
    assert!(verify_id(
        &"meter-42".to_string(),
        &"meter".to_string(),
        &parsed
    ));
    assert!(!verify_id(
        &"meter-41".to_string(),
        &"meter".to_string(),
        &parsed
    ));
}

#[test]
fn measurement_pairs_keep_names_and_values() {
    let regs = vec![MeasurementRegister {
        address: 2,
        storage: RegisterValue::U16(33),
        name: "power".to_string(),
    }];
    let pairs = measurement_pairs(&regs);
    assert_eq!(pairs.len(), 1);
    assert_eq!(pairs[0].0, "power");
    assert_eq!(pairs[0].1, RegisterValue::U16(33));
}

#[test]
fn device_schema_compiles_matching_detects() {
    let services = Services::new(snapshot());
    let schema: &DeviceSchema = &services.schemas[0];
    let parsed = schema.detect[0].parse(&vec![0x0005]).expect("parses");
    assert!(parsed.matches());
}
