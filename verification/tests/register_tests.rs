use pidgeon::codec::{pack_numeric_words, parse_numeric_bytes, parse_string_bytes};
use pidgeon::decimal::Decimal;
use pidgeon::register::{
    parse_value, NumericRegisterKind, RegisterKind, RegisterValue, StringRegisterKind,
};
use pidgeon::register::RegisterStorage;
use pidgeon::schema::{make_id, DetectRegister, IdRegister, MatchSpec, MeasurementRegister};

fn no_multiplier() -> NumericRegisterKind {
    NumericRegisterKind { multiplier: None }
}

fn tenth() -> NumericRegisterKind {
    NumericRegisterKind {
        multiplier: Some(Decimal {
            mantissa: 1,
            scale: 1,
        }),
    }
}

#[test]
fn u32_with_multiplier_rounds() {
    // big-endian wire words for 1000, times 0.1, rounded
    let kind = RegisterKind::U32(tenth());
    let words: Vec<u16> = vec![0x0000, 0x03E8];
    let parsed = parse_value(&kind, &words);
    assert_eq!(parsed, Some(RegisterValue::U32(100)));
}

#[test]
fn string_register_keeps_raw_bytes() {
    let kind = RegisterKind::String(StringRegisterKind { length: 4 });
    let words: Vec<u16> = vec![0x4142, 0x4344, 0x4500, 0x0000];
    let parsed = parse_value(&kind, &words);
    assert_eq!(
        parsed,
        Some(RegisterValue::String("ABCDE\0\0\0".to_string()))
    );
}

#[test]
fn detect_register_matches_five() {
    let reg = DetectRegister {
        address: 0,
        storage: RegisterKind::U16(no_multiplier()),
        matcher: MatchSpec::new("5".to_string()),
    };
    let hit = reg.parse(&vec![0x0005]).expect("parses");
    assert!(hit.matches());
    let miss = reg.parse(&vec![0x0006]).expect("parses");
    assert!(!miss.matches());
}

#[test]
fn u16_parses_exactly() {
    let kind = RegisterKind::U16(no_multiplier());
    assert_eq!(
        parse_value(&kind, &vec![0x1234]),
        Some(RegisterValue::U16(0x1234))
    );
}

#[test]
fn s16_is_twos_complement() {
    let kind = RegisterKind::S16(no_multiplier());
    assert_eq!(
        parse_value(&kind, &vec![0xFFFF]),
        Some(RegisterValue::S16(-1))
    );
    assert_eq!(
        parse_value(&kind, &vec![0x8000]),
        Some(RegisterValue::S16(i16::MIN))
    );
}

#[test]
fn s32_and_s64_decode_signed() {
    let kind = RegisterKind::S32(no_multiplier());
    assert_eq!(
        parse_value(&kind, &vec![0xFFFF, 0xFFFE]),
        Some(RegisterValue::S32(-2))
    );
    let kind = RegisterKind::S64(no_multiplier());
    assert_eq!(
        parse_value(&kind, &vec![0xFFFF, 0xFFFF, 0xFFFF, 0xFFFD]),
        Some(RegisterValue::S64(-3))
    );
}

#[test]
fn u64_decodes_most_significant_word_first() {
    let kind = RegisterKind::U64(no_multiplier());
    assert_eq!(
        parse_value(&kind, &vec![0x0123, 0x4567, 0x89AB, 0xCDEF]),
        Some(RegisterValue::U64(0x0123_4567_89AB_CDEF))
    );
}

#[test]
fn f32_carries_raw_bits() {
    let kind = RegisterKind::F32(no_multiplier());
    let parsed = parse_value(&kind, &vec![0x3F80, 0x0000]);
    assert_eq!(parsed, Some(RegisterValue::F32(0x3F80_0000)));
    if let Some(RegisterValue::F32(bits)) = parsed {
        assert_eq!(f32::from_bits(bits), 1.0f32);
    }
}

#[test]
fn multiplier_rounds_half_away_from_zero() {
    let kind = RegisterKind::U16(tenth());
    assert_eq!(
        parse_value(&kind, &vec![25]),
        Some(RegisterValue::U16(3)) // 2.5 rounds away from zero
    );
    assert_eq!(parse_value(&kind, &vec![24]), Some(RegisterValue::U16(2)));
}

#[test]
fn negative_multiplier_clamps_unsigned_to_zero() {
    let kind = RegisterKind::U16(NumericRegisterKind {
        multiplier: Some(Decimal {
            mantissa: -1,
            scale: 0,
        }),
    });
    assert_eq!(parse_value(&kind, &vec![7]), Some(RegisterValue::U16(0)));
}

#[test]
fn signed_multiplier_scales_negative_values() {
    let kind = RegisterKind::S16(tenth());
    // -25 * 0.1 = -2.5, rounded away from zero
    assert_eq!(
        parse_value(&kind, &vec![(-25i16) as u16]),
        Some(RegisterValue::S16(-3))
    );
}

#[test]
fn multiplier_clamps_at_the_signed_bounds() {
    // a large multiplier saturates the signed range on both sides
    let thousand = NumericRegisterKind {
        multiplier: Some(Decimal {
            mantissa: 1000,
            scale: 0,
        }),
    };
    let kind = RegisterKind::S16(thousand);
    assert_eq!(
        parse_value(&kind, &vec![1000]),
        Some(RegisterValue::S16(i16::MAX))
    );
    assert_eq!(
        parse_value(&kind, &vec![(-1000i16) as u16]),
        Some(RegisterValue::S16(i16::MIN))
    );
}

#[test]
fn wrong_word_count_yields_nothing() {
    let kind = RegisterKind::U32(no_multiplier());
    assert_eq!(parse_value(&kind, &vec![0x0001]), None);
    assert_eq!(parse_value(&kind, &vec![0, 0, 0]), None);
}

#[test]
fn invalid_utf8_yields_nothing() {
    let kind = RegisterKind::String(StringRegisterKind { length: 1 });
    assert_eq!(parse_value(&kind, &vec![0xFFFE]), None);
}

#[test]
fn quantity_follows_the_kind_table() {
    assert_eq!(RegisterKind::U16(no_multiplier()).quantity(), 1);
    assert_eq!(RegisterKind::U32(no_multiplier()).quantity(), 2);
    assert_eq!(RegisterKind::U64(no_multiplier()).quantity(), 4);
    assert_eq!(RegisterKind::S16(no_multiplier()).quantity(), 1);
    assert_eq!(RegisterKind::S32(no_multiplier()).quantity(), 2);
    assert_eq!(RegisterKind::S64(no_multiplier()).quantity(), 4);
    assert_eq!(RegisterKind::F32(no_multiplier()).quantity(), 2);
    assert_eq!(RegisterKind::F64(no_multiplier()).quantity(), 4);
    assert_eq!(RegisterKind::String(StringRegisterKind { length: 7 }).quantity(), 7);
}

#[test]
fn string_values_span_their_word_count() {
    // a parsed string of 2n bytes spans n words
    assert_eq!(RegisterValue::String("AB".to_string()).quantity(), 1);
    assert_eq!(RegisterValue::String("ABCDE\0\0\0".to_string()).quantity(), 4);
    assert_eq!(RegisterValue::String(String::new()).quantity(), 0);
    // a two-byte character counts by its bytes, not its characters
    assert_eq!(RegisterValue::String("\u{00E9}".to_string()).quantity(), 1);
}

#[test]
fn values_render_canonical_text() {
    assert_eq!(RegisterValue::U16(5).render().unwrap(), "5");
    assert_eq!(RegisterValue::U64(1000).render().unwrap(), "1000");
    assert_eq!(RegisterValue::S16(-3).render().unwrap(), "-3");
    assert_eq!(RegisterValue::S64(i64::MIN).render().unwrap(), "-9223372036854775808");
    assert_eq!(RegisterValue::String("ok".to_string()).render().unwrap(), "ok");
    assert_eq!(RegisterValue::F32(0).render(), None);
    assert_eq!(RegisterValue::F64(0).render(), None);
}

#[test]
fn make_id_concatenates_with_delimiter() {
    let ids = vec![
        IdRegister {
            address: 0,
            storage: RegisterValue::U16(7),
        },
        IdRegister {
            address: 1,
            storage: RegisterValue::String("x".to_string()),
        },
    ];
    assert_eq!(make_id(&"abc".to_string(), &ids).unwrap(), "abc-7-x");
    let empty: Vec<IdRegister<RegisterValue>> = Vec::new();
    assert_eq!(make_id(&"abc".to_string(), &empty).unwrap(), "abc");
}

#[test]
fn make_id_fails_on_float_ids() {
    let ids = vec![IdRegister {
        address: 0,
        storage: RegisterValue::F32(0x3F80_0000),
    }];
    assert_eq!(make_id(&"k".to_string(), &ids), None);
}

#[test]
fn measurement_register_parse_keeps_name() {
    let reg = MeasurementRegister {
        address: 3,
        storage: RegisterKind::U16(no_multiplier()),
        name: "temperature".to_string(),
    };
    let parsed = reg.parse(&vec![21]).expect("parses");
    assert_eq!(parsed.name, "temperature");
    assert_eq!(parsed.address, 3);
    assert_eq!(parsed.storage, RegisterValue::U16(21));
}

#[test]
fn byte_images_round_trip_through_packing() {
    // little-endian image of 1000 as a u32
    let bytes: Vec<u8> = vec![0xE8, 0x03, 0x00, 0x00];
    let words = pack_numeric_words(&bytes);
    assert_eq!(words, vec![0x0000, 0x03E8]);
    assert_eq!(parse_numeric_bytes(&words), bytes);
    let kind = RegisterKind::U32(no_multiplier());
    assert_eq!(parse_value(&kind, &words), Some(RegisterValue::U32(1000)));
}

#[test]
fn string_bytes_emit_in_reading_order() {
    let words: Vec<u16> = vec![0x4142, 0x4344];
    assert_eq!(parse_string_bytes(&words), vec![0x41, 0x42, 0x43, 0x44]);
}

#[test]
fn regex_patterns_compile_and_literals_fall_back() {
    // an unclosed class is not a regex: kept as a literal
    let m = MatchSpec::new("[".to_string());
    assert!(matches!(m, MatchSpec::Literal(_)));
    assert!(m.accepts(&"[".to_string()));
    let m = MatchSpec::new("^ab+$".to_string());
    assert!(matches!(m, MatchSpec::Pattern(_)));
    assert!(m.accepts(&"abbb".to_string()));
    assert!(!m.accepts(&"ac".to_string()));
}
