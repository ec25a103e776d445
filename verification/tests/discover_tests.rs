use pidgeon::discover::{device_row, discover_match, match_device, match_id, DeviceMatch};
use pidgeon::register::{NumericRegisterKind, RegisterKind};
use pidgeon::retry::{Destination, IpAddress, SocketAddress};
use pidgeon::scan::{
    collect_reachable, make_ip_range, parse_ipv4, range_ips, render_ipv4, to_ip, to_socket,
    IpRange,
};
use pidgeon::schema::{DetectRegister, DeviceSchema, IdRegister, MatchSpec};
use pidgeon::store::DeviceStatus;

fn u16_kind() -> RegisterKind {
    RegisterKind::U16(NumericRegisterKind { multiplier: None })
}

fn socket() -> SocketAddress {
    SocketAddress {
        ip: IpAddress::V4(0xC0A8_0105),
        port: 502,
    }
}

fn schema() -> DeviceSchema {
    DeviceSchema {
        kind: "meter".to_string(),
        detect: vec![DetectRegister {
            address: 0,
            storage: u16_kind(),
            matcher: MatchSpec::new("5".to_string()),
        }],
        id: vec![IdRegister {
            address: 1,
            storage: u16_kind(),
        }],
        measurement: Vec::new(),
    }
}

#[test]
fn matching_schema_yields_exactly_one_device() {
    let schema = schema();
    let destination = Destination {
        address: socket(),
        slave: Some(3),
    };
    let detect = vec![vec![0x0005]];
    let ids = vec![vec![42]];
    let found = discover_match(&schema, destination, &detect, &ids).expect("matches");
    assert_eq!(found.id, "meter-42");
    assert_eq!(found.kind, "meter");
    assert_eq!(found.destination, destination);

    // a value that does not match yields no device
    let detect = vec![vec![0x0006]];
    assert!(discover_match(&schema, destination, &detect, &ids).is_none());
}

#[test]
fn match_device_requires_every_register() {
    let regs = vec![
        DetectRegister {
            address: 0,
            storage: u16_kind(),
            matcher: MatchSpec::new("1".to_string()),
        },
        DetectRegister {
            address: 1,
            storage: u16_kind(),
            matcher: MatchSpec::new("2".to_string()),
        },
    ];
    assert!(match_device(&regs, &vec![vec![1], vec![2]]));
    assert!(!match_device(&regs, &vec![vec![1], vec![3]]));
}

#[test]
fn match_id_renders_in_declaration_order() {
    let regs = vec![
        IdRegister {
            address: 0,
            storage: u16_kind(),
        },
        IdRegister {
            address: 1,
            storage: u16_kind(),
        },
    ];
    let id = match_id(&"kind".to_string(), &regs, &vec![vec![7], vec![8]]);
    assert_eq!(id.unwrap(), "kind-7-8");
}

#[test]
fn device_rows_start_healthy() {
    let m = DeviceMatch {
        id: "meter-42".to_string(),
        kind: "meter".to_string(),
        destination: Destination {
            address: socket(),
            slave: None,
        },
    };
    let row = device_row(&m, 1234);
    assert_eq!(row.id, "meter-42");
    assert_eq!(row.status, DeviceStatus::Healthy);
    assert_eq!(row.seen_ms, 1234);
    assert_eq!(row.pinged_ms, 1234);
    assert_eq!(row.slave, None);
}

#[test]
fn candidates_cover_every_slave_and_the_standalone() {
    let candidates = Destination::candidates(socket());
    assert_eq!(candidates.len(), 248);
    assert_eq!(candidates[0].slave, Some(1));
    assert_eq!(candidates[246].slave, Some(247));
    assert_eq!(candidates[247].slave, None);
    assert!(candidates.iter().all(|d| d.address == socket()));
}

#[test]
fn ipv4_texts_round_trip() {
    assert_eq!(render_ipv4(0xC0A8_0101), "192.168.1.1");
    assert_eq!(parse_ipv4(&"192.168.1.17".to_string()), Some(0xC0A8_0111));
    assert_eq!(parse_ipv4(&"0.0.0.0".to_string()), Some(0));
    assert_eq!(parse_ipv4(&"255.255.255.255".to_string()), Some(u32::MAX));
}

#[test]
fn malformed_ipv4_texts_are_refused() {
    for text in ["256.1.1.1", "01.2.3.4", "1.2.3", "1.2.3.4.5", "a.b.c.d", "", "1..2.3"] {
        assert_eq!(parse_ipv4(&text.to_string()), None, "{text}");
    }
}

#[test]
fn unparsable_ranges_fall_back_to_the_default_block() {
    let r = make_ip_range(&"10.0.0.1".to_string(), &"10.0.0.9".to_string());
    assert_eq!(
        r,
        IpRange {
            start: 0x0A00_0001,
            end: 0x0A00_0009
        }
    );
    let r = make_ip_range(&"nonsense".to_string(), &"10.0.0.9".to_string());
    assert_eq!(
        r,
        IpRange {
            start: 0xC0A8_0100,
            end: 0xC0A8_01FF
        }
    );
}

#[test]
fn default_range_bounds_render_and_parse() {
    assert_eq!(render_ipv4(0xC0A8_0100), "192.168.1.0");
    assert_eq!(render_ipv4(0xC0A8_01FF), "192.168.1.255");
    assert_eq!(parse_ipv4(&"192.168.1.255".to_string()), Some(0xC0A8_01FF));
}

#[test]
fn ranges_enumerate_inclusively_without_duplicates() {
    let ips = range_ips(&IpRange {
        start: 10,
        end: 13,
    });
    assert_eq!(ips, vec![10, 11, 12, 13]);
    let empty = range_ips(&IpRange { start: 5, end: 4 });
    assert!(empty.is_empty());
}

#[test]
fn probes_keep_only_reachable_sockets() {
    let candidates = vec![
        to_socket(IpAddress::V4(1)),
        to_socket(IpAddress::V4(2)),
        to_socket(IpAddress::V4(3)),
    ];
    let kept = collect_reachable(&candidates, &vec![true, false, true]);
    assert_eq!(kept.len(), 2);
    assert_eq!(to_ip(kept[0]), IpAddress::V4(1));
    assert_eq!(to_ip(kept[1]), IpAddress::V4(3));
    assert!(kept.iter().all(|s| s.port == 502));
}
