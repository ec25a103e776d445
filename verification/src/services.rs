//! The service container: what a configuration snapshot compiles to.
//!
//! A snapshot is compiled once per job tick: every declared device becomes a
//! typed schema, the worker's initial read parameters and the sweep range
//! are fixed, and the clients around them are built by the application.

use vstd::prelude::*;

use crate::config;
use crate::config::{kind_conversion, wf_config_kind};
use crate::register;
use crate::retry::Params;
use crate::scan::{make_ip_range, IpRange};
use crate::schema::{DetectRegister, DeviceSchema, IdRegister, MatchModel, MeasurementRegister};

verus! {

/// What a service collaborator reports when it fails.
#[derive(Debug, Clone, PartialEq, Eq)]
pub enum ServiceError {
    ConfigManager(String),
    NetworkScanner(String),
    ModbusClient(String),
    DbClient(String),
    CloudClient(String),
}

/// The compiled, verifiable heart of the service container: the device
/// schemas and the numbers every job shares.
#[derive(Debug)]
pub struct Services {
    pub schemas: Vec<DeviceSchema>,
    pub params: Params,
    pub range: IpRange,
    pub network_timeout_ms: u64,
    pub termination_timeout_ms: u64,
    pub batch_threshold: u16,
}

pub open spec fn wf_device_config(d: config::Device) -> bool {
    &&& forall|i: int| 0 <= i < d.detect@.len() ==> wf_config_kind((#[trigger] d.detect@[i]).kind)
    &&& forall|i: int| 0 <= i < d.id@.len() ==> wf_config_kind((#[trigger] d.id@[i]).kind)
    &&& forall|i: int|
        0 <= i < d.measurement@.len() ==> wf_config_kind((#[trigger] d.measurement@[i]).kind)
}

/// A compiled schema carries its declared registers exactly, in order.
pub open spec fn compiled_from(s: DeviceSchema, kind: Seq<char>, d: config::Device) -> bool {
    &&& s.kind@ == kind
    &&& s.detect@.len() == d.detect@.len()
    &&& forall|j: int|
        0 <= j < d.detect@.len() ==> (#[trigger] s.detect@[j]).address == d.detect@[j].address
            && s.detect@[j].storage == kind_conversion(d.detect@[j].kind) && s.detect@[j].matcher@
            == (if crate::schema::regex_ok(d.detect@[j].matches@) {
            MatchModel::Pattern(d.detect@[j].matches@)
        } else {
            MatchModel::Literal(d.detect@[j].matches@)
        })
    &&& s.id@.len() == d.id@.len()
    &&& forall|j: int|
        0 <= j < d.id@.len() ==> (#[trigger] s.id@[j]).address == d.id@[j].address
            && s.id@[j].storage == kind_conversion(d.id@[j].kind)
    &&& s.measurement@.len() == d.measurement@.len()
    &&& forall|j: int|
        0 <= j < d.measurement@.len() ==> (#[trigger] s.measurement@[j]).address
            == d.measurement@[j].address && s.measurement@[j].storage == kind_conversion(
            d.measurement@[j].kind,
        ) && s.measurement@[j].name@ == d.measurement@[j].name@
}

fn compile_detects(regs: Vec<config::DetectRegister>) -> (r: Vec<
    DetectRegister<register::RegisterKind>,
>)
    ensures
        r@.len() == regs@.len(),
        forall|j: int|
            0 <= j < regs@.len() ==> (#[trigger] r@[j]).address == regs@[j].address && r@[j].storage
                == kind_conversion(regs@[j].kind) && r@[j].matcher@ == (if crate::schema::regex_ok(
                regs@[j].matches@,
            ) {
                MatchModel::Pattern(regs@[j].matches@)
            } else {
                MatchModel::Literal(regs@[j].matches@)
            }),
        (forall|j: int| 0 <= j < regs@.len() ==> wf_config_kind((#[trigger] regs@[j]).kind))
            ==> forall|j: int| 0 <= j < r@.len() ==> register::wf_kind((#[trigger] r@[j]).storage),
{
    let ghost regs0 = regs@;
    let total = regs.len();
    proof {
        assert(regs0.len() == total);
    }
    let mut regs = regs;
    let mut r: Vec<DetectRegister<register::RegisterKind>> = Vec::new();
    let mut i: usize = 0;
    while regs.len() > 0
        invariant
            i <= regs0.len() <= usize::MAX,
            regs@ == regs0.skip(i as int),
            r@.len() == i,
            forall|j: int|
                0 <= j < i ==> (#[trigger] r@[j]).address == regs0[j].address && r@[j].storage
                    == kind_conversion(regs0[j].kind) && r@[j].matcher@ == (
                if crate::schema::regex_ok(regs0[j].matches@) {
                    MatchModel::Pattern(regs0[j].matches@)
                } else {
                    MatchModel::Literal(regs0[j].matches@)
                }),
            forall|j: int|
                0 <= j < i ==> (wf_config_kind((#[trigger] regs0[j]).kind) ==> register::wf_kind(
                    r@[j].storage,
                )),
        decreases regs0.len() - i,
    {
        proof {
            assert(regs0.skip(i as int)[0] == regs0[i as int]);
            assert(regs0.skip(i as int).skip(1) =~= regs0.skip(i as int + 1));
        }
        let reg = regs.remove(0);
        r.push(config::to_modbus_detect_register(reg));
        i = i + 1;
    }
    r
}

fn compile_ids(regs: Vec<config::IdRegister>) -> (r: Vec<IdRegister<register::RegisterKind>>)
    ensures
        r@.len() == regs@.len(),
        forall|j: int|
            0 <= j < regs@.len() ==> (#[trigger] r@[j]).address == regs@[j].address && r@[j].storage
                == kind_conversion(regs@[j].kind),
        (forall|j: int| 0 <= j < regs@.len() ==> wf_config_kind((#[trigger] regs@[j]).kind))
            ==> forall|j: int| 0 <= j < r@.len() ==> register::wf_kind((#[trigger] r@[j]).storage),
{
    let ghost regs0 = regs@;
    let total = regs.len();
    proof {
        assert(regs0.len() == total);
    }
    let mut regs = regs;
    let mut r: Vec<IdRegister<register::RegisterKind>> = Vec::new();
    let mut i: usize = 0;
    while regs.len() > 0
        invariant
            i <= regs0.len() <= usize::MAX,
            regs@ == regs0.skip(i as int),
            r@.len() == i,
            forall|j: int|
                0 <= j < i ==> (#[trigger] r@[j]).address == regs0[j].address && r@[j].storage
                    == kind_conversion(regs0[j].kind),
            forall|j: int|
                0 <= j < i ==> (wf_config_kind((#[trigger] regs0[j]).kind) ==> register::wf_kind(
                    r@[j].storage,
                )),
        decreases regs0.len() - i,
    {
        proof {
            assert(regs0.skip(i as int)[0] == regs0[i as int]);
            assert(regs0.skip(i as int).skip(1) =~= regs0.skip(i as int + 1));
        }
        let reg = regs.remove(0);
        r.push(config::to_modbus_id_register(reg));
        i = i + 1;
    }
    r
}

fn compile_measurements(regs: Vec<config::MeasurementRegister>) -> (r: Vec<
    MeasurementRegister<register::RegisterKind>,
>)
    ensures
        r@.len() == regs@.len(),
        forall|j: int|
            0 <= j < regs@.len() ==> (#[trigger] r@[j]).address == regs@[j].address && r@[j].storage
                == kind_conversion(regs@[j].kind) && r@[j].name@ == regs@[j].name@,
        (forall|j: int| 0 <= j < regs@.len() ==> wf_config_kind((#[trigger] regs@[j]).kind))
            ==> forall|j: int| 0 <= j < r@.len() ==> register::wf_kind((#[trigger] r@[j]).storage),
{
    let ghost regs0 = regs@;
    let total = regs.len();
    proof {
        assert(regs0.len() == total);
    }
    let mut regs = regs;
    let mut r: Vec<MeasurementRegister<register::RegisterKind>> = Vec::new();
    let mut i: usize = 0;
    while regs.len() > 0
        invariant
            i <= regs0.len() <= usize::MAX,
            regs@ == regs0.skip(i as int),
            r@.len() == i,
            forall|j: int|
                0 <= j < i ==> (#[trigger] r@[j]).address == regs0[j].address && r@[j].storage
                    == kind_conversion(regs0[j].kind) && r@[j].name@ == regs0[j].name@,
            forall|j: int|
                0 <= j < i ==> (wf_config_kind((#[trigger] regs0[j]).kind) ==> register::wf_kind(
                    r@[j].storage,
                )),
        decreases regs0.len() - i,
    {
        proof {
            assert(regs0.skip(i as int)[0] == regs0[i as int]);
            assert(regs0.skip(i as int).skip(1) =~= regs0.skip(i as int + 1));
        }
        let reg = regs.remove(0);
        r.push(config::to_modbus_measurement_register(reg));
        i = i + 1;
    }
    r
}

impl Services {
    /// Compile a configuration snapshot: one schema per declared device, in
    /// declaration order, and the shared numbers.
    pub fn new(values: config::Values) -> (r: Services)
        requires
            forall|i: int|
                0 <= i < values.modbus.devices@.len() ==> wf_device_config(
                    (#[trigger] values.modbus.devices@[i]).1,
                ),
        ensures
            r.schemas@.len() == values.modbus.devices@.len(),
            forall|i: int|
                0 <= i < values.modbus.devices@.len() ==> compiled_from(
                    #[trigger] r.schemas@[i],
                    values.modbus.devices@[i].0@,
                    values.modbus.devices@[i].1,
                ),
            forall|i: int|
                0 <= i < r.schemas@.len() ==> crate::schema::wf_schema(#[trigger] r.schemas@[i]),
            r.params == (Params {
                timeout_ms: values.modbus.initial_timeout_ms,
                backoff_ms: values.modbus.initial_backoff_ms,
                retries: values.modbus.initial_retries,
            }),
            r.network_timeout_ms == values.network.timeout_ms,
            r.termination_timeout_ms == values.modbus.termination_timeout_ms,
            r.batch_threshold == values.modbus.batch_threshold,
            ((exists|a: u32| values.network.ip_range_start@ == crate::scan::ipv4_text(a)) && (
            exists|b: u32| values.network.ip_range_end@ == crate::scan::ipv4_text(b)))
                ==> values.network.ip_range_start@ == crate::scan::ipv4_text(r.range.start)
                && values.network.ip_range_end@ == crate::scan::ipv4_text(r.range.end),
            !((exists|a: u32| values.network.ip_range_start@ == crate::scan::ipv4_text(a)) && (
            exists|b: u32| values.network.ip_range_end@ == crate::scan::ipv4_text(b)))
                ==> r.range == crate::scan::default_range(),
    {
        let ghost devices0 = values.modbus.devices@;
        let device_total = values.modbus.devices.len();
        proof {
            assert(devices0.len() == device_total);
        }
        let range = make_ip_range(&values.network.ip_range_start, &values.network.ip_range_end);
        let params = Params::new(
            values.modbus.initial_timeout_ms,
            values.modbus.initial_backoff_ms,
            values.modbus.initial_retries,
        );
        let mut devices = values.modbus.devices;
        let mut schemas: Vec<DeviceSchema> = Vec::new();
        let mut i: usize = 0;
        while devices.len() > 0
            invariant
                i <= devices0.len() <= usize::MAX,
                devices@ == devices0.skip(i as int),
                schemas@.len() == i,
                forall|k: int|
                    0 <= k < devices0.len() ==> wf_device_config((#[trigger] devices0[k]).1),
                forall|k: int|
                    0 <= k < i ==> compiled_from(
                        #[trigger] schemas@[k],
                        devices0[k].0@,
                        devices0[k].1,
                    ),
                forall|k: int|
                    0 <= k < i ==> crate::schema::wf_schema(#[trigger] schemas@[k]),
            decreases devices0.len() - i,
        {
            proof {
                assert(devices0.skip(i as int)[0] == devices0[i as int]);
                assert(devices0.skip(i as int).skip(1) =~= devices0.skip(i as int + 1));
            }
            let (kind, device) = devices.remove(0);
            let schema = DeviceSchema {
                kind,
                detect: compile_detects(device.detect),
                id: compile_ids(device.id),
                measurement: compile_measurements(device.measurement),
            };
            schemas.push(schema);
            i = i + 1;
        }
        Services {
            schemas,
            params,
            range,
            network_timeout_ms: values.network.timeout_ms,
            termination_timeout_ms: values.modbus.termination_timeout_ms,
            batch_threshold: values.modbus.batch_threshold,
        }
    }

    /// Compile one declared register kind; the snapshot side of the register
    /// model.
    pub fn to_modbus_register(register: config::RegisterKind) -> (r: register::RegisterKind)
        ensures
            r == kind_conversion(register),
    {
        config::to_modbus_register_kind(register)
    }

    /// Compile one declared id register.
    pub fn to_modbus_id_register(register: config::IdRegister) -> (r: IdRegister<
        register::RegisterKind,
    >)
        ensures
            r.address == register.address,
            r.storage == kind_conversion(register.kind),
    {
        config::to_modbus_id_register(register)
    }

    /// Compile one declared detect register.
    pub fn to_modbus_detect_register(register: config::DetectRegister) -> (r: DetectRegister<
        register::RegisterKind,
    >)
        ensures
            r.address == register.address,
            r.storage == kind_conversion(register.kind),
            r.matcher@ == if crate::schema::regex_ok(register.matches@) {
                MatchModel::Pattern(register.matches@)
            } else {
                MatchModel::Literal(register.matches@)
            },
    {
        config::to_modbus_detect_register(register)
    }
}

} // verus!
