//! The discover job's decisions.
//!
//! Discovery sweeps the network, enumerates candidate destinations behind
//! every reachable socket, and holds each device schema against them: a
//! one-shot read of the schema's detect spans must parse and match in every
//! register, then a one-shot of the id spans names the device. The worker
//! traffic is the application's; deciding what a response means is here.

use vstd::prelude::*;

use crate::register::{parse_model, wf_kind, RegisterKind, ValueModel};
use crate::retry::Destination;
use crate::schema::{
    detect_matches, make_id, make_id_model, DetectRegister, DeviceSchema, IdRegister,
};
use crate::store::{Device, DeviceStatus};

verus! {

/// The word sequences of a response, one per span.
pub open spec fn responses_view(rs: Seq<Vec<u16>>) -> Seq<Seq<u16>> {
    rs.map_values(|v: Vec<u16>| v@)
}

/// Whether one detect register accepts its span response: the response
/// parses under the register's kind and the parsed value matches.
pub open spec fn detect_accepts(reg: DetectRegister<RegisterKind>, words: Seq<u16>) -> bool {
    match parse_model(reg.storage, words) {
        Some(v) => detect_matches(reg.matcher@, v),
        None => false,
    }
}

/// Whether a schema claims a destination: every detect register accepts its
/// span response.
pub open spec fn schema_matches(
    detect: Seq<DetectRegister<RegisterKind>>,
    responses: Seq<Seq<u16>>,
) -> bool {
    forall|i: int| 0 <= i < detect.len() ==> detect_accepts(#[trigger] detect[i], responses[i])
}

/// Whether every id register's span response parses.
pub open spec fn ids_parse(regs: Seq<IdRegister<RegisterKind>>, responses: Seq<Seq<u16>>) -> bool {
    forall|i: int|
        0 <= i < regs.len() ==> parse_model((#[trigger] regs[i]).storage, responses[i]) is Some
}

/// The parsed id values, in declaration order.
pub open spec fn parsed_id_values(
    regs: Seq<IdRegister<RegisterKind>>,
    responses: Seq<Seq<u16>>,
) -> Seq<ValueModel> {
    Seq::new(regs.len(), |i: int| parse_model(regs[i].storage, responses[i]).unwrap())
}

/// The device identity a schema derives from id span responses: every
/// response must parse, and every parsed value must render.
pub open spec fn device_id_model(
    kind: Seq<char>,
    regs: Seq<IdRegister<RegisterKind>>,
    responses: Seq<Seq<u16>>,
) -> Option<Seq<char>> {
    if ids_parse(regs, responses) {
        make_id_model(kind, parsed_id_values(regs, responses))
    } else {
        None
    }
}

/// One claimed device: its identity, its schema kind, and where it answered.
#[derive(Debug, Clone)]
pub struct DeviceMatch {
    pub id: String,
    pub kind: String,
    pub destination: Destination,
}

/// Whether every detect register of a schema accepts its span response.
pub fn match_device(regs: &Vec<DetectRegister<RegisterKind>>, responses: &Vec<Vec<u16>>) -> (r:
    bool)
    requires
        responses@.len() == regs@.len(),
        forall|i: int| 0 <= i < regs@.len() ==> wf_kind((#[trigger] regs@[i]).storage),
    ensures
        r == schema_matches(regs@, responses_view(responses@)),
{
    let ghost rv = responses_view(responses@);
    let mut i: usize = 0;
    while i < regs.len()
        invariant
            i <= regs@.len(),
            rv == responses_view(responses@),
            responses@.len() == regs@.len(),
            forall|i0: int| 0 <= i0 < regs@.len() ==> wf_kind((#[trigger] regs@[i0]).storage),
            forall|k: int| 0 <= k < i ==> detect_accepts(#[trigger] regs@[k], rv[k]),
        decreases regs@.len() - i,
    {
        match regs[i].parse(&responses[i]) {
            Some(parsed) => {
                if !parsed.matches() {
                    return false;
                }
            },
            None => {
                return false;
            },
        }
        i = i + 1;
    }
    true
}

/// Render the device identity from the id span responses, when every one
/// parses and renders.
pub fn match_id(kind: &String, regs: &Vec<IdRegister<RegisterKind>>, responses: &Vec<Vec<u16>>) -> (r:
    Option<String>)
    requires
        responses@.len() == regs@.len(),
        forall|i: int| 0 <= i < regs@.len() ==> wf_kind((#[trigger] regs@[i]).storage),
    ensures
        match r {
            Some(s) => device_id_model(kind@, regs@, responses_view(responses@)) == Some(s@),
            None => device_id_model(kind@, regs@, responses_view(responses@)) is None,
        },
{
    let ghost rv = responses_view(responses@);
    let mut parsed: Vec<IdRegister<crate::register::RegisterValue>> = Vec::new();
    let mut i: usize = 0;
    while i < regs.len()
        invariant
            i <= regs@.len(),
            rv == responses_view(responses@),
            responses@.len() == regs@.len(),
            forall|i0: int| 0 <= i0 < regs@.len() ==> wf_kind((#[trigger] regs@[i0]).storage),
            parsed@.len() == i,
            forall|k: int|
                0 <= k < i ==> parse_model((#[trigger] regs@[k]).storage, rv[k]) == Some(
                    parsed@[k].storage@,
                ),
        decreases regs@.len() - i,
    {
        match regs[i].parse(&responses[i]) {
            Some(p) => {
                parsed.push(p);
            },
            None => {
                return None;
            },
        }
        i = i + 1;
    }
    proof {
        assert(parsed@.map_values(|reg: IdRegister<crate::register::RegisterValue>| reg.storage@)
            =~= parsed_id_values(regs@, rv));
    }
    make_id(kind, &parsed)
}

/// The discover decision for one destination and one schema: the device
/// match exists exactly when every detect register accepts its response and
/// the id registers yield an identity. Registers of the float kinds render
/// no canonical text in the library, so schemas that detect or identify
/// through them never match here.
pub fn discover_match(
    schema: &DeviceSchema,
    destination: Destination,
    detect_responses: &Vec<Vec<u16>>,
    id_responses: &Vec<Vec<u16>>,
) -> (r: Option<DeviceMatch>)
    requires
        crate::schema::wf_schema(*schema),
        detect_responses@.len() == schema.detect@.len(),
        id_responses@.len() == schema.id@.len(),
    ensures
        r is Some <==> (schema_matches(schema.detect@, responses_view(detect_responses@))
            && device_id_model(schema.kind@, schema.id@, responses_view(id_responses@)) is Some),
        r matches Some(m) ==> device_id_model(
            schema.kind@,
            schema.id@,
            responses_view(id_responses@),
        ) == Some(m.id@) && m.kind@ == schema.kind@ && m.destination == destination,
{
    if !match_device(&schema.detect, detect_responses) {
        return None;
    }
    match match_id(&schema.kind, &schema.id, id_responses) {
        Some(id) => Some(DeviceMatch { id, kind: schema.kind.clone(), destination }),
        None => None,
    }
}

/// The row a fresh device match is persisted as: healthy, just seen, just
/// pinged.
pub fn device_row(m: &DeviceMatch, now_ms: i64) -> (r: Device)
    ensures
        r.id@ == m.id@,
        r.kind@ == m.kind@,
        r.status == DeviceStatus::Healthy,
        r.address == m.destination.address,
        r.slave == m.destination.slave,
        r.seen_ms == now_ms,
        r.pinged_ms == now_ms,
{
    Device {
        id: m.id.clone(),
        kind: m.kind.clone(),
        status: DeviceStatus::Healthy,
        address: m.destination.address,
        slave: m.destination.slave,
        seen_ms: now_ms,
        pinged_ms: now_ms,
    }
}

/// The discover job: sweeps the network, matches schemas, and persists
/// device rows. Each one-shot it issues is bounded by the configured
/// discovery deadline.
pub struct Process {
    pub discovery_timeout_ms: u64,
}

impl Process {
    pub fn new(discovery_timeout_ms: u64) -> (p: Process)
        ensures
            p.discovery_timeout_ms == discovery_timeout_ms,
    {
        Process { discovery_timeout_ms }
    }
}

} // verus!
