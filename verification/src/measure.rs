//! The measure job's decisions.
//!
//! Measurement opens one stream per stored device, reading the device's id
//! spans and measurement spans each cycle. Every cycle re-checks that the id
//! registers still render the stored identity — a mismatch drops the stream
//! — and otherwise turns the measurement registers into one measurement
//! row's data. The streams themselves run in the application.

use vstd::prelude::*;

use crate::register::{RegisterKind, RegisterStorage, RegisterValue};
use crate::schema::{make_id, make_id_model, DeviceSchema, IdRegister, MeasurementRegister};
use crate::worker::Span;

verus! {

impl<T: RegisterStorage> Span for MeasurementRegister<T> {
    open spec fn address_spec(&self) -> u16 {
        self.address
    }

    open spec fn quantity_spec(&self) -> nat {
        self.storage.quantity_spec()
    }

    fn address(&self) -> u16 {
        self.address
    }

    fn quantity(&self) -> u16 {
        self.storage.quantity()
    }
}

impl<T: RegisterStorage> Span for crate::schema::DetectRegister<T> {
    open spec fn address_spec(&self) -> u16 {
        self.address
    }

    open spec fn quantity_spec(&self) -> nat {
        self.storage.quantity_spec()
    }

    fn address(&self) -> u16 {
        self.address
    }

    fn quantity(&self) -> u16 {
        self.storage.quantity()
    }
}

impl<T: RegisterStorage> Span for IdRegister<T> {
    open spec fn address_spec(&self) -> u16 {
        self.address
    }

    open spec fn quantity_spec(&self) -> nat {
        self.storage.quantity_spec()
    }

    fn address(&self) -> u16 {
        self.address
    }

    fn quantity(&self) -> u16 {
        self.storage.quantity()
    }
}

/// One register of a measurement stream's cycle: an id register first, then
/// the measurement registers.
#[derive(Debug, Clone)]
pub enum StreamRegister {
    Id(IdRegister<RegisterKind>),
    Measurement(MeasurementRegister<RegisterKind>),
}

impl Span for StreamRegister {
    open spec fn address_spec(&self) -> u16 {
        match self {
            StreamRegister::Id(r) => r.address,
            StreamRegister::Measurement(r) => r.address,
        }
    }

    open spec fn quantity_spec(&self) -> nat {
        match self {
            StreamRegister::Id(r) => r.storage.quantity_spec(),
            StreamRegister::Measurement(r) => r.storage.quantity_spec(),
        }
    }

    fn address(&self) -> u16 {
        match self {
            StreamRegister::Id(r) => r.address,
            StreamRegister::Measurement(r) => r.address,
        }
    }

    fn quantity(&self) -> u16 {
        match self {
            StreamRegister::Id(r) => r.storage.quantity(),
            StreamRegister::Measurement(r) => r.storage.quantity(),
        }
    }
}

/// The first schema of a device kind, by position.
pub fn find_schema(schemas: &Vec<DeviceSchema>, kind: &String) -> (r: Option<usize>)
    ensures
        match r {
            Some(ix) => ix < schemas@.len() && schemas@[ix as int].kind@ == kind@ && forall|k: int|
                0 <= k < ix ==> (#[trigger] schemas@[k]).kind@ != kind@,
            None => forall|k: int|
                0 <= k < schemas@.len() ==> (#[trigger] schemas@[k]).kind@ != kind@,
        },
{
    let mut i: usize = 0;
    while i < schemas.len()
        invariant
            i <= schemas@.len(),
            forall|k: int| 0 <= k < i ==> (#[trigger] schemas@[k]).kind@ != kind@,
        decreases schemas@.len() - i,
    {
        if schemas[i].kind == *kind {
            return Some(i);
        }
        i = i + 1;
    }
    None
}

/// The registers of one stream cycle: the id registers in order, then the
/// measurement registers in order.
pub fn stream_registers(
    ids: &Vec<IdRegister<RegisterKind>>,
    measurements: &Vec<MeasurementRegister<RegisterKind>>,
) -> (r: Vec<StreamRegister>)
    ensures
        r@.len() == ids@.len() + measurements@.len(),
        forall|i: int|
            0 <= i < ids@.len() ==> ((#[trigger] r@[i]) matches StreamRegister::Id(reg)
                && reg.address == ids@[i].address && reg.storage == ids@[i].storage),
        forall|i: int|
            ids@.len() <= i < r@.len() ==> ((#[trigger] r@[i]) matches
                StreamRegister::Measurement(reg) && reg.address == measurements@[i
                - ids@.len()].address && reg.storage == measurements@[i - ids@.len()].storage
                && reg.name@ == measurements@[i - ids@.len()].name@),
{
    let mut r: Vec<StreamRegister> = Vec::new();
    let mut i: usize = 0;
    while i < ids.len()
        invariant
            i <= ids@.len(),
            r@.len() == i,
            forall|k: int|
                0 <= k < i ==> ((#[trigger] r@[k]) matches StreamRegister::Id(reg) && reg.address
                    == ids@[k].address && reg.storage == ids@[k].storage),
        decreases ids@.len() - i,
    {
        let reg = &ids[i];
        r.push(StreamRegister::Id(IdRegister { address: reg.address, storage: reg.storage }));
        i = i + 1;
    }
    let mut j: usize = 0;
    while j < measurements.len()
        invariant
            j <= measurements@.len(),
            r@.len() == ids@.len() + j,
            forall|k: int|
                0 <= k < ids@.len() ==> ((#[trigger] r@[k]) matches StreamRegister::Id(reg)
                    && reg.address == ids@[k].address && reg.storage == ids@[k].storage),
            forall|k: int|
                ids@.len() <= k < r@.len() ==> ((#[trigger] r@[k]) matches
                    StreamRegister::Measurement(reg) && reg.address == measurements@[k
                    - ids@.len()].address && reg.storage == measurements@[k - ids@.len()].storage
                    && reg.name@ == measurements@[k - ids@.len()].name@),
        decreases measurements@.len() - j,
    {
        let reg = &measurements[j];
        r.push(
            StreamRegister::Measurement(
                MeasurementRegister {
                    address: reg.address,
                    storage: reg.storage,
                    name: reg.name.clone(),
                },
            ),
        );
        j = j + 1;
    }
    r
}

/// Whether the id registers of a cycle still render the stored identity; a
/// mismatch drops the stream.
pub fn verify_id(
    expected: &String,
    kind: &String,
    id_regs: &Vec<IdRegister<RegisterValue>>,
) -> (r: bool)
    ensures
        r == (make_id_model(
            kind@,
            id_regs@.map_values(|reg: IdRegister<RegisterValue>| reg.storage@),
        ) == Some(expected@)),
{
    match make_id(kind, id_regs) {
        Some(id) => id == *expected,
        None => false,
    }
}

/// One measurement row's data: each measurement register's name paired with
/// its parsed value, in declaration order.
pub fn measurement_pairs(regs: &Vec<MeasurementRegister<RegisterValue>>) -> (r: Vec<
    (String, RegisterValue),
>)
    ensures
        r@.len() == regs@.len(),
        forall|i: int|
            0 <= i < regs@.len() ==> (#[trigger] r@[i]).0@ == regs@[i].name@ && r@[i].1@
                == regs@[i].storage@,
{
    let mut r: Vec<(String, RegisterValue)> = Vec::new();
    let mut i: usize = 0;
    while i < regs.len()
        invariant
            i <= regs@.len(),
            r@.len() == i,
            forall|k: int|
                0 <= k < i ==> (#[trigger] r@[k]).0@ == regs@[k].name@ && r@[k].1@
                    == regs@[k].storage@,
        decreases regs@.len() - i,
    {
        let reg = &regs[i];
        r.push((reg.name.clone(), reg.storage.duplicate()));
        i = i + 1;
    }
    r
}

/// The measure job: joins stored devices with their schemas and keeps one
/// stream per device. A device unseen for longer than the configured
/// inactivity deadline is left without a stream.
pub struct Process {
    pub inactive_timeout_ms: u64,
}

impl Process {
    pub fn new(inactive_timeout_ms: u64) -> (p: Process)
        ensures
            p.inactive_timeout_ms == inactive_timeout_ms,
    {
        Process { inactive_timeout_ms }
    }
}

} // verus!
