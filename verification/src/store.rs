//! The rows the gateway persists, as plain values.
//!
//! The relational store itself is an external collaborator; what the logic
//! reads and writes of it — device rows, measurement rows, log rows — is
//! modelled here, with timestamps as milliseconds since the epoch.

use vstd::prelude::*;

use crate::retry::SocketAddress;

verus! {

/// A device's standing in the store.
#[derive(Debug, Clone, Copy, PartialEq, Eq, Structural)]
pub enum DeviceStatus {
    /// Normal function.
    Healthy,
    /// Still taking measurements even though it is unreachable.
    Unreachable,
    /// Not taking measurements and unreachable.
    Inactive,
}

/// One discovered device.
#[derive(Debug, Clone)]
pub struct Device {
    pub id: String,
    pub kind: String,
    pub status: DeviceStatus,
    pub address: SocketAddress,
    pub slave: Option<u8>,
    pub seen_ms: i64,
    pub pinged_ms: i64,
}

/// One measurement row; `data` carries the serialized register values.
#[derive(Debug, Clone, PartialEq, Eq)]
pub struct Measurement {
    pub id: i64,
    pub source: String,
    pub timestamp_ms: i64,
    pub data: String,
}

/// Which job a log row belongs to.
#[derive(Debug, Clone, Copy, PartialEq, Eq, Structural)]
pub enum LogKind {
    Push,
    Update,
}

/// How an attempt ended.
#[derive(Debug, Clone, Copy, PartialEq, Eq, Structural)]
pub enum LogStatus {
    Success,
    Failure,
}

/// One attempt's log row: `last` is the highest row id the attempted batch
/// held.
#[derive(Debug, Clone, PartialEq, Eq)]
pub struct Log {
    pub id: i64,
    pub timestamp_ms: i64,
    pub last: i64,
    pub kind: LogKind,
    pub status: LogStatus,
    pub response: String,
}

} // verus!
