//! Connection parameters and the retry round of one span read.
//!
//! A read of one span is attempted up to `retries` times; before each
//! attempt the caller sleeps for the backoff and bounds the attempt by the
//! timeout. The sleeping, the wire call and the deadline live in the
//! application; the decisions — whether another attempt is due, how an
//! attempt's outcome is classified and accumulated, and what the round
//! returns — are here.

use vstd::prelude::*;

verus! {

/// An IP address held as plain values.
#[derive(Debug, Clone, Copy, PartialEq, Eq, Hash)]
pub enum IpAddress {
    V4(u32),
    V6(u128),
}

/// A socket address held as plain values.
#[derive(Debug, Clone, Copy, PartialEq, Eq, Hash)]
pub struct SocketAddress {
    pub ip: IpAddress,
    pub port: u16,
}

/// A Modbus endpoint: a socket, and the slave id when the device sits behind
/// RTU framing. Two destinations with the same socket but different slaves
/// are distinct.
#[derive(Debug, Clone, Copy, PartialEq, Eq, Hash)]
pub struct Destination {
    pub address: SocketAddress,
    pub slave: Option<u8>,
}

impl IpAddress {
    /// Field-wise equality, usable in contracts.
    pub fn same(&self, other: &IpAddress) -> (r: bool)
        ensures
            r == (*self == *other),
    {
        match (self, other) {
            (IpAddress::V4(a), IpAddress::V4(b)) => a == b,
            (IpAddress::V6(a), IpAddress::V6(b)) => a == b,
            _ => false,
        }
    }
}

impl Destination {
    /// Field-wise equality, usable in contracts.
    pub fn same(&self, other: &Destination) -> (r: bool)
        ensures
            r == (*self == *other),
    {
        let slave_same = match (self.slave, other.slave) {
            (Some(a), Some(b)) => a == b,
            (None, None) => true,
            _ => false,
        };
        slave_same && self.address.port == other.address.port && self.address.ip.same(
            &other.address.ip,
        )
    }
}

/// The smallest addressable slave id of the Modbus device range.
pub const SLAVE_MIN: u8 = 1;

/// The largest addressable slave id of the Modbus device range.
pub const SLAVE_MAX: u8 = 247;

/// Slave ids inside the inclusive Modbus device range.
pub open spec fn valid_slave(slave: u8) -> bool {
    SLAVE_MIN <= slave <= SLAVE_MAX
}

/// Why opening a connection failed: a slave id outside the device range, or
/// a transport failure with its text.
#[derive(Debug, Clone, PartialEq, Eq)]
pub enum ConnectError {
    Connect(String),
    Slave,
}

/// The slave check that opening a connection performs: a destination with a
/// slave id outside the device range is refused before anything is dialled.
pub fn check_slave(destination: &Destination) -> (r: Result<(), ConnectError>)
    ensures
        r is Ok <==> match destination.slave {
            Some(slave) => valid_slave(slave),
            None => true,
        },
        r is Err ==> r == Err::<(), ConnectError>(ConnectError::Slave),
{
    match destination.slave {
        Some(slave) => if slave < SLAVE_MIN || slave > SLAVE_MAX {
            Err(ConnectError::Slave)
        } else {
            Ok(())
        },
        None => Ok(()),
    }
}

/// Read parameters: both durations in milliseconds, `retries` the attempt
/// budget of one span read.
#[derive(Debug, Clone, Copy, PartialEq, Eq, Structural)]
pub struct Params {
    pub timeout_ms: u64,
    pub backoff_ms: u64,
    pub retries: u32,
}

impl Params {
    pub fn new(timeout_ms: u64, backoff_ms: u64, retries: u32) -> (p: Params)
        ensures
            p == (Params { timeout_ms, backoff_ms, retries }),
    {
        Params { timeout_ms, backoff_ms, retries }
    }

    pub fn timeout(self) -> (t: u64)
        ensures
            t == self.timeout_ms,
    {
        self.timeout_ms
    }

    pub fn backoff(self) -> (b: u64)
        ensures
            b == self.backoff_ms,
    {
        self.backoff_ms
    }

    pub fn retries(self) -> (r: u32)
        ensures
            r == self.retries,
    {
        self.retries
    }
}

/// Why one attempt of a span read failed: the deadline elapsed, or the
/// transport failed; each carries the reported text.
#[derive(Debug, Clone, PartialEq, Eq)]
pub enum ReadError {
    Connection(String),
    Timeout(String),
}

/// Classify the outcome of one deadline-bounded wire read. The outer result
/// is the deadline (its error text when the deadline elapsed), the inner one
/// the transport.
pub fn classify_attempt(outcome: Result<Result<Vec<u16>, String>, String>) -> (r: Result<
    Vec<u16>,
    ReadError,
>)
    ensures
        match outcome {
            Ok(Ok(data)) => r == Ok::<_, ReadError>(data),
            Ok(Err(io)) => r == Err::<Vec<u16>, _>(ReadError::Connection(io)),
            Err(elapsed) => r == Err::<Vec<u16>, _>(ReadError::Timeout(elapsed)),
        },
{
    match outcome {
        Ok(Ok(data)) => Ok(data),
        Ok(Err(io)) => Err(ReadError::Connection(io)),
        Err(elapsed) => Err(ReadError::Timeout(elapsed)),
    }
}

/// The running state of one span read's retry round.
#[derive(Debug, Clone)]
pub struct RetryState {
    pub errors: Vec<ReadError>,
    pub attempted: u64,
    pub response: Option<Vec<u16>>,
}

impl RetryState {
    /// A fresh round: nothing attempted, nothing collected.
    pub fn start() -> (s: RetryState)
        ensures
            s.errors@ == Seq::<ReadError>::empty(),
            s.attempted == 0,
            s.response is None,
    {
        RetryState { errors: Vec::new(), attempted: 0, response: None }
    }

    /// Whether the round makes another attempt: only while no response has
    /// arrived and the attempt budget is not spent.
    pub fn wants_attempt(&self, params: &Params) -> (r: bool)
        ensures
            r == (self.response is None && self.attempted != params.retries as u64),
    {
        self.response.is_none() && self.attempted != params.retries as u64
    }

    /// Absorb one attempt's outcome: a response ends the round, an error is
    /// appended to the collected list.
    pub fn absorb(&mut self, outcome: Result<Vec<u16>, ReadError>)
        requires
            old(self).response is None,
            old(self).attempted < u64::MAX,
        ensures
            final(self).attempted == old(self).attempted + 1,
            match outcome {
                Ok(data) => final(self).response == Some(data) && final(self).errors
                    == old(self).errors,
                Err(e) => final(self).errors@ == old(self).errors@.push(e) && final(self).response
                    is None,
            },
    {
        match outcome {
            Ok(data) => {
                self.response = Some(data);
            },
            Err(e) => {
                self.errors.push(e);
            },
        }
        self.attempted = self.attempted + 1;
    }

    /// Finish the round: the response if one arrived, else every collected
    /// error, one per attempt, in attempt order.
    pub fn finish(self) -> (r: Result<Vec<u16>, Vec<ReadError>>)
        ensures
            match self.response {
                Some(data) => r == Ok::<_, Vec<ReadError>>(data),
                None => r == Err::<Vec<u16>, _>(self.errors),
            },
    {
        match self.response {
            Some(data) => Ok(data),
            None => Err(self.errors),
        }
    }
}

} // verus!
