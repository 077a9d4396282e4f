//! Telemetry records as the library holds them.
//!
//! Floating-point readings are carried as their IEEE-754 binary64 bit
//! patterns, and the instant a reading was taken as seconds and nanoseconds
//! since the Unix epoch (UTC). Conversion to and from `f64` and calendar
//! types happens at the edge of the program.
use vstd::prelude::*;
use vstd::string::*;

use crate::text::{signed_decimal, signed_decimal_string};

verus! {

/// The most characters a road state label may hold.
pub const MAX_ROAD_STATE_CHARS: usize = 255;

/// Whether a binary64 bit pattern encodes a finite number (its exponent field
/// is not all ones).
pub open spec fn is_finite_bits(bits: u64) -> bool {
    (bits >> 52u64) & 0x7ffu64 != 0x7ffu64
}

/// Whether a binary64 bit pattern encodes a finite number.
pub fn finite_bits(bits: u64) -> (r: bool)
    ensures
        r == is_finite_bits(bits),
{
    (bits >> 52u64) & 0x7ffu64 != 0x7ffu64
}

/// Acceleration along three axes, each a binary64 bit pattern.
#[derive(Debug, Clone, Copy, PartialEq, Eq, Structural)]
pub struct Accelerometer {
    pub x: u64,
    pub y: u64,
    pub z: u64,
}

/// A position, each coordinate a binary64 bit pattern.
#[derive(Debug, Clone, Copy, PartialEq, Eq, Structural)]
pub struct Gps {
    pub latitude: u64,
    pub longitude: u64,
}

/// An instant in UTC, as whole seconds since the Unix epoch and the
/// nanoseconds past that second.
#[derive(Debug, Clone, Copy, PartialEq, Eq, Structural)]
pub struct Timestamp {
    pub seconds: i64,
    pub nanos: u32,
}

/// One raw reading of an agent.
#[derive(Debug, Clone, Copy, PartialEq, Eq, Structural)]
pub struct Agent {
    pub accelerometer: Accelerometer,
    pub gps: Gps,
    pub timestamp: Timestamp,
}

/// A reading together with the road condition derived from it.
#[derive(Debug, PartialEq, Eq)]
pub struct ProcessedAgent {
    pub agent_data: Agent,
    pub road_state: String,
}

impl Clone for ProcessedAgent {
    fn clone(&self) -> (r: Self)
        ensures
            r == *self,
    {
        ProcessedAgent { agent_data: self.agent_data, road_state: self.road_state.clone() }
    }
}

/// Whether every reading of an agent is a finite number.
pub open spec fn agent_is_finite(a: Agent) -> bool {
    &&& is_finite_bits(a.accelerometer.x)
    &&& is_finite_bits(a.accelerometer.y)
    &&& is_finite_bits(a.accelerometer.z)
    &&& is_finite_bits(a.gps.latitude)
    &&& is_finite_bits(a.gps.longitude)
}

/// Whether a record may be stored: its label is short enough and its readings
/// are finite.
pub open spec fn is_valid_record(p: ProcessedAgent) -> bool {
    &&& p.road_state@.len() <= MAX_ROAD_STATE_CHARS
    &&& agent_is_finite(p.agent_data)
}

/// Why a record or a page request was rejected.
#[derive(Debug, Clone, Copy, PartialEq, Eq, Structural)]
pub enum ValidationError {
    /// The road state label holds more than 255 characters.
    RoadStateTooLong,
    /// A reading is infinite or not a number.
    NonFiniteReading,
    /// The page number is zero.
    PageOutOfRange,
    /// The page size lies outside 1 to 20.
    PageSizeOutOfRange,
}

/// The error that record validation reports for an invalid record.
pub open spec fn record_error(p: ProcessedAgent) -> ValidationError {
    if p.road_state@.len() > MAX_ROAD_STATE_CHARS {
        ValidationError::RoadStateTooLong
    } else {
        ValidationError::NonFiniteReading
    }
}

impl ProcessedAgent {
    /// Checks that the record may be stored.
    pub fn validate(&self) -> (r: Result<(), ValidationError>)
        ensures
            r is Ok <==> is_valid_record(*self),
            r matches Err(e) ==> e == record_error(*self),
    {
        if self.road_state.as_str().unicode_len() > MAX_ROAD_STATE_CHARS {
            return Err(ValidationError::RoadStateTooLong);
        }
        let a = &self.agent_data;
        if finite_bits(a.accelerometer.x) && finite_bits(a.accelerometer.y) && finite_bits(
            a.accelerometer.z,
        ) && finite_bits(a.gps.latitude) && finite_bits(a.gps.longitude) {
            Ok(())
        } else {
            Err(ValidationError::NonFiniteReading)
        }
    }
}

/// The identifier the store gave a record.
#[derive(Debug, Clone, Copy, PartialEq, Eq, PartialOrd, Ord, Hash, Structural)]
pub struct ProcessedAgentId(pub i32);

impl ProcessedAgentId {
    pub fn new(value: i32) -> (r: Self)
        ensures
            r.0 == value,
    {
        ProcessedAgentId(value)
    }

    pub fn get(&self) -> (r: i32)
        ensures
            r == self.0,
    {
        self.0
    }

    /// The identifier in decimal.
    pub fn to_string(&self) -> (r: String)
        ensures
            r@ == signed_decimal(self.0 as int),
    {
        signed_decimal_string(self.0)
    }

    /// The path under which the record is published, as sent in a
    /// `Location` header: `/processed-agent-data/<id>`.
    pub fn location(&self) -> (r: String)
        ensures
            r@ == "/processed-agent-data/"@ + signed_decimal(self.0 as int),
    {
        let mut out = String::from_str("/processed-agent-data/");
        let digits = signed_decimal_string(self.0);
        out.append(digits.as_str());
        out
    }
}

/// A value that is stored and addressed by identifier: `Id` names what
/// addresses it.
pub trait Dto {
    type Id<'a>;
}

impl Dto for ProcessedAgent {
    type Id<'a> = ProcessedAgentId;
}

impl Dto for [ProcessedAgent] {
    type Id<'a> = &'a [ProcessedAgentId];
}

/// A record with the identifier it has, if it has one yet.
#[derive(Debug, PartialEq, Eq)]
pub struct ProcessedAgentWithId {
    pub id: Option<ProcessedAgentId>,
    pub data: ProcessedAgent,
}

/// A record as one flat row of the store's table.
#[derive(Debug, PartialEq, Eq)]
pub struct ProcessedAgentDao {
    pub id: Option<ProcessedAgentId>,
    pub road_state: String,
    pub x: u64,
    pub y: u64,
    pub z: u64,
    pub latitude: u64,
    pub longitude: u64,
    pub timestamp: Timestamp,
}

/// The row that holds a record with its identifier.
pub open spec fn row_of(agent: ProcessedAgentWithId) -> ProcessedAgentDao {
    ProcessedAgentDao {
        id: agent.id,
        road_state: agent.data.road_state,
        x: agent.data.agent_data.accelerometer.x,
        y: agent.data.agent_data.accelerometer.y,
        z: agent.data.agent_data.accelerometer.z,
        latitude: agent.data.agent_data.gps.latitude,
        longitude: agent.data.agent_data.gps.longitude,
        timestamp: agent.data.agent_data.timestamp,
    }
}

/// The record that a row holds.
pub open spec fn record_of(dao: ProcessedAgentDao) -> ProcessedAgent {
    ProcessedAgent {
        agent_data: Agent {
            accelerometer: Accelerometer { x: dao.x, y: dao.y, z: dao.z },
            gps: Gps { latitude: dao.latitude, longitude: dao.longitude },
            timestamp: dao.timestamp,
        },
        road_state: dao.road_state,
    }
}

impl From<ProcessedAgentWithId> for ProcessedAgentDao {
    fn from(agent: ProcessedAgentWithId) -> (r: Self)
        ensures
            r == row_of(agent),
    {
        ProcessedAgentDao {
            id: agent.id,
            road_state: agent.data.road_state,
            x: agent.data.agent_data.accelerometer.x,
            y: agent.data.agent_data.accelerometer.y,
            z: agent.data.agent_data.accelerometer.z,
            latitude: agent.data.agent_data.gps.latitude,
            longitude: agent.data.agent_data.gps.longitude,
            timestamp: agent.data.agent_data.timestamp,
        }
    }
}

impl vstd::std_specs::convert::FromSpecImpl<ProcessedAgentWithId> for ProcessedAgentDao {
    open spec fn obeys_from_spec() -> bool {
        true
    }

    open spec fn from_spec(agent: ProcessedAgentWithId) -> ProcessedAgentDao {
        row_of(agent)
    }
}

impl From<ProcessedAgentDao> for ProcessedAgent {
    fn from(dao: ProcessedAgentDao) -> (r: Self)
        ensures
            r == record_of(dao),
    {
        ProcessedAgent {
            agent_data: Agent {
                accelerometer: Accelerometer { x: dao.x, y: dao.y, z: dao.z },
                gps: Gps { latitude: dao.latitude, longitude: dao.longitude },
                timestamp: dao.timestamp,
            },
            road_state: dao.road_state,
        }
    }
}

impl vstd::std_specs::convert::FromSpecImpl<ProcessedAgentDao> for ProcessedAgent {
    open spec fn obeys_from_spec() -> bool {
        true
    }

    open spec fn from_spec(dao: ProcessedAgentDao) -> ProcessedAgent {
        record_of(dao)
    }
}

impl From<ProcessedAgentDao> for ProcessedAgentWithId {
    fn from(dao: ProcessedAgentDao) -> (r: Self)
        ensures
            r == (ProcessedAgentWithId { id: dao.id, data: record_of(dao) }),
    {
        let id = dao.id;
        ProcessedAgentWithId { id, data: ProcessedAgent::from(dao) }
    }
}

impl vstd::std_specs::convert::FromSpecImpl<ProcessedAgentDao> for ProcessedAgentWithId {
    open spec fn obeys_from_spec() -> bool {
        true
    }

    open spec fn from_spec(dao: ProcessedAgentDao) -> ProcessedAgentWithId {
        ProcessedAgentWithId { id: dao.id, data: record_of(dao) }
    }
}

} // verus!
