//! HELIC-DAQ platform logic: wire protocol codecs, integer signal-generation
//! state, sensor stream parsers and broker bookkeeping.

pub mod bytes;
pub mod config;
pub mod controller;
pub mod crc;
pub mod drivers;
pub mod frame;
pub mod history;
pub mod identity;
pub mod laser;
pub mod optoncdt;
pub mod beacon;
pub mod broker;
pub mod payload;
pub mod registry;
pub mod phase;
pub mod safety;
pub mod sample_rate;
pub mod server;
pub mod session;
pub mod ssi;
pub mod storage;
pub mod table;
pub mod table_buffer;
pub mod tick;

pub use crc::crc16;

use vstd::prelude::*;

verus! {

/// Protocol magic `HL`, transmitted little endian.
pub const MAGIC: u16 = 0x4C48;

/// Wire protocol version reported by the firmware and the beacon.
pub const VERSION: u8 = 3;

/// TCP control port of the firmware and of the broker.
pub const CONTROL_PORT: u16 = 2350;

/// Kinds of error a protocol request is answered with.
#[derive(Clone, Copy, Debug, PartialEq, Eq, Structural)]
pub enum ErrorCode {
    UnknownType,
    BadIndex,
    BadLength,
    BadValue,
    ReadOnly,
    Busy,
}

/// Wire code of each protocol error, the first payload byte of an error
/// reply.
pub open spec fn error_code_wire(e: ErrorCode) -> u8 {
    match e {
        ErrorCode::UnknownType => 2,
        ErrorCode::BadIndex => 3,
        ErrorCode::ReadOnly => 4,
        ErrorCode::BadValue => 5,
        ErrorCode::BadLength => 6,
        ErrorCode::Busy => 7,
    }
}

impl ErrorCode {
    /// Wire code of the error.
    pub fn code(self) -> (c: u8)
        ensures
            c == error_code_wire(self),
    {
        match self {
            ErrorCode::UnknownType => 2,
            ErrorCode::BadIndex => 3,
            ErrorCode::ReadOnly => 4,
            ErrorCode::BadValue => 5,
            ErrorCode::BadLength => 6,
            ErrorCode::Busy => 7,
        }
    }
}

/// Element type of a registry parameter, transmitted as its struct-format
/// code.
#[derive(Clone, Copy, Debug, PartialEq, Eq, Structural)]
pub enum ParamType {
    U8,
    I8,
    Char,
    U16,
    I16,
    U32,
    I32,
    F32,
}

/// Wire code of each parameter type.
pub open spec fn param_type_code(t: ParamType) -> u8 {
    match t {
        ParamType::U8 => 0x42,
        ParamType::I8 => 0x62,
        ParamType::Char => 0x63,
        ParamType::U16 => 0x48,
        ParamType::I16 => 0x68,
        ParamType::U32 => 0x49,
        ParamType::I32 => 0x69,
        ParamType::F32 => 0x66,
    }
}

/// Size in bytes of one element of each parameter type.
pub open spec fn param_type_size(t: ParamType) -> nat {
    match t {
        ParamType::U8 | ParamType::I8 | ParamType::Char => 1,
        ParamType::U16 | ParamType::I16 => 2,
        ParamType::U32 | ParamType::I32 | ParamType::F32 => 4,
    }
}

impl ParamType {
    /// Wire code (`B b c H h I i f`).
    pub fn code(self) -> (c: u8)
        ensures
            c == param_type_code(self),
    {
        match self {
            ParamType::U8 => 0x42,
            ParamType::I8 => 0x62,
            ParamType::Char => 0x63,
            ParamType::U16 => 0x48,
            ParamType::I16 => 0x68,
            ParamType::U32 => 0x49,
            ParamType::I32 => 0x69,
            ParamType::F32 => 0x66,
        }
    }

    /// Size of one element in bytes.
    pub fn size(self) -> (n: usize)
        ensures
            n == param_type_size(self),
    {
        match self {
            ParamType::U8 | ParamType::I8 | ParamType::Char => 1,
            ParamType::U16 | ParamType::I16 => 2,
            ParamType::U32 | ParamType::I32 | ParamType::F32 => 4,
        }
    }
}

} // verus!
