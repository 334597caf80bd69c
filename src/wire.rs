//! The frame layouts: request and response headers, argument TLVs and the
//! closed enumerations whose ordinals travel on the wire.

use vstd::prelude::*;
use vstd::utf8::*;
use crate::bytes::{le32_at, be32_at, le64_at, le_u32_bytes, be_u32_bytes, le_u64_bytes, le_u16_bytes, le16_at};

verus! {

/// `"RPC>"` read as a big-endian `u32`.
pub const RPC_REQUEST_MAGIC: u32 = 0x5250_433e;

/// `"RPC<"` read as a big-endian `u32`.
pub const RPC_RESPONSE_MAGIC: u32 = 0x5250_433c;

/// `"RPCA"` read as a big-endian `u32`.
pub const RPC_ARG_MAGIC: u32 = 0x5250_4341;

/// Bytes of the fixed request header: magic, call id, function id, argument count.
pub const REQUEST_HEADER_LEN: usize = 16;

/// Bytes of an argument header: magic, argument type, size.
pub const ARG_HEADER_LEN: usize = 12;

/// Bytes of the fixed response header: magic, call id, result code, data size.
pub const RESPONSE_HEADER_LEN: usize = 20;

/// Outcome of a call as carried in a response frame.
#[derive(Clone, Copy, Debug, PartialEq, Eq, Structural)]
pub enum RpcCallResult {
    Success,
    ServerInvalidFunction,
    ServerInvalidArgCount,
    ServerInternalError,
    InvalidArg,
    ClientInvalidArgspec,
    ClientWriteFailed,
    ClientReadFailed,
    CallidMismatch,
}

/// Type tag of an argument TLV.
#[derive(Clone, Copy, Debug, PartialEq, Eq, Structural)]
pub enum RpcCallArgType {
    Float32,
    Int8,
    Float64,
    Int16,
    Int32,
    Int64,
    Uint8,
    Uint16,
    Uint32,
    Uint64,
    String,
    Buffer,
}

/// Why bytes could not be read as a frame or an argument.
#[derive(Clone, Copy, Debug, PartialEq, Eq, Structural)]
pub enum CodecError {
    BadMagic,
    Truncated,
    BadArgType,
    BadUtf8,
    UnknownResultCode,
}

impl RpcCallResult {
    pub open spec fn spec_code(self) -> u32 {
        match self {
            RpcCallResult::Success => 0,
            RpcCallResult::ServerInvalidFunction => 1,
            RpcCallResult::ServerInvalidArgCount => 2,
            RpcCallResult::ServerInternalError => 3,
            RpcCallResult::InvalidArg => 4,
            RpcCallResult::ClientInvalidArgspec => 5,
            RpcCallResult::ClientWriteFailed => 6,
            RpcCallResult::ClientReadFailed => 7,
            RpcCallResult::CallidMismatch => 8,
        }
    }

    /// The result whose wire code is `c`, if there is one.
    pub open spec fn spec_from_code(c: u32) -> Option<RpcCallResult> {
        if c == 0 {
            Some(RpcCallResult::Success)
        } else if c == 1 {
            Some(RpcCallResult::ServerInvalidFunction)
        } else if c == 2 {
            Some(RpcCallResult::ServerInvalidArgCount)
        } else if c == 3 {
            Some(RpcCallResult::ServerInternalError)
        } else if c == 4 {
            Some(RpcCallResult::InvalidArg)
        } else if c == 5 {
            Some(RpcCallResult::ClientInvalidArgspec)
        } else if c == 6 {
            Some(RpcCallResult::ClientWriteFailed)
        } else if c == 7 {
            Some(RpcCallResult::ClientReadFailed)
        } else if c == 8 {
            Some(RpcCallResult::CallidMismatch)
        } else {
            None
        }
    }

    /// The wire code: the variant's position in declaration order.
    pub fn code(&self) -> (r: u32)
        ensures
            r == self.spec_code(),
    {
        match self {
            RpcCallResult::Success => 0,
            RpcCallResult::ServerInvalidFunction => 1,
            RpcCallResult::ServerInvalidArgCount => 2,
            RpcCallResult::ServerInternalError => 3,
            RpcCallResult::InvalidArg => 4,
            RpcCallResult::ClientInvalidArgspec => 5,
            RpcCallResult::ClientWriteFailed => 6,
            RpcCallResult::ClientReadFailed => 7,
            RpcCallResult::CallidMismatch => 8,
        }
    }

    pub fn from_code(c: u32) -> (r: Option<RpcCallResult>)
        ensures
            r == Self::spec_from_code(c),
            r.is_none() <==> c > 8,
            r matches Some(x) ==> x.spec_code() == c,
    {
        match c {
            0 => Some(RpcCallResult::Success),
            1 => Some(RpcCallResult::ServerInvalidFunction),
            2 => Some(RpcCallResult::ServerInvalidArgCount),
            3 => Some(RpcCallResult::ServerInternalError),
            4 => Some(RpcCallResult::InvalidArg),
            5 => Some(RpcCallResult::ClientInvalidArgspec),
            6 => Some(RpcCallResult::ClientWriteFailed),
            7 => Some(RpcCallResult::ClientReadFailed),
            8 => Some(RpcCallResult::CallidMismatch),
            _ => None,
        }
    }
}

impl RpcCallArgType {
    pub open spec fn spec_code(self) -> u32 {
        match self {
            RpcCallArgType::Float32 => 0,
            RpcCallArgType::Int8 => 1,
            RpcCallArgType::Float64 => 2,
            RpcCallArgType::Int16 => 3,
            RpcCallArgType::Int32 => 4,
            RpcCallArgType::Int64 => 5,
            RpcCallArgType::Uint8 => 6,
            RpcCallArgType::Uint16 => 7,
            RpcCallArgType::Uint32 => 8,
            RpcCallArgType::Uint64 => 9,
            RpcCallArgType::String => 10,
            RpcCallArgType::Buffer => 11,
        }
    }

    pub open spec fn spec_from_code(c: u32) -> Option<RpcCallArgType> {
        if c == 0 {
            Some(RpcCallArgType::Float32)
        } else if c == 1 {
            Some(RpcCallArgType::Int8)
        } else if c == 2 {
            Some(RpcCallArgType::Float64)
        } else if c == 3 {
            Some(RpcCallArgType::Int16)
        } else if c == 4 {
            Some(RpcCallArgType::Int32)
        } else if c == 5 {
            Some(RpcCallArgType::Int64)
        } else if c == 6 {
            Some(RpcCallArgType::Uint8)
        } else if c == 7 {
            Some(RpcCallArgType::Uint16)
        } else if c == 8 {
            Some(RpcCallArgType::Uint32)
        } else if c == 9 {
            Some(RpcCallArgType::Uint64)
        } else if c == 10 {
            Some(RpcCallArgType::String)
        } else if c == 11 {
            Some(RpcCallArgType::Buffer)
        } else {
            None
        }
    }

    /// Byte width of a numeric type; `None` for the variable-width ones.
    pub open spec fn spec_width(self) -> Option<nat> {
        match self {
            RpcCallArgType::Float32 => Some(4),
            RpcCallArgType::Int8 => Some(1),
            RpcCallArgType::Float64 => Some(8),
            RpcCallArgType::Int16 => Some(2),
            RpcCallArgType::Int32 => Some(4),
            RpcCallArgType::Int64 => Some(8),
            RpcCallArgType::Uint8 => Some(1),
            RpcCallArgType::Uint16 => Some(2),
            RpcCallArgType::Uint32 => Some(4),
            RpcCallArgType::Uint64 => Some(8),
            RpcCallArgType::String => None,
            RpcCallArgType::Buffer => None,
        }
    }

    /// The wire code: the variant's position in declaration order.
    pub fn code(&self) -> (r: u32)
        ensures
            r == self.spec_code(),
    {
        match self {
            RpcCallArgType::Float32 => 0,
            RpcCallArgType::Int8 => 1,
            RpcCallArgType::Float64 => 2,
            RpcCallArgType::Int16 => 3,
            RpcCallArgType::Int32 => 4,
            RpcCallArgType::Int64 => 5,
            RpcCallArgType::Uint8 => 6,
            RpcCallArgType::Uint16 => 7,
            RpcCallArgType::Uint32 => 8,
            RpcCallArgType::Uint64 => 9,
            RpcCallArgType::String => 10,
            RpcCallArgType::Buffer => 11,
        }
    }

    pub fn from_code(c: u32) -> (r: Option<RpcCallArgType>)
        ensures
            r == Self::spec_from_code(c),
            r.is_none() <==> c > 11,
            r matches Some(x) ==> x.spec_code() == c,
    {
        match c {
            0 => Some(RpcCallArgType::Float32),
            1 => Some(RpcCallArgType::Int8),
            2 => Some(RpcCallArgType::Float64),
            3 => Some(RpcCallArgType::Int16),
            4 => Some(RpcCallArgType::Int32),
            5 => Some(RpcCallArgType::Int64),
            6 => Some(RpcCallArgType::Uint8),
            7 => Some(RpcCallArgType::Uint16),
            8 => Some(RpcCallArgType::Uint32),
            9 => Some(RpcCallArgType::Uint64),
            10 => Some(RpcCallArgType::String),
            11 => Some(RpcCallArgType::Buffer),
            _ => None,
        }
    }
}

} // verus!
