//! Argument values and their TLV encoding.

use vstd::prelude::*;
use vstd::utf8::{valid_utf8, decode_utf8, encode_utf8, encode_utf8_decode_utf8, encode_utf8_valid_utf8};
use crate::bytes::{
    le16_at, le32_at, le64_at, le_u16_bytes, le_u32_bytes, le_u64_bytes, be_u32_bytes, push_be_u32,
    push_le_u16, push_le_u32, push_le_u64, read_le_u16, read_le_u32, read_le_u64, lemma_le_u16_read_back,
    lemma_le_u32_read_back, lemma_le_u64_read_back, lemma_u16_write_back, lemma_u32_write_back,
    lemma_u64_write_back,
};
use crate::wire::{RpcCallArgType, CodecError, RPC_ARG_MAGIC};

verus! {

/// One argument of a call. Floating-point values travel as their IEEE-754
/// bit patterns.
#[derive(Clone, Debug, PartialEq)]
pub enum RpcCallArgStructs {
    Float32(u32),
    Float64(u64),
    Int8(i8),
    Int16(i16),
    Int32(i32),
    Int64(i64),
    Uint8(u8),
    Uint16(u16),
    Uint32(u32),
    Uint64(u64),
    String(String),
    Buffer(Vec<u8>),
}

/// What an argument denotes.
pub enum ArgValue {
    Float32(u32),
    Float64(u64),
    Int8(i8),
    Int16(i16),
    Int32(i32),
    Int64(i64),
    Uint8(u8),
    Uint16(u16),
    Uint32(u32),
    Uint64(u64),
    Str(Seq<char>),
    Buf(Seq<u8>),
}

impl View for RpcCallArgStructs {
    type V = ArgValue;

    open spec fn view(&self) -> ArgValue {
        match self {
            RpcCallArgStructs::Float32(x) => ArgValue::Float32(*x),
            RpcCallArgStructs::Float64(x) => ArgValue::Float64(*x),
            RpcCallArgStructs::Int8(x) => ArgValue::Int8(*x),
            RpcCallArgStructs::Int16(x) => ArgValue::Int16(*x),
            RpcCallArgStructs::Int32(x) => ArgValue::Int32(*x),
            RpcCallArgStructs::Int64(x) => ArgValue::Int64(*x),
            RpcCallArgStructs::Uint8(x) => ArgValue::Uint8(*x),
            RpcCallArgStructs::Uint16(x) => ArgValue::Uint16(*x),
            RpcCallArgStructs::Uint32(x) => ArgValue::Uint32(*x),
            RpcCallArgStructs::Uint64(x) => ArgValue::Uint64(*x),
            RpcCallArgStructs::String(s) => ArgValue::Str(s@),
            RpcCallArgStructs::Buffer(b) => ArgValue::Buf(b@),
        }
    }
}

/// The type tag that goes with a value.
pub open spec fn value_type(v: ArgValue) -> RpcCallArgType {
    match v {
        ArgValue::Float32(_) => RpcCallArgType::Float32,
        ArgValue::Float64(_) => RpcCallArgType::Float64,
        ArgValue::Int8(_) => RpcCallArgType::Int8,
        ArgValue::Int16(_) => RpcCallArgType::Int16,
        ArgValue::Int32(_) => RpcCallArgType::Int32,
        ArgValue::Int64(_) => RpcCallArgType::Int64,
        ArgValue::Uint8(_) => RpcCallArgType::Uint8,
        ArgValue::Uint16(_) => RpcCallArgType::Uint16,
        ArgValue::Uint32(_) => RpcCallArgType::Uint32,
        ArgValue::Uint64(_) => RpcCallArgType::Uint64,
        ArgValue::Str(_) => RpcCallArgType::String,
        ArgValue::Buf(_) => RpcCallArgType::Buffer,
    }
}

/// The `data` bytes of a value's TLV: fixed-width little-endian numbers,
/// UTF-8 with a terminating NUL for strings, the bytes themselves for buffers.
pub open spec fn value_data(v: ArgValue) -> Seq<u8> {
    match v {
        ArgValue::Float32(x) => le_u32_bytes(x),
        ArgValue::Float64(x) => le_u64_bytes(x),
        ArgValue::Int8(x) => seq![x as u8],
        ArgValue::Int16(x) => le_u16_bytes(x as u16),
        ArgValue::Int32(x) => le_u32_bytes(x as u32),
        ArgValue::Int64(x) => le_u64_bytes(x as u64),
        ArgValue::Uint8(x) => seq![x],
        ArgValue::Uint16(x) => le_u16_bytes(x),
        ArgValue::Uint32(x) => le_u32_bytes(x),
        ArgValue::Uint64(x) => le_u64_bytes(x),
        ArgValue::Str(s) => encode_utf8(s).push(0u8),
        ArgValue::Buf(b) => b,
    }
}

/// The value that `data` holds under type `t`, if it is well-formed for it.
pub open spec fn decode_value(t: RpcCallArgType, d: Seq<u8>) -> Option<ArgValue> {
    match t {
        RpcCallArgType::Float32 => if d.len() == 4 { Some(ArgValue::Float32(le32_at(d, 0))) } else { None },
        RpcCallArgType::Float64 => if d.len() == 8 { Some(ArgValue::Float64(le64_at(d, 0))) } else { None },
        RpcCallArgType::Int8 => if d.len() == 1 { Some(ArgValue::Int8(d[0] as i8)) } else { None },
        RpcCallArgType::Int16 => if d.len() == 2 { Some(ArgValue::Int16(le16_at(d, 0) as i16)) } else { None },
        RpcCallArgType::Int32 => if d.len() == 4 { Some(ArgValue::Int32(le32_at(d, 0) as i32)) } else { None },
        RpcCallArgType::Int64 => if d.len() == 8 { Some(ArgValue::Int64(le64_at(d, 0) as i64)) } else { None },
        RpcCallArgType::Uint8 => if d.len() == 1 { Some(ArgValue::Uint8(d[0])) } else { None },
        RpcCallArgType::Uint16 => if d.len() == 2 { Some(ArgValue::Uint16(le16_at(d, 0))) } else { None },
        RpcCallArgType::Uint32 => if d.len() == 4 { Some(ArgValue::Uint32(le32_at(d, 0))) } else { None },
        RpcCallArgType::Uint64 => if d.len() == 8 { Some(ArgValue::Uint64(le64_at(d, 0))) } else { None },
        RpcCallArgType::String => if d.len() >= 1 && d.last() == 0u8 && valid_utf8(d.drop_last()) {
            Some(ArgValue::Str(decode_utf8(d.drop_last())))
        } else {
            None
        },
        RpcCallArgType::Buffer => Some(ArgValue::Buf(d)),
    }
}

/// The error that decoding ill-formed `data` under `t` reports.
pub open spec fn decode_error(t: RpcCallArgType) -> CodecError {
    if t == RpcCallArgType::String {
        CodecError::BadUtf8
    } else {
        CodecError::BadArgType
    }
}

/// A value whose data size fits the TLV's `u32` size field.
pub open spec fn value_fits(v: ArgValue) -> bool {
    value_data(v).len() <= u32::MAX
}

/// The whole TLV of a value.
pub open spec fn encode_value(v: ArgValue) -> Seq<u8> {
    be_u32_bytes(RPC_ARG_MAGIC) + le_u32_bytes(value_type(v).spec_code()) + le_u32_bytes(
        value_data(v).len() as u32,
    ) + value_data(v)
}

/// Round trip from values: decoding the data of a value under its own type
/// gives the value back.
pub proof fn lemma_decode_encode_value(v: ArgValue)
    ensures
        decode_value(value_type(v), value_data(v)) == Some(v),
{
    match v {
        ArgValue::Float32(x) => lemma_le_u32_read_back(x),
        ArgValue::Float64(x) => lemma_le_u64_read_back(x),
        ArgValue::Int8(x) => {
            assert((x as u8) as i8 == x) by (bit_vector);
        },
        ArgValue::Int16(x) => {
            lemma_le_u16_read_back(x as u16);
            assert((x as u16) as i16 == x) by (bit_vector);
        },
        ArgValue::Int32(x) => {
            lemma_le_u32_read_back(x as u32);
            assert((x as u32) as i32 == x) by (bit_vector);
        },
        ArgValue::Int64(x) => {
            lemma_le_u64_read_back(x as u64);
            assert((x as u64) as i64 == x) by (bit_vector);
        },
        ArgValue::Uint8(x) => {},
        ArgValue::Uint16(x) => lemma_le_u16_read_back(x),
        ArgValue::Uint32(x) => lemma_le_u32_read_back(x),
        ArgValue::Uint64(x) => lemma_le_u64_read_back(x),
        ArgValue::Str(s) => {
            let d = encode_utf8(s).push(0u8);
            assert(d.drop_last() =~= encode_utf8(s));
            encode_utf8_valid_utf8(s);
            encode_utf8_decode_utf8(s);
        },
        ArgValue::Buf(b) => {},
    }
}

/// Round trip from bytes: well-formed data, decoded and encoded again, is
/// the same data under the same type.
pub proof fn lemma_encode_decode_value(t: RpcCallArgType, d: Seq<u8>)
    requires
        decode_value(t, d).is_some(),
    ensures
        value_type(decode_value(t, d).unwrap()) == t,
        value_data(decode_value(t, d).unwrap()) == d,
{
    match t {
        RpcCallArgType::Float32 | RpcCallArgType::Uint32 => lemma_u32_write_back(d),
        RpcCallArgType::Float64 | RpcCallArgType::Uint64 => lemma_u64_write_back(d),
        RpcCallArgType::Uint16 => lemma_u16_write_back(d),
        RpcCallArgType::Int8 => {
            let b = d[0];
            assert((b as i8) as u8 == b) by (bit_vector);
            assert(seq![(d[0] as i8) as u8] =~= d);
        },
        RpcCallArgType::Uint8 => {
            assert(seq![d[0]] =~= d);
        },
        RpcCallArgType::Int16 => {
            let x = le16_at(d, 0);
            assert((x as i16) as u16 == x) by (bit_vector);
            lemma_u16_write_back(d);
        },
        RpcCallArgType::Int32 => {
            let x = le32_at(d, 0);
            assert((x as i32) as u32 == x) by (bit_vector);
            lemma_u32_write_back(d);
        },
        RpcCallArgType::Int64 => {
            let x = le64_at(d, 0);
            assert((x as i64) as u64 == x) by (bit_vector);
            lemma_u64_write_back(d);
        },
        RpcCallArgType::String => {
            vstd::utf8::decode_utf8_encode_utf8(d.drop_last());
            assert(encode_utf8(decode_utf8(d.drop_last())).push(0u8) =~= d);
        },
        RpcCallArgType::Buffer => {},
    }
}

/// Relies on `String::from_utf8`: it succeeds exactly on valid UTF-8, and the
/// string then holds the characters the bytes encode.
#[verifier::external_body]
fn string_from_utf8(b: Vec<u8>) -> (r: Option<String>)
    ensures
        r.is_some() <==> valid_utf8(b@),
        r matches Some(s) ==> s@ == decode_utf8(b@),
{
    String::from_utf8(b).ok()
}

impl RpcCallArgStructs {
    /// The type tag of this argument.
    pub fn arg_type(&self) -> (r: RpcCallArgType)
        ensures
            r == value_type(self@),
    {
        match self {
            RpcCallArgStructs::Float32(_) => RpcCallArgType::Float32,
            RpcCallArgStructs::Float64(_) => RpcCallArgType::Float64,
            RpcCallArgStructs::Int8(_) => RpcCallArgType::Int8,
            RpcCallArgStructs::Int16(_) => RpcCallArgType::Int16,
            RpcCallArgStructs::Int32(_) => RpcCallArgType::Int32,
            RpcCallArgStructs::Int64(_) => RpcCallArgType::Int64,
            RpcCallArgStructs::Uint8(_) => RpcCallArgType::Uint8,
            RpcCallArgStructs::Uint16(_) => RpcCallArgType::Uint16,
            RpcCallArgStructs::Uint32(_) => RpcCallArgType::Uint32,
            RpcCallArgStructs::Uint64(_) => RpcCallArgType::Uint64,
            RpcCallArgStructs::String(_) => RpcCallArgType::String,
            RpcCallArgStructs::Buffer(_) => RpcCallArgType::Buffer,
        }
    }

    /// The `data` bytes of this argument's TLV.
    pub fn data_bytes(&self) -> (r: Vec<u8>)
        ensures
            r@ == value_data(self@),
    {
        let mut r: Vec<u8> = Vec::new();
        match self {
            RpcCallArgStructs::Float32(x) => push_le_u32(&mut r, *x),
            RpcCallArgStructs::Float64(x) => push_le_u64(&mut r, *x),
            RpcCallArgStructs::Int8(x) => r.push(*x as u8),
            RpcCallArgStructs::Int16(x) => push_le_u16(&mut r, *x as u16),
            RpcCallArgStructs::Int32(x) => push_le_u32(&mut r, *x as u32),
            RpcCallArgStructs::Int64(x) => push_le_u64(&mut r, *x as u64),
            RpcCallArgStructs::Uint8(x) => r.push(*x),
            RpcCallArgStructs::Uint16(x) => push_le_u16(&mut r, *x),
            RpcCallArgStructs::Uint32(x) => push_le_u32(&mut r, *x),
            RpcCallArgStructs::Uint64(x) => push_le_u64(&mut r, *x),
            RpcCallArgStructs::String(s) => {
                let b = s.as_str().as_bytes();
                let mut i: usize = 0;
                while i < b.len()
                    invariant
                        0 <= i <= b@.len(),
                        r@ == b@.subrange(0, i as int),
                    decreases b@.len() - i,
                {
                    r.push(b[i]);
                    i = i + 1;
                    assert(r@ =~= b@.subrange(0, i as int));
                }
                r.push(0u8);
                assert(b@.subrange(0, b@.len() as int) =~= b@);
            },
            RpcCallArgStructs::Buffer(b) => {
                r = b.clone();
            },
        }
        assert(r@ =~= value_data(self@));
        r
    }

    /// Reads the argument that `data` holds under type `t`.
    pub fn decode(t: RpcCallArgType, data: Vec<u8>) -> (r: Result<RpcCallArgStructs, CodecError>)
        ensures
            r matches Ok(a) ==> decode_value(t, data@) == Some(a@),
            r matches Err(e) ==> decode_value(t, data@).is_none() && e == decode_error(t),
            r.is_ok() <==> decode_value(t, data@).is_some(),
    {
        let n = data.len();
        match t {
            RpcCallArgType::Float32 => if n == 4 { Ok(RpcCallArgStructs::Float32(read_le_u32(&data, 0))) } else { Err(CodecError::BadArgType) },
            RpcCallArgType::Float64 => if n == 8 { Ok(RpcCallArgStructs::Float64(read_le_u64(&data, 0))) } else { Err(CodecError::BadArgType) },
            RpcCallArgType::Int8 => if n == 1 { Ok(RpcCallArgStructs::Int8(data[0] as i8)) } else { Err(CodecError::BadArgType) },
            RpcCallArgType::Int16 => if n == 2 { Ok(RpcCallArgStructs::Int16(read_le_u16(&data, 0) as i16)) } else { Err(CodecError::BadArgType) },
            RpcCallArgType::Int32 => if n == 4 { Ok(RpcCallArgStructs::Int32(read_le_u32(&data, 0) as i32)) } else { Err(CodecError::BadArgType) },
            RpcCallArgType::Int64 => if n == 8 { Ok(RpcCallArgStructs::Int64(read_le_u64(&data, 0) as i64)) } else { Err(CodecError::BadArgType) },
            RpcCallArgType::Uint8 => if n == 1 { Ok(RpcCallArgStructs::Uint8(data[0])) } else { Err(CodecError::BadArgType) },
            RpcCallArgType::Uint16 => if n == 2 { Ok(RpcCallArgStructs::Uint16(read_le_u16(&data, 0))) } else { Err(CodecError::BadArgType) },
            RpcCallArgType::Uint32 => if n == 4 { Ok(RpcCallArgStructs::Uint32(read_le_u32(&data, 0))) } else { Err(CodecError::BadArgType) },
            RpcCallArgType::Uint64 => if n == 8 { Ok(RpcCallArgStructs::Uint64(read_le_u64(&data, 0))) } else { Err(CodecError::BadArgType) },
            RpcCallArgType::String => {
                if n == 0 || data[n - 1] != 0u8 {
                    return Err(CodecError::BadUtf8);
                }
                let mut text = data;
                text.pop();
                assert(text@ =~= data@.drop_last());
                match string_from_utf8(text) {
                    Some(s) => Ok(RpcCallArgStructs::String(s)),
                    None => Err(CodecError::BadUtf8),
                }
            },
            RpcCallArgType::Buffer => Ok(RpcCallArgStructs::Buffer(data)),
        }
    }

    /// The whole TLV of this argument.
    pub fn encode(&self) -> (r: Vec<u8>)
        requires
            value_fits(self@),
        ensures
            r@ == encode_value(self@),
    {
        let data = self.data_bytes();
        let mut r: Vec<u8> = Vec::new();
        push_be_u32(&mut r, RPC_ARG_MAGIC);
        push_le_u32(&mut r, self.arg_type().code());
        push_le_u32(&mut r, data.len() as u32);
        let mut i: usize = 0;
        let ghost head = r@;
        while i < data.len()
            invariant
                0 <= i <= data@.len(),
                r@ == head + data@.subrange(0, i as int),
            decreases data@.len() - i,
        {
            r.push(data[i]);
            i = i + 1;
            assert(r@ =~= head + data@.subrange(0, i as int));
        }
        assert(data@.subrange(0, data@.len() as int) =~= data@);
        assert(r@ =~= encode_value(self@));
        r
    }
}

} // verus!

verus! {

/// A string argument's data is its UTF-8 bytes and one more, a NUL.
pub proof fn lemma_string_data(s: Seq<char>)
    ensures
        value_data(ArgValue::Str(s)).len() == encode_utf8(s).len() + 1,
        value_data(ArgValue::Str(s)).last() == 0u8,
        value_data(ArgValue::Str(s)).drop_last() == encode_utf8(s),
{
    assert(value_data(ArgValue::Str(s)).drop_last() =~= encode_utf8(s));
}

} // verus!
