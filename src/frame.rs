//! Request and response frames.

use vstd::prelude::*;
use crate::bytes::{
    be32_at, be_u32_bytes, le32_at, le64_at, le_u32_bytes, le_u64_bytes, push_be_u32, push_le_u32,
    push_le_u64, read_be_u32, read_le_u32, read_le_u64, copy_range,
};
use crate::wire::{
    RpcCallResult, CodecError, RPC_REQUEST_MAGIC, RPC_RESPONSE_MAGIC, REQUEST_HEADER_LEN,
    RESPONSE_HEADER_LEN,
};
use crate::args::{RpcCallArgStructs, encode_value, value_fits};

verus! {

/// The argument TLVs of `args`, one after another.
pub open spec fn encode_args(args: Seq<RpcCallArgStructs>) -> Seq<u8>
    decreases args.len(),
{
    if args.len() == 0 {
        Seq::empty()
    } else {
        encode_args(args.drop_last()) + encode_value(args.last()@)
    }
}

/// The payload of a request frame.
pub open spec fn request_bytes(call_id: u32, function_id: u32, args: Seq<RpcCallArgStructs>) -> Seq<u8> {
    be_u32_bytes(RPC_REQUEST_MAGIC) + le_u32_bytes(call_id) + le_u32_bytes(function_id) + le_u32_bytes(
        args.len() as u32,
    ) + encode_args(args)
}

/// The bytes a response carries as data: none when absent.
pub open spec fn payload_of(data: Option<Seq<u8>>) -> Seq<u8> {
    match data {
        Some(d) => d,
        None => Seq::empty(),
    }
}

/// The bytes an optional buffer holds.
pub open spec fn opt_bytes(o: Option<Vec<u8>>) -> Option<Seq<u8>> {
    match o {
        Some(d) => Some(d@),
        None => None,
    }
}

/// The payload of a response frame.
pub open spec fn response_bytes(call_id: u32, result: RpcCallResult, data: Option<Seq<u8>>) -> Seq<u8> {
    be_u32_bytes(RPC_RESPONSE_MAGIC) + le_u32_bytes(call_id) + le_u32_bytes(result.spec_code())
        + le_u64_bytes(payload_of(data).len() as u64) + payload_of(data)
}

/// The call id a response frame carries.
pub open spec fn response_call_id(bytes: Seq<u8>) -> u32 {
    le32_at(bytes, 4)
}

/// The call id a request frame carries.
pub open spec fn request_call_id(bytes: Seq<u8>) -> u32 {
    le32_at(bytes, 4)
}

/// Encodes a request frame's payload.
pub fn encode_request(call_id: u32, function_id: u32, args: &Vec<RpcCallArgStructs>) -> (r: Vec<u8>)
    requires
        args@.len() <= u32::MAX,
        forall|i: int| 0 <= i < args@.len() ==> value_fits(#[trigger] args@[i]@),
    ensures
        r@ == request_bytes(call_id, function_id, args@),
{
    let mut r: Vec<u8> = Vec::new();
    push_be_u32(&mut r, RPC_REQUEST_MAGIC);
    push_le_u32(&mut r, call_id);
    push_le_u32(&mut r, function_id);
    push_le_u32(&mut r, args.len() as u32);
    let ghost head = r@;
    let mut i: usize = 0;
    while i < args.len()
        invariant
            0 <= i <= args@.len(),
            forall|j: int| 0 <= j < args@.len() ==> value_fits(#[trigger] args@[j]@),
            r@ == head + encode_args(args@.subrange(0, i as int)),
        decreases args@.len() - i,
    {
        let t = args[i].encode();
        let ghost before = r@;
        let mut k: usize = 0;
        while k < t.len()
            invariant
                0 <= k <= t@.len(),
                r@ == before + t@.subrange(0, k as int),
            decreases t@.len() - k,
        {
            r.push(t[k]);
            k = k + 1;
            assert(r@ =~= before + t@.subrange(0, k as int));
        }
        assert(t@.subrange(0, t@.len() as int) =~= t@);
        assert(args@.subrange(0, i + 1).drop_last() =~= args@.subrange(0, i as int));
        i = i + 1;
        assert(r@ =~= head + encode_args(args@.subrange(0, i as int)));
    }
    assert(args@.subrange(0, args@.len() as int) =~= args@);
    r
}

/// Encodes a response frame's payload.
pub fn encode_response(call_id: u32, result: RpcCallResult, data: Option<Vec<u8>>) -> (r: Vec<u8>)
    ensures
        r@ == response_bytes(call_id, result, opt_bytes(data)),
{
    let mut r: Vec<u8> = Vec::new();
    push_be_u32(&mut r, RPC_RESPONSE_MAGIC);
    push_le_u32(&mut r, call_id);
    push_le_u32(&mut r, result.code());
    match data {
        Some(d) => {
            push_le_u64(&mut r, d.len() as u64);
            let ghost head = r@;
            let mut k: usize = 0;
            while k < d.len()
                invariant
                    0 <= k <= d@.len(),
                    r@ == head + d@.subrange(0, k as int),
                decreases d@.len() - k,
            {
                r.push(d[k]);
                k = k + 1;
                assert(r@ =~= head + d@.subrange(0, k as int));
            }
            assert(d@.subrange(0, d@.len() as int) =~= d@);
        },
        None => {
            push_le_u64(&mut r, 0u64);
        },
    }
    assert(r@ =~= response_bytes(call_id, result, opt_bytes(data)));
    r
}

/// The fixed header of a request frame, read without judging it.
#[derive(Clone, Copy, Debug, PartialEq, Eq, Structural)]
pub struct RequestHeader {
    pub magic: u32,
    pub call_id: u32,
    pub function_id: u32,
    pub arg_count: u32,
}

impl RequestHeader {
    pub open spec fn spec_parse(bytes: Seq<u8>) -> RequestHeader {
        RequestHeader {
            magic: be32_at(bytes, 0),
            call_id: le32_at(bytes, 4),
            function_id: le32_at(bytes, 8),
            arg_count: le32_at(bytes, 12),
        }
    }

    /// Reads the four header fields; magic big-endian, the rest little-endian.
    pub fn parse(bytes: &[u8]) -> (r: RequestHeader)
        requires
            bytes@.len() >= REQUEST_HEADER_LEN,
        ensures
            r == Self::spec_parse(bytes@),
    {
        RequestHeader {
            magic: read_be_u32(bytes, 0),
            call_id: read_le_u32(bytes, 4),
            function_id: read_le_u32(bytes, 8),
            arg_count: read_le_u32(bytes, 12),
        }
    }
}

/// Reads a request frame: its header and the bytes of its argument TLVs.
/// A frame shorter than the header is `Truncated`; a wrong magic is
/// `BadMagic`.
pub fn decode_request(bytes: &[u8]) -> (r: Result<(RequestHeader, Vec<u8>), CodecError>)
    ensures
        bytes@.len() < REQUEST_HEADER_LEN ==> r == Err::<(RequestHeader, Vec<u8>), _>(CodecError::Truncated),
        bytes@.len() >= REQUEST_HEADER_LEN && be32_at(bytes@, 0) != RPC_REQUEST_MAGIC
            ==> r == Err::<(RequestHeader, Vec<u8>), _>(CodecError::BadMagic),
        r matches Ok((h, region)) ==> bytes@.len() >= REQUEST_HEADER_LEN && h == RequestHeader::spec_parse(bytes@)
            && h.magic == RPC_REQUEST_MAGIC && region@ == bytes@.subrange(REQUEST_HEADER_LEN as int, bytes@.len() as int),
        r.is_ok() <==> bytes@.len() >= REQUEST_HEADER_LEN && be32_at(bytes@, 0) == RPC_REQUEST_MAGIC,
{
    if bytes.len() < REQUEST_HEADER_LEN {
        return Err(CodecError::Truncated);
    }
    let h = RequestHeader::parse(bytes);
    if h.magic != RPC_REQUEST_MAGIC {
        return Err(CodecError::BadMagic);
    }
    Ok((h, copy_range(bytes, REQUEST_HEADER_LEN, bytes.len())))
}

/// Why a client rejects a response frame.
#[derive(Clone, Copy, Debug, PartialEq, Eq, Structural)]
pub enum ReplyError {
    /// The frame is not a well-formed response.
    Codec(CodecError),
    /// The response answers another call.
    CallidMismatch,
    /// The server answered with this result code, other than `Success`.
    Server(RpcCallResult),
}

/// What a client makes of a response frame to the call `call_id`.
pub open spec fn decode_response_spec(bytes: Seq<u8>, call_id: u32) -> Result<(RpcCallResult, Option<Seq<u8>>), ReplyError> {
    if bytes.len() < 4 {
        Err(ReplyError::Codec(CodecError::Truncated))
    } else if be32_at(bytes, 0) != RPC_RESPONSE_MAGIC {
        Err(ReplyError::Codec(CodecError::BadMagic))
    } else if bytes.len() < 8 {
        Err(ReplyError::Codec(CodecError::Truncated))
    } else if le32_at(bytes, 4) != call_id {
        Err(ReplyError::CallidMismatch)
    } else if bytes.len() < 12 {
        Err(ReplyError::Codec(CodecError::Truncated))
    } else if RpcCallResult::spec_from_code(le32_at(bytes, 8)).is_none() {
        Err(ReplyError::Codec(CodecError::UnknownResultCode))
    } else if bytes.len() < 20 {
        Err(ReplyError::Codec(CodecError::Truncated))
    } else if RpcCallResult::spec_from_code(le32_at(bytes, 8)) != Some(RpcCallResult::Success) {
        Err(ReplyError::Server(RpcCallResult::spec_from_code(le32_at(bytes, 8)).unwrap()))
    } else if le64_at(bytes, 12) == 0 {
        Ok((RpcCallResult::Success, None))
    } else if bytes.len() - 20 < le64_at(bytes, 12) {
        Err(ReplyError::Codec(CodecError::Truncated))
    } else {
        Ok((RpcCallResult::Success, Some(bytes.subrange(20, 20 + le64_at(bytes, 12)))))
    }
}

/// Reads a response frame sent in answer to the call `call_id`. Only a
/// `Success` response yields its data; any other known code is an error
/// carrying that code.
pub fn decode_response(bytes: &[u8], call_id: u32) -> (r: Result<(RpcCallResult, Option<Vec<u8>>), ReplyError>)
    ensures
        r matches Ok((code, data)) ==> decode_response_spec(bytes@, call_id) == Ok::<_, ReplyError>((code, opt_bytes(data))),
        r matches Err(e) ==> decode_response_spec(bytes@, call_id) == Err::<(RpcCallResult, Option<Seq<u8>>), _>(e),
{
    let n = bytes.len();
    if n < 4 {
        return Err(ReplyError::Codec(CodecError::Truncated));
    }
    if read_be_u32(bytes, 0) != RPC_RESPONSE_MAGIC {
        return Err(ReplyError::Codec(CodecError::BadMagic));
    }
    if n < 8 {
        return Err(ReplyError::Codec(CodecError::Truncated));
    }
    if read_le_u32(bytes, 4) != call_id {
        return Err(ReplyError::CallidMismatch);
    }
    if n < 12 {
        return Err(ReplyError::Codec(CodecError::Truncated));
    }
    let code = match RpcCallResult::from_code(read_le_u32(bytes, 8)) {
        Some(c) => c,
        None => return Err(ReplyError::Codec(CodecError::UnknownResultCode)),
    };
    if n < RESPONSE_HEADER_LEN {
        return Err(ReplyError::Codec(CodecError::Truncated));
    }
    if code != RpcCallResult::Success {
        return Err(ReplyError::Server(code));
    }
    let size = read_le_u64(bytes, 12);
    if size == 0 {
        return Ok((code, None));
    }
    if ((n - RESPONSE_HEADER_LEN) as u64) < size {
        return Err(ReplyError::Codec(CodecError::Truncated));
    }
    let data = copy_range(bytes, RESPONSE_HEADER_LEN, RESPONSE_HEADER_LEN + size as usize);
    Ok((code, Some(data)))
}

/// The ASCII bytes of a magic's four characters.
pub open spec fn ascii4(a: char, b: char, c: char, d: char) -> Seq<u8> {
    seq![a as u8, b as u8, c as u8, d as u8]
}

/// The magics are the characters `RPC>`, `RPC<` and `RPCA` in reading order
/// at the start of a request, of a response and of each argument TLV.
pub proof fn lemma_magic_bytes(call_id: u32, function_id: u32, args: Seq<RpcCallArgStructs>, result: RpcCallResult, data: Option<Seq<u8>>, v: crate::args::ArgValue)
    ensures
        be_u32_bytes(RPC_REQUEST_MAGIC) == ascii4('R', 'P', 'C', '>'),
        be_u32_bytes(RPC_RESPONSE_MAGIC) == ascii4('R', 'P', 'C', '<'),
        be_u32_bytes(crate::wire::RPC_ARG_MAGIC) == ascii4('R', 'P', 'C', 'A'),
        request_bytes(call_id, function_id, args).subrange(0, 4) == ascii4('R', 'P', 'C', '>'),
        response_bytes(call_id, result, data).subrange(0, 4) == ascii4('R', 'P', 'C', '<'),
        encode_value(v).subrange(0, 4) == ascii4('R', 'P', 'C', 'A'),
{
    assert(((0x5250_433eu32 >> 24u32) & 0xff) as u8 == 0x52u8 && ((0x5250_433eu32 >> 16u32) & 0xff) as u8 == 0x50u8
        && ((0x5250_433eu32 >> 8u32) & 0xff) as u8 == 0x43u8 && (0x5250_433eu32 & 0xff) as u8 == 0x3eu8) by (bit_vector);
    assert(((0x5250_433cu32 >> 24u32) & 0xff) as u8 == 0x52u8 && ((0x5250_433cu32 >> 16u32) & 0xff) as u8 == 0x50u8
        && ((0x5250_433cu32 >> 8u32) & 0xff) as u8 == 0x43u8 && (0x5250_433cu32 & 0xff) as u8 == 0x3cu8) by (bit_vector);
    assert(((0x5250_4341u32 >> 24u32) & 0xff) as u8 == 0x52u8 && ((0x5250_4341u32 >> 16u32) & 0xff) as u8 == 0x50u8
        && ((0x5250_4341u32 >> 8u32) & 0xff) as u8 == 0x43u8 && (0x5250_4341u32 & 0xff) as u8 == 0x41u8) by (bit_vector);
    assert(be_u32_bytes(RPC_REQUEST_MAGIC) =~= ascii4('R', 'P', 'C', '>'));
    assert(be_u32_bytes(RPC_RESPONSE_MAGIC) =~= ascii4('R', 'P', 'C', '<'));
    assert(be_u32_bytes(crate::wire::RPC_ARG_MAGIC) =~= ascii4('R', 'P', 'C', 'A'));
    assert(request_bytes(call_id, function_id, args).subrange(0, 4) =~= be_u32_bytes(RPC_REQUEST_MAGIC));
    assert(response_bytes(call_id, result, data).subrange(0, 4) =~= be_u32_bytes(RPC_RESPONSE_MAGIC));
    assert(encode_value(v).subrange(0, 4) =~= be_u32_bytes(crate::wire::RPC_ARG_MAGIC));
}

/// A well-formed response to another call is refused with `CallidMismatch`.
pub proof fn lemma_callid_mismatch(bytes: Seq<u8>, call_id: u32)
    requires
        bytes.len() >= 8,
        be32_at(bytes, 0) == RPC_RESPONSE_MAGIC,
        response_call_id(bytes) != call_id,
    ensures
        decode_response_spec(bytes, call_id) == Err::<(RpcCallResult, Option<Seq<u8>>), _>(ReplyError::CallidMismatch),
{
}

} // verus!
