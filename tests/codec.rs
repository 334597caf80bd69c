use mos_rpc::{
    decode_request, decode_response, encode_request, encode_response, CodecError, ReplyError, RpcCallArgStructs,
    RpcCallArgType, RpcCallResult, RPC_ARG_MAGIC, RPC_REQUEST_MAGIC, RPC_RESPONSE_MAGIC,
};

#[test]
fn magics_read_as_ascii() {
    assert_eq!(&RPC_REQUEST_MAGIC.to_be_bytes(), b"RPC>");
    assert_eq!(&RPC_RESPONSE_MAGIC.to_be_bytes(), b"RPC<");
    assert_eq!(&RPC_ARG_MAGIC.to_be_bytes(), b"RPCA");
}

#[test]
fn magics_stand_at_their_offsets() {
    let req = encode_request(1, 2, &vec![RpcCallArgStructs::Uint8(5)]);
    assert_eq!(&req[0..4], b"RPC>");
    assert_eq!(&req[16..20], b"RPCA");
    let resp = encode_response(1, RpcCallResult::Success, None);
    assert_eq!(&resp[0..4], b"RPC<");
}

#[test]
fn request_layout() {
    let req = encode_request(7, 0x0102, &vec![RpcCallArgStructs::Uint32(0xAABBCCDD)]);
    assert_eq!(req.len(), 16 + 12 + 4);
    assert_eq!(&req[4..8], &[7, 0, 0, 0]);
    assert_eq!(&req[8..12], &[2, 1, 0, 0]);
    assert_eq!(&req[12..16], &[1, 0, 0, 0]);
    assert_eq!(&req[20..24], &[8, 0, 0, 0]);
    assert_eq!(&req[24..28], &[4, 0, 0, 0]);
    assert_eq!(&req[28..32], &[0xDD, 0xCC, 0xBB, 0xAA]);
}

#[test]
fn response_layout() {
    let resp = encode_response(9, RpcCallResult::InvalidArg, Some(vec![1, 2, 3]));
    assert_eq!(resp.len(), 23);
    assert_eq!(&resp[4..8], &[9, 0, 0, 0]);
    assert_eq!(&resp[8..12], &[4, 0, 0, 0]);
    assert_eq!(&resp[12..20], &[3, 0, 0, 0, 0, 0, 0, 0]);
    assert_eq!(&resp[20..], &[1, 2, 3]);
    let empty = encode_response(9, RpcCallResult::Success, None);
    assert_eq!(empty.len(), 20);
    assert_eq!(&empty[12..20], &[0; 8]);
}

#[test]
fn string_encoding_has_nul() {
    let arg = RpcCallArgStructs::String("héllo".to_string());
    let data = arg.data_bytes();
    assert_eq!(data.len(), "héllo".len() + 1);
    assert_eq!(*data.last().unwrap(), 0);
    let tlv = arg.encode();
    assert_eq!(&tlv[8..12], &[7, 0, 0, 0]);
}

#[test]
fn every_type_round_trips() {
    let values = vec![
        RpcCallArgStructs::Float32(1.5f32.to_bits()),
        RpcCallArgStructs::Float64((-2.25f64).to_bits()),
        RpcCallArgStructs::Int8(-5),
        RpcCallArgStructs::Int16(-300),
        RpcCallArgStructs::Int32(-70000),
        RpcCallArgStructs::Int64(-5_000_000_000),
        RpcCallArgStructs::Uint8(250),
        RpcCallArgStructs::Uint16(65000),
        RpcCallArgStructs::Uint32(4_000_000_000),
        RpcCallArgStructs::Uint64(u64::MAX),
        RpcCallArgStructs::String("héllo".to_string()),
        RpcCallArgStructs::Buffer(vec![0, 1, 2, 255]),
    ];
    for v in values {
        let t = v.arg_type();
        let back = RpcCallArgStructs::decode(t, v.data_bytes()).unwrap();
        assert_eq!(back, v);
        assert_eq!(back.data_bytes(), v.data_bytes());
    }
}

#[test]
fn float_bits_match_native_encoding() {
    let arg = RpcCallArgStructs::Float32(1.5f32.to_bits());
    assert_eq!(arg.data_bytes(), 1.5f32.to_le_bytes().to_vec());
}

#[test]
fn decode_rejects_wrong_width() {
    assert_eq!(RpcCallArgStructs::decode(RpcCallArgType::Uint32, vec![1, 2, 3]), Err(CodecError::BadArgType));
    assert_eq!(RpcCallArgStructs::decode(RpcCallArgType::Int8, vec![]), Err(CodecError::BadArgType));
}

#[test]
fn decode_rejects_bad_utf8() {
    assert_eq!(RpcCallArgStructs::decode(RpcCallArgType::String, vec![0xff, 0xfe, 0]), Err(CodecError::BadUtf8));
    assert_eq!(RpcCallArgStructs::decode(RpcCallArgType::String, vec![b'a', b'b']), Err(CodecError::BadUtf8));
    assert_eq!(RpcCallArgStructs::decode(RpcCallArgType::String, vec![]), Err(CodecError::BadUtf8));
}

#[test]
fn result_codes_are_ordinals() {
    assert_eq!(RpcCallResult::Success.code(), 0);
    assert_eq!(RpcCallResult::ServerInvalidFunction.code(), 1);
    assert_eq!(RpcCallResult::InvalidArg.code(), 4);
    assert_eq!(RpcCallResult::CallidMismatch.code(), 8);
    assert_eq!(RpcCallResult::from_code(3), Some(RpcCallResult::ServerInternalError));
    assert_eq!(RpcCallResult::from_code(9), None);
    assert_eq!(RpcCallArgType::Buffer.code(), 11);
    assert_eq!(RpcCallArgType::from_code(10), Some(RpcCallArgType::String));
    assert_eq!(RpcCallArgType::from_code(12), None);
}

#[test]
fn decode_response_round_trip() {
    let resp = encode_response(5, RpcCallResult::ServerInternalError, Some(vec![9, 8]));
    assert_eq!(decode_response(&resp, 5), Err(ReplyError::Server(RpcCallResult::ServerInternalError)));
    let resp = encode_response(5, RpcCallResult::Success, Some(vec![9, 8]));
    assert_eq!(decode_response(&resp, 5), Ok((RpcCallResult::Success, Some(vec![9, 8]))));
    let resp = encode_response(5, RpcCallResult::Success, Some(vec![]));
    assert_eq!(decode_response(&resp, 5), Ok((RpcCallResult::Success, None)));
}

#[test]
fn decode_response_errors() {
    let resp = encode_response(5, RpcCallResult::Success, Some(vec![1, 2, 3]));
    assert_eq!(decode_response(&resp[..2], 5), Err(ReplyError::Codec(CodecError::Truncated)));
    assert_eq!(decode_response(&resp[..22], 5), Err(ReplyError::Codec(CodecError::Truncated)));
    assert_eq!(decode_response(&resp, 6), Err(ReplyError::CallidMismatch));
    let mut bad = resp.clone();
    bad[0] = b'X';
    assert_eq!(decode_response(&bad, 5), Err(ReplyError::Codec(CodecError::BadMagic)));
    let mut unknown = resp.clone();
    unknown[8] = 99;
    assert_eq!(decode_response(&unknown, 5), Err(ReplyError::Codec(CodecError::UnknownResultCode)));
}

#[test]
fn decode_request_outcomes() {
    let req = encode_request(11, 22, &vec![RpcCallArgStructs::Int16(-2)]);
    let (h, region) = decode_request(&req).unwrap();
    assert_eq!((h.magic, h.call_id, h.function_id, h.arg_count), (RPC_REQUEST_MAGIC, 11, 22, 1));
    assert_eq!(region, RpcCallArgStructs::Int16(-2).encode());
    assert_eq!(decode_request(&req[..15]).err(), Some(CodecError::Truncated));
    let mut bad = req.clone();
    bad[3] = b'<';
    assert_eq!(decode_request(&bad).err(), Some(CodecError::BadMagic));
}
