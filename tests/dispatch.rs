use mos_rpc::{
    complete_call, decode_response, encode_request, CallPlan, CodecError, ReplyError, RpcCallArgStructs,
    RpcCallArgType, RpcCallContext, RpcCallFuncInfo, RpcCallResult, RpcPbReply, RpcPbServer, RpcPbServerTrait,
    RpcServer, RpcStub, function_ids_unique, ExecError, IPC, read_buffer_len, pb_lookup, pb_reply, pb_respond, PbCallError,
};

type Handler = fn(&mut u32, &mut RpcCallContext) -> Result<(), CodecError>;

fn echo_string(_: &mut u32, ctx: &mut RpcCallContext) -> Result<(), CodecError> {
    let s = ctx.get_arg_string(0)?;
    ctx.write_response(s.into_bytes());
    Ok(())
}

fn add_u32(_: &mut u32, ctx: &mut RpcCallContext) -> Result<(), CodecError> {
    let a = ctx.get_arg_u32(0)?;
    let b = ctx.get_arg_u32(1)?;
    ctx.write_response((a + b).to_le_bytes().to_vec());
    Ok(())
}

fn server() -> RpcServer<Handler> {
    RpcServer::create(vec![
        RpcCallFuncInfo { id: 1, func: echo_string as Handler, argtypes: vec![RpcCallArgType::String] },
        RpcCallFuncInfo { id: 2, func: add_u32 as Handler, argtypes: vec![RpcCallArgType::Uint32, RpcCallArgType::Uint32] },
    ])
}

/// Runs one request frame through the typed server and returns the response frame.
fn serve(srv: &RpcServer<Handler>, msg: &Vec<u8>) -> Vec<u8> {
    match srv.plan_call(msg) {
        CallPlan::Respond(bytes) => bytes,
        CallPlan::Invoke { call_id, index, mut ctx } => {
            let mut state = 0u32;
            let ok = (srv.functions()[index].func)(&mut state, &mut ctx).is_ok();
            complete_call(call_id, ok, &mut ctx)
        }
    }
}

#[test]
fn string_echo_round_trip() {
    let srv = server();
    let mut stub = RpcStub::new();
    let mut call = stub.create_call(1);
    call.add_arg(RpcCallArgStructs::String("héllo".to_string()));
    assert!(call.fits());
    let req = call.request();
    assert_eq!(&req[24..28], &[7, 0, 0, 0]);
    let resp = serve(&srv, &req);
    let (code, data) = call.read_reply(&resp).unwrap();
    assert_eq!(code, RpcCallResult::Success);
    assert_eq!(String::from_utf8(data.unwrap()).unwrap(), "héllo");
}

#[test]
fn wrong_magic_is_invalid_arg() {
    let srv = server();
    let mut msg = vec![0xDE, 0xAD, 0xBE, 0xEF];
    msg.extend_from_slice(&42u32.to_le_bytes());
    msg.extend_from_slice(&1u32.to_le_bytes());
    msg.extend_from_slice(&0u32.to_le_bytes());
    msg.extend_from_slice(&[1, 2, 3]);
    let resp = serve(&srv, &msg);
    assert_eq!(decode_response(&resp, 42), Err(ReplyError::Server(RpcCallResult::InvalidArg)));
    assert_eq!(&resp[12..20], &[0; 8]);
}

#[test]
fn unknown_function_is_reported() {
    let srv = server();
    let req = encode_request(3, 999, &vec![]);
    let resp = serve(&srv, &req);
    assert_eq!(decode_response(&resp, 3), Err(ReplyError::Server(RpcCallResult::ServerInvalidFunction)));
}

#[test]
fn too_few_arguments_is_invalid_arg() {
    let srv = server();
    let req = encode_request(4, 2, &vec![RpcCallArgStructs::Uint32(1)]);
    let resp = serve(&srv, &req);
    assert_eq!(decode_response(&resp, 4), Err(ReplyError::Server(RpcCallResult::InvalidArg)));
}

#[test]
fn extra_arguments_are_ignored() {
    let srv = server();
    let req = encode_request(
        5,
        2,
        &vec![RpcCallArgStructs::Uint32(40), RpcCallArgStructs::Uint32(2), RpcCallArgStructs::String("x".to_string())],
    );
    let resp = serve(&srv, &req);
    assert_eq!(decode_response(&resp, 5), Ok((RpcCallResult::Success, Some(42u32.to_le_bytes().to_vec()))));
}

#[test]
fn wrong_argument_type_fails_the_handler() {
    let srv = server();
    let req = encode_request(6, 2, &vec![RpcCallArgStructs::Uint32(40), RpcCallArgStructs::Uint16(2)]);
    let resp = serve(&srv, &req);
    assert_eq!(decode_response(&resp, 6), Err(ReplyError::Server(RpcCallResult::ServerInternalError)));
}

#[test]
fn three_calls_are_correlated_in_order() {
    let srv = server();
    let mut stub = RpcStub::new();
    let mut seen = Vec::new();
    for _ in 0..3 {
        let mut call = stub.create_call(2);
        call.add_arg(RpcCallArgStructs::Uint32(1));
        call.add_arg(RpcCallArgStructs::Uint32(1));
        let resp = serve(&srv, &call.request());
        assert!(call.read_reply(&resp).is_ok());
        seen.push(u32::from_le_bytes([resp[4], resp[5], resp[6], resp[7]]));
    }
    assert_eq!(seen, vec![1, 2, 3]);
    assert_eq!(stub.call_id_seq(), 3);
}

#[test]
fn mismatched_call_id_is_rejected() {
    let srv = server();
    let mut stub = RpcStub::new();
    let first = stub.create_call(999);
    let second = stub.create_call(999);
    let resp = serve(&srv, &first.request());
    assert_eq!(second.read_reply(&resp), Err(ReplyError::CallidMismatch));
}

#[test]
fn context_reports_each_codec_error() {
    let good = RpcCallArgStructs::Uint32(7).encode();
    let ctx = RpcCallContext::new(vec![RpcCallArgType::Uint32], good.clone());
    assert_eq!(ctx.get_arg_u32(0), Ok(7));
    assert_eq!(ctx.get_arg_buffer(0), Ok(vec![7, 0, 0, 0]));
    assert_eq!(ctx.get_arg_u32(1), Err(CodecError::Truncated));
    assert_eq!(ctx.get_arg_u16(0), Err(CodecError::BadArgType));
    let mut bad_magic = good.clone();
    bad_magic[0] = 0;
    let ctx = RpcCallContext::new(vec![RpcCallArgType::Uint32], bad_magic);
    assert_eq!(ctx.get_arg_u32(0), Err(CodecError::BadMagic));
    let ctx = RpcCallContext::new(vec![RpcCallArgType::Uint32], good[..14].to_vec());
    assert_eq!(ctx.get_arg_u32(0), Err(CodecError::Truncated));
    let ctx = RpcCallContext::new(vec![RpcCallArgType::Uint16], good.clone());
    assert_eq!(ctx.get_arg_u16(0), Err(CodecError::BadArgType));
    let bad_text = RpcCallArgStructs::Buffer(vec![0xC3, 0x28, 0]).encode();
    let mut as_string = bad_text.clone();
    as_string[4] = 10;
    let ctx = RpcCallContext::new(vec![RpcCallArgType::String], as_string);
    assert_eq!(ctx.get_arg_string(0), Err(CodecError::BadUtf8));
}

#[test]
fn every_integer_getter_reads_its_type() {
    let args = vec![
        RpcCallArgStructs::Int8(-1),
        RpcCallArgStructs::Int16(-2),
        RpcCallArgStructs::Int32(-3),
        RpcCallArgStructs::Int64(-4),
        RpcCallArgStructs::Uint8(1),
        RpcCallArgStructs::Uint16(2),
        RpcCallArgStructs::Uint32(3),
        RpcCallArgStructs::Uint64(4),
    ];
    let req = encode_request(1, 1, &args);
    let types = args.iter().map(|a| a.arg_type()).collect();
    let ctx = RpcCallContext::new(types, req[16..].to_vec());
    assert_eq!(ctx.get_arg_i8(0), Ok(-1));
    assert_eq!(ctx.get_arg_i16(1), Ok(-2));
    assert_eq!(ctx.get_arg_i32(2), Ok(-3));
    assert_eq!(ctx.get_arg_i64(3), Ok(-4));
    assert_eq!(ctx.get_arg_u8(4), Ok(1));
    assert_eq!(ctx.get_arg_u16(5), Ok(2));
    assert_eq!(ctx.get_arg_u32(6), Ok(3));
    assert_eq!(ctx.get_arg_u64(7), Ok(4));
}

/// An in-memory block device answering reads; its request message is two
/// little-endian `u64`s, block offset and block count.
struct MemBlock {
    disk: Vec<u8>,
}

impl RpcPbServerTrait for MemBlock {
    fn dispatch(&mut self, function_id: u32, data: &Vec<u8>) -> RpcPbReply {
        pb_lookup(&[1], function_id)?;
        if data.len() != 16 {
            return Err(RpcCallResult::ServerInternalError);
        }
        let offset = u64::from_le_bytes(data[0..8].try_into().unwrap()) as usize;
        let n = u64::from_le_bytes(data[8..16].try_into().unwrap());
        let len = read_buffer_len(n).map_err(|_| RpcCallResult::ServerInternalError)?;
        Ok(self.disk[offset * 512..offset * 512 + len].to_vec())
    }
}

#[test]
fn register_and_read_block() {
    let mut server = RpcPbServer::create(MemBlock { disk: vec![0xAB; 1 << 20] });
    let mut stub = RpcStub::new();
    let mut msg = 0u64.to_le_bytes().to_vec();
    msg.extend_from_slice(&2u64.to_le_bytes());
    let call = stub.create_pb_call(1, msg);
    let resp = server.handle_message(&call.request());
    let (code, data) = call.read_reply(&resp).unwrap();
    let data = pb_reply(code, data).unwrap();
    assert_eq!(data.len(), 1024);
}

#[test]
fn pb_server_rejects_non_schema_frames() {
    let mut server = RpcPbServer::create(MemBlock { disk: vec![0; 4096] });
    let req = encode_request(8, 1, &vec![RpcCallArgStructs::Uint8(1), RpcCallArgStructs::Uint8(2)]);
    let resp = server.handle_message(&req);
    assert_eq!(decode_response(&resp, 8), Err(ReplyError::Server(RpcCallResult::InvalidArg)));
    let req = encode_request(9, 1, &vec![RpcCallArgStructs::Uint8(1)]);
    let resp = server.handle_message(&req);
    assert_eq!(decode_response(&resp, 9), Err(ReplyError::Server(RpcCallResult::InvalidArg)));
    let mut bad = encode_request(10, 1, &vec![RpcCallArgStructs::Buffer(vec![0; 16])]);
    bad[0] = 0;
    let resp = server.handle_message(&bad);
    assert_eq!(decode_response(&resp, 10), Err(ReplyError::Server(RpcCallResult::InvalidArg)));
    let req = encode_request(11, 7, &vec![RpcCallArgStructs::Buffer(vec![0; 16])]);
    let resp = server.handle_message(&req);
    assert_eq!(decode_response(&resp, 11), Err(ReplyError::Server(RpcCallResult::ServerInvalidFunction)));
}

#[test]
fn pb_reply_outcomes() {
    assert_eq!(pb_reply(RpcCallResult::Success, Some(vec![1])), Ok(vec![1]));
    assert_eq!(pb_reply(RpcCallResult::Success, None), Err(PbCallError::NoResponse));
    assert_eq!(
        pb_reply(RpcCallResult::ServerInternalError, Some(vec![1])),
        Err(PbCallError::Failed(RpcCallResult::ServerInternalError))
    );
}

#[test]
fn pb_respond_encodes_the_handler_answer() {
    let ok = pb_respond(12, Ok(vec![4, 5]));
    assert_eq!(decode_response(&ok, 12), Ok((RpcCallResult::Success, Some(vec![4, 5]))));
    let failed = pb_respond(13, Err(RpcCallResult::ServerInternalError));
    assert_eq!(decode_response(&failed, 13), Err(ReplyError::Server(RpcCallResult::ServerInternalError)));
}

#[test]
fn duplicate_function_ids_are_detected() {
    let dup: Vec<RpcCallFuncInfo<Handler>> = vec![
        RpcCallFuncInfo { id: 1, func: echo_string as Handler, argtypes: vec![RpcCallArgType::String] },
        RpcCallFuncInfo { id: 1, func: add_u32 as Handler, argtypes: vec![] },
    ];
    assert!(!function_ids_unique(&dup));
    let ok: Vec<RpcCallFuncInfo<Handler>> = vec![
        RpcCallFuncInfo { id: 1, func: echo_string as Handler, argtypes: vec![RpcCallArgType::String] },
        RpcCallFuncInfo { id: 2, func: add_u32 as Handler, argtypes: vec![] },
    ];
    assert!(function_ids_unique(&ok));
}

#[test]
fn server_error_codes_reach_the_client_as_errors() {
    let srv = server();
    let mut stub = RpcStub::new();
    let call = stub.create_call(999);
    let resp = serve(&srv, &call.request());
    assert_eq!(call.read_reply(&resp), Err(ReplyError::Server(RpcCallResult::ServerInvalidFunction)));
}

/// A connection whose far end is a typed server in the same process.
struct Loopback {
    srv: RpcServer<Handler>,
    pending: Option<Vec<u8>>,
    echo_offset: u32,
}

impl IPC for Loopback {
    fn send_message(&mut self, message: &[u8]) -> Result<(), std::io::Error> {
        let mut resp = serve(&self.srv, &message.to_vec());
        let id = u32::from_le_bytes([resp[4], resp[5], resp[6], resp[7]]) + self.echo_offset;
        resp[4..8].copy_from_slice(&id.to_le_bytes());
        self.pending = Some(resp);
        Ok(())
    }

    fn recv_message(&mut self) -> Result<Vec<u8>, std::io::Error> {
        self.pending.take().ok_or(std::io::Error::new(std::io::ErrorKind::UnexpectedEof, "no response"))
    }
}

#[test]
fn exec_correlates_sequential_calls() {
    let mut link = Loopback { srv: server(), pending: None, echo_offset: 0 };
    let mut stub = RpcStub::new();
    for k in 1..=3u32 {
        let mut call = stub.create_call(2);
        assert_eq!(call.call_id(), k);
        call.add_arg(RpcCallArgStructs::Uint32(k));
        call.add_arg(RpcCallArgStructs::Uint32(1));
        let (code, data) = call.exec(&mut link).unwrap();
        assert_eq!(code, RpcCallResult::Success);
        assert_eq!(data, Some((k + 1).to_le_bytes().to_vec()));
    }
}

#[test]
fn exec_refuses_a_foreign_call_id() {
    let mut link = Loopback { srv: server(), pending: None, echo_offset: 1 };
    let mut stub = RpcStub::new();
    let call = stub.create_call(999);
    assert!(matches!(call.exec(&mut link), Err(ExecError::Reply(ReplyError::CallidMismatch))));
}

#[test]
fn exec_reports_server_codes_and_read_failures() {
    let mut link = Loopback { srv: server(), pending: None, echo_offset: 0 };
    let mut stub = RpcStub::new();
    let call = stub.create_call(999);
    assert!(matches!(
        call.exec(&mut link),
        Err(ExecError::Reply(ReplyError::Server(RpcCallResult::ServerInvalidFunction)))
    ));
    assert!(matches!(link.recv_message(), Err(_)));
}

#[test]
fn pb_lookup_finds_the_handler() {
    assert_eq!(pb_lookup(&[1, 2, 3], 2), Ok(1));
    assert_eq!(pb_lookup(&[1, 2, 3], 999), Err(RpcCallResult::ServerInvalidFunction));
    assert_eq!(pb_lookup(&[], 1), Err(RpcCallResult::ServerInvalidFunction));
}
