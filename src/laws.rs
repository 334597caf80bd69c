//! End-to-end properties of the typed path: what a client encodes, the
//! server's call context reads back.

use vstd::prelude::*;
use crate::bytes::{be32_at, le32_at, le_u32_bytes, be_u32_bytes, lemma_le_u32_read_back};
use crate::wire::{RpcCallArgType, RPC_ARG_MAGIC, RPC_REQUEST_MAGIC, REQUEST_HEADER_LEN};
use crate::args::{RpcCallArgStructs, ArgValue, encode_value, value_data, value_type, value_fits, lemma_decode_encode_value};
use crate::frame::{encode_args, request_bytes, RequestHeader};
use crate::context::{skip_args, narg_spec, typed_arg_spec};

verus! {

proof fn lemma_encode_args_split(args: Seq<RpcCallArgStructs>, i: int)
    requires
        0 <= i <= args.len(),
    ensures
        encode_args(args) == encode_args(args.subrange(0, i)) + encode_args(args.subrange(i, args.len() as int)),
    decreases args.len(),
{
    if i == args.len() {
        assert(args.subrange(0, i) =~= args);
        assert(args.subrange(i, args.len() as int) =~= Seq::<RpcCallArgStructs>::empty());
        assert(encode_args(args) + Seq::<u8>::empty() =~= encode_args(args));
    } else {
        let d = args.drop_last();
        lemma_encode_args_split(d, i);
        assert(d.subrange(0, i) =~= args.subrange(0, i));
        let tail = args.subrange(i, args.len() as int);
        assert(tail.drop_last() =~= d.subrange(i, d.len() as int));
        assert(tail.last() == args.last());
        assert(encode_args(tail) == encode_args(tail.drop_last()) + encode_value(tail.last()@));
        assert(encode_args(args) =~= encode_args(args.subrange(0, i)) + encode_args(tail));
    }
}

/// The encoding of the arguments from `i` on starts with that of argument `i`.
proof fn lemma_encode_args_cons(args: Seq<RpcCallArgStructs>, i: int)
    requires
        0 <= i < args.len(),
    ensures
        encode_args(args.subrange(i, args.len() as int)) == encode_value(args[i]@) + encode_args(
            args.subrange(i + 1, args.len() as int),
        ),
{
    let tail = args.subrange(i, args.len() as int);
    lemma_encode_args_split(tail, 1);
    let one = tail.subrange(0, 1);
    assert(one.drop_last() =~= Seq::<RpcCallArgStructs>::empty());
    assert(one.last() == args[i]);
    assert(encode_args(one) == encode_args(one.drop_last()) + encode_value(one.last()@));
    assert(encode_args(Seq::<RpcCallArgStructs>::empty()) == Seq::<u8>::empty());
    assert(encode_args(one) =~= encode_value(args[i]@));
    assert(tail.subrange(1, tail.len() as int) =~= args.subrange(i as int + 1, args.len() as int));
}

/// The header fields of an argument TLV, read back from its encoding.
proof fn lemma_tlv_fields(v: ArgValue, rest: Seq<u8>)
    requires
        value_fits(v),
    ensures
        ({
            let s = encode_value(v) + rest;
            &&& s.len() >= 12
            &&& be32_at(s, 0) == RPC_ARG_MAGIC
            &&& le32_at(s, 4) == value_type(v).spec_code()
            &&& le32_at(s, 8) == value_data(v).len()
            &&& s.subrange(12, 12 + value_data(v).len() as int) == value_data(v)
            &&& s.subrange(12 + value_data(v).len() as int, s.len() as int) == rest
        }),
{
    let s = encode_value(v) + rest;
    let d = value_data(v);
    lemma_le_u32_read_back(RPC_ARG_MAGIC);
    lemma_le_u32_read_back(value_type(v).spec_code());
    lemma_le_u32_read_back(d.len() as u32);
    assert(s.subrange(0, 4) =~= be_u32_bytes(RPC_ARG_MAGIC));
    assert(s.subrange(4, 8) =~= le_u32_bytes(value_type(v).spec_code()));
    assert(s.subrange(8, 12) =~= le_u32_bytes(d.len() as u32));
    assert(be32_at(s, 0) == be32_at(be_u32_bytes(RPC_ARG_MAGIC), 0));
    assert(le32_at(s, 4) == le32_at(le_u32_bytes(value_type(v).spec_code()), 0));
    assert(le32_at(s, 8) == le32_at(le_u32_bytes(d.len() as u32), 0));
    assert(s.subrange(12, 12 + d.len() as int) =~= d);
    assert(s.subrange(12 + d.len() as int, s.len() as int) =~= rest);
}

proof fn lemma_skip_encoded(args: Seq<RpcCallArgStructs>, i: nat)
    requires
        i <= args.len(),
        forall|j: int| 0 <= j < args.len() ==> value_fits(#[trigger] args[j]@),
    ensures
        skip_args(encode_args(args), i) == Ok::<_, crate::wire::CodecError>(encode_args(args.subrange(i as int, args.len() as int))),
    decreases i,
{
    if i == 0 {
        assert(args.subrange(0, args.len() as int) =~= args);
    } else {
        let k = (i - 1) as int;
        lemma_skip_encoded(args, (i - 1) as nat);
        lemma_encode_args_cons(args, k);
        lemma_tlv_fields(args[k]@, encode_args(args.subrange(i as int, args.len() as int)));
    }
}

/// An argument that a client put at position `i` of a request is read back
/// unchanged by the server's call context, under the type it was sent with.
pub proof fn lemma_request_args_read_back(
    call_id: u32,
    function_id: u32,
    args: Seq<RpcCallArgStructs>,
    argtypes: Seq<RpcCallArgType>,
    i: nat,
)
    requires
        args.len() <= u32::MAX,
        forall|j: int| 0 <= j < args.len() ==> value_fits(#[trigger] args[j]@),
        i < args.len(),
        i < argtypes.len(),
        argtypes[i as int] == value_type(args[i as int]@),
    ensures
        ({
            let req = request_bytes(call_id, function_id, args);
            let region = req.subrange(REQUEST_HEADER_LEN as int, req.len() as int);
            &&& narg_spec(region, argtypes, i) == Ok::<_, crate::wire::CodecError>(value_data(args[i as int]@))
            &&& typed_arg_spec(region, argtypes, i, argtypes[i as int]) == Ok::<_, crate::wire::CodecError>(args[i as int]@)
        }),
{
    let req = request_bytes(call_id, function_id, args);
    let region = req.subrange(REQUEST_HEADER_LEN as int, req.len() as int);
    assert(region =~= encode_args(args));
    lemma_skip_encoded(args, i);
    lemma_encode_args_cons(args, i as int);
    let rest = encode_args(args.subrange(i as int + 1, args.len() as int));
    lemma_tlv_fields(args[i as int]@, rest);
    assert(RpcCallArgType::spec_from_code(value_type(args[i as int]@).spec_code()) == Some(value_type(args[i as int]@)));
    lemma_decode_encode_value(args[i as int]@);
}

/// A request frame read back gives the header it was built from and, as its
/// argument region, the arguments' TLVs.
pub proof fn lemma_request_round_trip(call_id: u32, function_id: u32, args: Seq<RpcCallArgStructs>)
    requires
        args.len() <= u32::MAX,
    ensures
        ({
            let req = request_bytes(call_id, function_id, args);
            &&& req.len() >= REQUEST_HEADER_LEN
            &&& RequestHeader::spec_parse(req) == (RequestHeader {
                magic: RPC_REQUEST_MAGIC,
                call_id,
                function_id,
                arg_count: args.len() as u32,
            })
            &&& req.subrange(REQUEST_HEADER_LEN as int, req.len() as int) == encode_args(args)
        }),
{
    let req = request_bytes(call_id, function_id, args);
    lemma_le_u32_read_back(RPC_REQUEST_MAGIC);
    lemma_le_u32_read_back(call_id);
    lemma_le_u32_read_back(function_id);
    lemma_le_u32_read_back(args.len() as u32);
    assert(req.subrange(0, 4) =~= be_u32_bytes(RPC_REQUEST_MAGIC));
    assert(req.subrange(4, 8) =~= le_u32_bytes(call_id));
    assert(req.subrange(8, 12) =~= le_u32_bytes(function_id));
    assert(req.subrange(12, 16) =~= le_u32_bytes(args.len() as u32));
    assert(be32_at(req, 0) == be32_at(be_u32_bytes(RPC_REQUEST_MAGIC), 0));
    assert(le32_at(req, 4) == le32_at(le_u32_bytes(call_id), 0));
    assert(le32_at(req, 8) == le32_at(le_u32_bytes(function_id), 0));
    assert(le32_at(req, 12) == le32_at(le_u32_bytes(args.len() as u32), 0));
    assert(req.subrange(REQUEST_HEADER_LEN as int, req.len() as int) =~= encode_args(args));
}

} // verus!
