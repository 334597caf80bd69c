//! The typed dispatcher: from a request frame to either a response or the
//! handler to invoke, and from the handler's outcome to the response.

use vstd::prelude::*;
use crate::bytes::{
    le32_at, le64_at, le_u32_bytes, be_u32_bytes, le_u64_bytes, lemma_le_u32_read_back, lemma_le_u64_read_back, copy_range,
};
use crate::wire::{RpcCallResult, RpcCallArgType, RPC_REQUEST_MAGIC, RPC_RESPONSE_MAGIC, REQUEST_HEADER_LEN};
use crate::frame::{
    RequestHeader, encode_response, response_bytes, response_call_id, request_call_id, payload_of,
    decode_response_spec, ReplyError,
};
use crate::context::RpcCallContext;

verus! {

/// One entry of a function table: the id clients call, the handler, and the
/// types of the arguments it reads.
pub struct RpcCallFuncInfo<F> {
    pub id: u32,
    pub func: F,
    pub argtypes: Vec<RpcCallArgType>,
}

/// A typed RPC server's function table.
pub struct RpcServer<F> {
    functions: Vec<RpcCallFuncInfo<F>>,
}

/// What to do with one request frame.
pub enum CallPlan {
    /// Send these response bytes; no handler runs.
    Respond(Vec<u8>),
    /// Run the handler of table entry `index` on `ctx`, then answer `call_id`.
    Invoke { call_id: u32, index: usize, ctx: RpcCallContext },
}

/// No two entries of a table share an id.
pub open spec fn ids_unique<F>(fs: Seq<RpcCallFuncInfo<F>>) -> bool {
    forall|i: int, j: int| 0 <= i < fs.len() && 0 <= j < fs.len() && i != j ==> #[trigger] fs[i].id != #[trigger] fs[j].id
}

/// Whether no two entries of `functions` share an id.
pub fn function_ids_unique<F>(functions: &Vec<RpcCallFuncInfo<F>>) -> (r: bool)
    ensures
        r == ids_unique(functions@),
{
    let n = functions.len();
    let mut i: usize = 0;
    while i < n
        invariant
            n == functions@.len(),
            0 <= i <= n,
            forall|a: int, b: int| 0 <= a < i && 0 <= b < n && a != b ==> #[trigger] functions@[a].id != #[trigger] functions@[b].id,
        decreases n - i,
    {
        let mut j: usize = 0;
        while j < n
            invariant
                n == functions@.len(),
                0 <= i < n,
                0 <= j <= n,
                forall|a: int, b: int| 0 <= a < i && 0 <= b < n && a != b ==> #[trigger] functions@[a].id != #[trigger] functions@[b].id,
                forall|b: int| 0 <= b < j && b != i ==> functions@[i as int].id != #[trigger] functions@[b].id,
            decreases n - j,
        {
            if j != i && functions[i].id == functions[j].id {
                assert(!ids_unique(functions@)) by {
                    assert(functions@[i as int].id == functions@[j as int].id);
                }
                return false;
            }
            j = j + 1;
        }
        i = i + 1;
    }
    true
}

impl<F> RpcServer<F> {
    /// The ids of the table, in order.
    pub open spec fn spec_ids(&self) -> Seq<u32> {
        self.spec_functions().map_values(|f: RpcCallFuncInfo<F>| f.id)
    }

    /// The declared argument types of each entry, in order.
    pub open spec fn spec_argtypes(&self) -> Seq<Seq<RpcCallArgType>> {
        self.spec_functions().map_values(|f: RpcCallFuncInfo<F>| f.argtypes@)
    }

    pub closed spec fn spec_functions(&self) -> Seq<RpcCallFuncInfo<F>> {
        self.functions@
    }

    /// The table's ids are unique.
    pub open spec fn wf(&self) -> bool {
        ids_unique(self.spec_functions())
    }

    pub fn create(functions: Vec<RpcCallFuncInfo<F>>) -> (r: RpcServer<F>)
        requires
            ids_unique(functions@),
        ensures
            r.spec_functions() == functions@,
            r.wf(),
    {
        RpcServer { functions }
    }

    /// Replaces the function table.
    pub fn set_functions(&mut self, functions: Vec<RpcCallFuncInfo<F>>)
        requires
            ids_unique(functions@),
        ensures
            final(self).spec_functions() == functions@,
            final(self).wf(),
    {
        self.functions = functions;
    }

    pub fn functions(&self) -> (r: &Vec<RpcCallFuncInfo<F>>)
        ensures
            r@ == self.spec_functions(),
    {
        &self.functions
    }

    /// Decides what a request frame calls for: a bad magic, an unknown
    /// function or too few arguments are answered at once; otherwise the
    /// entry with the requested id is to be invoked on the argument bytes.
    pub fn plan_call(&self, msg: &Vec<u8>) -> (r: CallPlan)
        requires
            self.wf(),
            msg@.len() >= REQUEST_HEADER_LEN,
        ensures
            ({
                let h = RequestHeader::spec_parse(msg@);
                let ids = self.spec_ids();
                let found = exists|i: int| 0 <= i < ids.len() && ids[i] == h.function_id;
                match r {
                    CallPlan::Respond(bytes) => {
                        &&& (h.magic != RPC_REQUEST_MAGIC ==> bytes@ == response_bytes(h.call_id, RpcCallResult::InvalidArg, None))
                        &&& (h.magic == RPC_REQUEST_MAGIC && !found ==> bytes@ == response_bytes(h.call_id, RpcCallResult::ServerInvalidFunction, None))
                        &&& (h.magic == RPC_REQUEST_MAGIC && found ==> bytes@ == response_bytes(h.call_id, RpcCallResult::InvalidArg, None)
                            && forall|i: int| 0 <= i < ids.len() && ids[i] == h.function_id ==> self.spec_argtypes()[i].len() > h.arg_count)
                    },
                    CallPlan::Invoke { call_id, index, ctx } => {
                        &&& h.magic == RPC_REQUEST_MAGIC
                        &&& call_id == h.call_id
                        &&& 0 <= index < ids.len()
                        &&& ids[index as int] == h.function_id
                        &&& forall|i: int| 0 <= i < ids.len() && ids[i] == h.function_id ==> i == index
                        &&& self.spec_argtypes()[index as int].len() <= h.arg_count
                        &&& ctx.spec_argtypes() == self.spec_argtypes()[index as int]
                        &&& ctx.spec_data() == msg@.subrange(REQUEST_HEADER_LEN as int, msg@.len() as int)
                        &&& ctx.spec_reply().is_none()
                    },
                }
            }),
    {
        let h = RequestHeader::parse(msg.as_slice());
        if h.magic != RPC_REQUEST_MAGIC {
            return CallPlan::Respond(encode_response(h.call_id, RpcCallResult::InvalidArg, None));
        }
        let ghost ids = self.spec_ids();
        let mut i: usize = 0;
        while i < self.functions.len()
            invariant
                0 <= i <= self.functions@.len(),
                ids == self.spec_ids(),
                ids.len() == self.functions@.len(),
                forall|j: int| 0 <= j < i ==> ids[j] != h.function_id,
                msg@.len() >= REQUEST_HEADER_LEN,
                h == RequestHeader::spec_parse(msg@),
                h.magic == RPC_REQUEST_MAGIC,
                self.wf(),
            decreases self.functions@.len() - i,
        {
            if self.functions[i].id == h.function_id {
                let f = &self.functions[i];
                assert(ids[i as int] == h.function_id);
                assert(self.spec_argtypes()[i as int] == f.argtypes@);
                assert(forall|k: int| 0 <= k < ids.len() && ids[k] == h.function_id ==> k == i) by {
                    assert forall|k: int| 0 <= k < ids.len() && ids[k] == h.function_id implies k == i by {
                        if k != i {
                            assert(self.functions@[k].id != self.functions@[i as int].id);
                        }
                    }
                }
                if f.argtypes.len() > h.arg_count as usize {
                    return CallPlan::Respond(encode_response(h.call_id, RpcCallResult::InvalidArg, None));
                }
                let data = copy_range(msg.as_slice(), REQUEST_HEADER_LEN, msg.len());
                let ctx = RpcCallContext::new(f.argtypes.clone(), data);
                return CallPlan::Invoke { call_id: h.call_id, index: i, ctx };
            }
            i = i + 1;
        }
        CallPlan::Respond(encode_response(h.call_id, RpcCallResult::ServerInvalidFunction, None))
    }
}

/// The response to an invoked call: `ServerInternalError` with no data when
/// the handler failed, else `Success` with the reply it left, if any.
pub fn complete_call(call_id: u32, handler_ok: bool, ctx: &mut RpcCallContext) -> (r: Vec<u8>)
    ensures
        handler_ok ==> r@ == response_bytes(call_id, RpcCallResult::Success, old(ctx).spec_reply()),
        !handler_ok ==> r@ == response_bytes(call_id, RpcCallResult::ServerInternalError, None),
{
    if handler_ok {
        let reply = ctx.take_reply();
        encode_response(call_id, RpcCallResult::Success, reply)
    } else {
        encode_response(call_id, RpcCallResult::ServerInternalError, None)
    }
}

/// What the client of a call reads from a response with `result` and
/// `data`: the data under `Success` (an empty payload reads as none), else an
/// error carrying the code.
pub open spec fn reply_outcome(result: RpcCallResult, data: Option<Seq<u8>>) -> Result<(RpcCallResult, Option<Seq<u8>>), ReplyError> {
    if result != RpcCallResult::Success {
        Err(ReplyError::Server(result))
    } else if payload_of(data).len() == 0 {
        Ok((result, None))
    } else {
        Ok((result, Some(payload_of(data))))
    }
}

/// Every response a server builds for a request carries that request's call
/// id, and a client waiting on that id reads back its outcome.
pub proof fn lemma_response_echoes_request(msg: Seq<u8>, result: RpcCallResult, data: Option<Seq<u8>>)
    requires
        msg.len() >= REQUEST_HEADER_LEN,
        payload_of(data).len() <= u64::MAX,
    ensures
        response_call_id(response_bytes(request_call_id(msg), result, data)) == request_call_id(msg),
        decode_response_spec(response_bytes(request_call_id(msg), result, data), request_call_id(msg))
            == reply_outcome(result, data),
{
    lemma_response_round_trip(request_call_id(msg), result, data);
}

/// A response frame read by the client of the same call gives back its
/// data under `Success`, and an error carrying any other result code.
pub proof fn lemma_response_round_trip(call_id: u32, result: RpcCallResult, data: Option<Seq<u8>>)
    requires
        payload_of(data).len() <= u64::MAX,
    ensures
        response_call_id(response_bytes(call_id, result, data)) == call_id,
        decode_response_spec(response_bytes(call_id, result, data), call_id) == reply_outcome(result, data),
{
    let p = payload_of(data);
    let b = response_bytes(call_id, result, data);
    let m = be_u32_bytes(RPC_RESPONSE_MAGIC);
    let c = le_u32_bytes(call_id);
    let k = le_u32_bytes(result.spec_code());
    let z = le_u64_bytes(p.len() as u64);
    lemma_le_u32_read_back(RPC_RESPONSE_MAGIC);
    lemma_le_u32_read_back(call_id);
    lemma_le_u32_read_back(result.spec_code());
    lemma_le_u64_read_back(p.len() as u64);
    assert(b.subrange(0, 4) =~= m);
    assert(b.subrange(4, 8) =~= c);
    assert(b.subrange(8, 12) =~= k);
    assert(b.subrange(12, 20) =~= z);
    assert(b.subrange(20, b.len() as int) =~= p);
    assert(crate::bytes::be32_at(b, 0) == crate::bytes::be32_at(m, 0));
    assert(le32_at(b, 4) == le32_at(c, 0));
    assert(le32_at(b, 8) == le32_at(k, 0));
    assert(le64_at(b, 12) == le64_at(z, 0));
    assert(RpcCallResult::spec_from_code(result.spec_code()) == Some(result));
    if p.len() > 0 {
        assert(b.subrange(20, 20 + p.len() as int) =~= p);
    }
}

} // verus!
