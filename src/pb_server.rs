//! The schema-message dispatcher: each request carries exactly one buffer
//! argument holding an encoded message, handed to the core object by
//! function id.

use vstd::prelude::*;
use crate::bytes::{be32_at, le32_at, read_be_u32, read_le_u32, copy_range};
use crate::wire::{RpcCallResult, RpcCallArgType, RPC_REQUEST_MAGIC, RPC_ARG_MAGIC, REQUEST_HEADER_LEN, ARG_HEADER_LEN};
use crate::frame::{RequestHeader, encode_response, response_bytes};

verus! {

/// A handler's answer: the encoded response message, or the result code to
/// send instead of one.
pub type RpcPbReply = Result<Vec<u8>, RpcCallResult>;

/// The object behind a schema-message server: it decodes the request message
/// of `function_id` from `data`, handles it, and encodes the response.
pub trait RpcPbServerTrait {
    fn dispatch(&mut self, function_id: u32, data: &Vec<u8>) -> RpcPbReply;
}

/// The encoded message of a schema call, or `None` when the frame is not one:
/// a wrong magic, an argument count other than one, or an argument that is
/// not a complete buffer TLV.
pub open spec fn pb_message(msg: Seq<u8>) -> Option<Seq<u8>> {
    let h = RequestHeader::spec_parse(msg);
    if h.magic != RPC_REQUEST_MAGIC || h.arg_count != 1 || msg.len() < 28 {
        None
    } else if be32_at(msg, 16) != RPC_ARG_MAGIC || le32_at(msg, 20) != RpcCallArgType::Buffer.spec_code() {
        None
    } else if msg.len() - 28 < le32_at(msg, 24) {
        None
    } else {
        Some(msg.subrange(28, 28 + le32_at(msg, 24)))
    }
}

/// The response frame for a handler's answer to call `call_id`.
pub open spec fn pb_response(call_id: u32, reply: Result<Seq<u8>, RpcCallResult>) -> Seq<u8> {
    match reply {
        Ok(d) => response_bytes(call_id, RpcCallResult::Success, Some(d)),
        Err(code) => response_bytes(call_id, code, None),
    }
}

/// Reads the message of a schema call out of a request frame.
pub fn extract_pb_message(msg: &Vec<u8>) -> (r: Option<Vec<u8>>)
    requires
        msg@.len() >= REQUEST_HEADER_LEN,
    ensures
        match r {
            Some(d) => pb_message(msg@) == Some(d@),
            None => pb_message(msg@).is_none(),
        },
{
    let h = RequestHeader::parse(msg.as_slice());
    let n = msg.len();
    if h.magic != RPC_REQUEST_MAGIC || h.arg_count != 1 || n < REQUEST_HEADER_LEN + ARG_HEADER_LEN {
        return None;
    }
    if read_be_u32(msg.as_slice(), 16) != RPC_ARG_MAGIC || read_le_u32(msg.as_slice(), 20) != RpcCallArgType::Buffer.code() {
        return None;
    }
    let size = read_le_u32(msg.as_slice(), 24);
    if ((n - 28) as u64) < size as u64 {
        return None;
    }
    Some(copy_range(msg.as_slice(), 28, 28 + size as usize))
}

/// A handler's answer with the message as bytes.
pub open spec fn reply_bytes(reply: RpcPbReply) -> Result<Seq<u8>, RpcCallResult> {
    match reply {
        Ok(d) => Ok(d@),
        Err(code) => Err(code),
    }
}

/// The response frame for the handler's answer `reply` to call `call_id`.
pub fn pb_respond(call_id: u32, reply: RpcPbReply) -> (r: Vec<u8>)
    ensures
        r@ == pb_response(call_id, reply_bytes(reply)),
{
    match reply {
        Ok(data) => encode_response(call_id, RpcCallResult::Success, Some(data)),
        Err(code) => encode_response(call_id, code, None),
    }
}

/// Which of a core's handlers, listed by function id, serves `function_id`:
/// the position of the first entry with that id, or `ServerInvalidFunction`
/// when none has it.
pub fn pb_lookup(ids: &[u32], function_id: u32) -> (r: Result<usize, RpcCallResult>)
    ensures
        r matches Ok(i) ==> i < ids@.len() && ids@[i as int] == function_id && forall|j: int|
            0 <= j < i ==> ids@[j] != function_id,
        r.is_err() <==> forall|j: int| 0 <= j < ids@.len() ==> ids@[j] != function_id,
        r.is_err() ==> r == Err::<usize, _>(RpcCallResult::ServerInvalidFunction),
{
    let mut i: usize = 0;
    while i < ids.len()
        invariant
            0 <= i <= ids@.len(),
            forall|j: int| 0 <= j < i ==> ids@[j] != function_id,
        decreases ids@.len() - i,
    {
        if ids[i] == function_id {
            return Ok(i);
        }
        i = i + 1;
    }
    Err(RpcCallResult::ServerInvalidFunction)
}

/// A schema-message server around its core object.
pub struct RpcPbServer<T: RpcPbServerTrait> {
    handler: T,
}

impl<T: RpcPbServerTrait> RpcPbServer<T> {
    pub closed spec fn spec_handler(&self) -> T {
        self.handler
    }

    pub fn create(handler: T) -> (r: RpcPbServer<T>)
        ensures
            r.spec_handler() == handler,
    {
        RpcPbServer { handler }
    }

    pub fn handler(&self) -> (r: &T)
        ensures
            *r == self.spec_handler(),
    {
        &self.handler
    }

    /// Answers one request frame. Frames that are not a schema call get
    /// `InvalidArg` and leave the core object untouched; the others go to the core object, whose answer becomes
    /// the response. Either way the response carries the request's call id.
    pub fn handle_message(&mut self, msg: &Vec<u8>) -> (r: Vec<u8>)
        requires
            msg@.len() >= REQUEST_HEADER_LEN,
        ensures
            ({
                let call_id = RequestHeader::spec_parse(msg@).call_id;
                match pb_message(msg@) {
                    None => r@ == response_bytes(call_id, RpcCallResult::InvalidArg, None)
                        && final(self).spec_handler() == old(self).spec_handler(),
                    Some(_) => exists|reply: Result<Seq<u8>, RpcCallResult>| r@ == pb_response(call_id, reply),
                }
            }),
    {
        let h = RequestHeader::parse(msg.as_slice());
        match extract_pb_message(msg) {
            None => encode_response(h.call_id, RpcCallResult::InvalidArg, None),
            Some(data) => {
                let reply = self.handler.dispatch(h.function_id, &data);
                let ghost rv = reply_bytes(reply);
                let r = pb_respond(h.call_id, reply);
                assert(r@ == pb_response(h.call_id, rv));
                r
            },
        }
    }
}

} // verus!
