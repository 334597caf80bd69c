//! The client side: call-id allocation, request construction and reply
//! correlation.

use vstd::prelude::*;
use crate::wire::RpcCallResult;
use crate::args::{RpcCallArgStructs, value_fits};
use crate::frame::{ReplyError, request_bytes, encode_request, decode_response, decode_response_spec, response_call_id};
use std::io::Error;

verus! {

#[verifier::external_type_specification]
#[verifier::external_body]
pub struct ExIoError(Error);

/// A framed byte-stream connection: each message travels as
/// `u64 length ‖ payload`, written whole or not at all, read whole or failed.
pub trait IPC {
    fn send_message(&mut self, message: &[u8]) -> Result<(), Error>;

    fn recv_message(&mut self) -> Result<Vec<u8>, Error>;
}

/// Why a call produced no result.
#[derive(Debug)]
pub enum ExecError {
    /// An argument or the argument count does not fit the frame's size fields.
    InvalidArgspec,
    /// Writing the request failed.
    WriteFailed(Error),
    /// Reading the response failed.
    ReadFailed(Error),
    /// The response was refused.
    Reply(ReplyError),
}

/// A client's call-id counter. Each call takes the next id, starting at 1.
#[derive(Clone, Debug)]
pub struct RpcStub {
    call_id_seq: u32,
}

/// One call under construction.
pub struct RpcStubCall {
    call_id: u32,
    function_id: u32,
    args: Vec<RpcCallArgStructs>,
}

/// Why a schema call produced no response message.
#[derive(Clone, Copy, Debug, PartialEq, Eq, Structural)]
pub enum PbCallError {
    /// The call succeeded but carried no data.
    NoResponse,
    /// The server answered with this result code.
    Failed(RpcCallResult),
}

/// What creating a call does to the counter: the new id is the old counter
/// plus one, and the counter moves to it.
pub open spec fn call_step(before: u32, after: u32, call_id: u32) -> bool {
    &&& before < u32::MAX
    &&& call_id == before + 1
    &&& after == call_id
}

impl RpcStub {
    pub closed spec fn spec_seq(&self) -> u32 {
        self.call_id_seq
    }

    /// A stub that has made no call yet.
    pub fn new() -> (r: RpcStub)
        ensures
            r.spec_seq() == 0,
    {
        RpcStub { call_id_seq: 0 }
    }

    /// The id of the last call created, 0 before the first.
    pub fn call_id_seq(&self) -> (r: u32)
        ensures
            r == self.spec_seq(),
    {
        self.call_id_seq
    }

    /// Whether another call id is left.
    pub fn can_create_call(&self) -> (r: bool)
        ensures
            r == (self.spec_seq() < u32::MAX),
    {
        self.call_id_seq < u32::MAX
    }

    /// Starts a call of `function_id` with the next call id and no arguments.
    pub fn create_call(&mut self, function_id: u32) -> (r: RpcStubCall)
        requires
            old(self).spec_seq() < u32::MAX,
        ensures
            call_step(old(self).spec_seq(), final(self).spec_seq(), r.spec_call_id()),
            r.spec_function_id() == function_id,
            r.spec_args().len() == 0,
    {
        self.call_id_seq = self.call_id_seq + 1;
        RpcStubCall { call_id: self.call_id_seq, function_id, args: Vec::new() }
    }

    /// Starts a schema call: one buffer argument holding the encoded message.
    pub fn create_pb_call(&mut self, function_id: u32, message: Vec<u8>) -> (r: RpcStubCall)
        requires
            old(self).spec_seq() < u32::MAX,
        ensures
            call_step(old(self).spec_seq(), final(self).spec_seq(), r.spec_call_id()),
            r.spec_function_id() == function_id,
            r.spec_args().len() == 1,
            r.spec_args()[0]@ == crate::args::ArgValue::Buf(message@),
    {
        let mut call = self.create_call(function_id);
        call.add_arg(RpcCallArgStructs::Buffer(message));
        call
    }
}

impl RpcStubCall {
    pub closed spec fn spec_call_id(&self) -> u32 {
        self.call_id
    }

    pub closed spec fn spec_function_id(&self) -> u32 {
        self.function_id
    }

    pub closed spec fn spec_args(&self) -> Seq<RpcCallArgStructs> {
        self.args@
    }

    pub fn call_id(&self) -> (r: u32)
        ensures
            r == self.spec_call_id(),
    {
        self.call_id
    }

    pub fn function_id(&self) -> (r: u32)
        ensures
            r == self.spec_function_id(),
    {
        self.function_id
    }

    /// Appends an argument.
    pub fn add_arg(&mut self, arg: RpcCallArgStructs)
        ensures
            final(self).spec_args() == old(self).spec_args().push(arg),
            final(self).spec_call_id() == old(self).spec_call_id(),
            final(self).spec_function_id() == old(self).spec_function_id(),
    {
        self.args.push(arg);
    }

    /// Whether the arguments fit the frame's size fields.
    pub fn fits(&self) -> (r: bool)
        ensures
            r == (self.spec_args().len() <= u32::MAX && forall|i: int|
                0 <= i < self.spec_args().len() ==> value_fits(#[trigger] self.spec_args()[i]@)),
    {
        if self.args.len() > u32::MAX as usize {
            return false;
        }
        let mut i: usize = 0;
        while i < self.args.len()
            invariant
                0 <= i <= self.args@.len(),
                forall|j: int| 0 <= j < i ==> value_fits(#[trigger] self.args@[j]@),
            decreases self.args@.len() - i,
        {
            let d = self.args[i].data_bytes();
            if d.len() > u32::MAX as usize {
                return false;
            }
            i = i + 1;
        }
        true
    }

    /// The request frame's payload for this call.
    pub fn request(&self) -> (r: Vec<u8>)
        requires
            self.spec_args().len() <= u32::MAX,
            forall|i: int| 0 <= i < self.spec_args().len() ==> value_fits(#[trigger] self.spec_args()[i]@),
        ensures
            r@ == request_bytes(self.spec_call_id(), self.spec_function_id(), self.spec_args()),
    {
        encode_request(self.call_id, self.function_id, &self.args)
    }

    /// Reads the response frame to this call: a response to another call id
    /// is `CallidMismatch`, and a result other than `Success` is an error
    /// carrying that code.
    pub fn read_reply(&self, bytes: &[u8]) -> (r: Result<(RpcCallResult, Option<Vec<u8>>), ReplyError>)
        ensures
            r matches Ok((code, data)) ==> decode_response_spec(bytes@, self.spec_call_id()) == Ok::<_, ReplyError>((code, crate::frame::opt_bytes(data))),
            r matches Err(e) ==> decode_response_spec(bytes@, self.spec_call_id()) == Err::<(RpcCallResult, Option<Seq<u8>>), _>(e),
    {
        decode_response(bytes, self.call_id)
    }
}

impl RpcStubCall {
    /// Sends this call as one request frame on `channel` and reads one
    /// response frame back. A result comes back only from a response that
    /// answers this call id with `Success`.
    pub fn exec<C: IPC>(&self, channel: &mut C) -> (r: Result<(RpcCallResult, Option<Vec<u8>>), ExecError>)
        ensures
            (r matches Err(ExecError::InvalidArgspec)) <==> !(self.spec_args().len() <= u32::MAX && forall|i: int|
                0 <= i < self.spec_args().len() ==> value_fits(#[trigger] self.spec_args()[i]@)),
            r matches Ok((code, data)) ==> exists|b: Seq<u8>|
                decode_response_spec(b, self.spec_call_id()) == Ok::<_, ReplyError>((code, crate::frame::opt_bytes(data))),
            r matches Err(ExecError::Reply(e)) ==> exists|b: Seq<u8>|
                decode_response_spec(b, self.spec_call_id()) == Err::<(RpcCallResult, Option<Seq<u8>>), _>(e),
    {
        if !self.fits() {
            return Err(ExecError::InvalidArgspec);
        }
        let request = self.request();
        if let Err(e) = channel.send_message(request.as_slice()) {
            return Err(ExecError::WriteFailed(e));
        }
        let reply = match channel.recv_message() {
            Ok(bytes) => bytes,
            Err(e) => return Err(ExecError::ReadFailed(e)),
        };
        match self.read_reply(reply.as_slice()) {
            Ok(x) => Ok(x),
            Err(e) => Err(ExecError::Reply(e)),
        }
    }
}

/// The response message of a schema call from its result: data under
/// `Success`, else the reason there is none.
pub fn pb_reply(code: RpcCallResult, data: Option<Vec<u8>>) -> (r: Result<Vec<u8>, PbCallError>)
    ensures
        code == RpcCallResult::Success && data.is_some() ==> (r matches Ok(d) && d@ == data.unwrap()@),
        code == RpcCallResult::Success && data.is_none() ==> r == Err::<Vec<u8>, _>(PbCallError::NoResponse),
        code != RpcCallResult::Success ==> r == Err::<Vec<u8>, _>(PbCallError::Failed(code)),
{
    match code {
        RpcCallResult::Success => match data {
            Some(d) => Ok(d),
            None => Err(PbCallError::NoResponse),
        },
        _ => Err(PbCallError::Failed(code)),
    }
}

/// Calls created one after another on a stub whose counter stood at `s` get
/// the ids `s + 1, …, s + K` in the order they were created.
pub proof fn lemma_sequential_call_ids(s: u32, counters: Seq<u32>, ids: Seq<u32>)
    requires
        counters.len() == ids.len() + 1,
        counters[0] == s,
        forall|i: int| 0 <= i < ids.len() ==> #[trigger] call_step(counters[i], counters[i + 1], ids[i]),
    ensures
        forall|i: int| 0 <= i < ids.len() ==> ids[i] == s + i + 1,
        forall|i: int| 0 <= i <= ids.len() ==> counters[i] == s + i,
    decreases ids.len(),
{
    if ids.len() > 0 {
        let k = ids.len() - 1;
        let c2 = counters.drop_last();
        let i2 = ids.drop_last();
        assert forall|i: int| 0 <= i < i2.len() implies #[trigger] call_step(c2[i], c2[i + 1], i2[i]) by {
            assert(call_step(counters[i], counters[i + 1], ids[i]));
        }
        lemma_sequential_call_ids(s, c2, i2);
        assert(counters[k] == c2[k]);
        assert(call_step(counters[k], counters[k + 1], ids[k]));
        assert forall|i: int| 0 <= i < ids.len() implies ids[i] == s + i + 1 by {
            if i < k {
                assert(ids[i] == i2[i]);
            }
        }
        assert forall|i: int| 0 <= i <= ids.len() implies counters[i] == s + i by {
            if i <= k {
                assert(counters[i] == c2[i]);
            }
        }
    }
}

/// Calls created one after another on a stub whose counter stood at `s`, each
/// executed before the next is created, observe in that order responses
/// with the call ids `s + 1, …, s + K`: a call returns a result only from a
/// response that reads back under its own id.
pub proof fn lemma_sequential_calls_observed(
    s: u32,
    counters: Seq<u32>,
    ids: Seq<u32>,
    responses: Seq<Seq<u8>>,
)
    requires
        counters.len() == ids.len() + 1,
        responses.len() == ids.len(),
        counters[0] == s,
        forall|i: int| 0 <= i < ids.len() ==> #[trigger] call_step(counters[i], counters[i + 1], ids[i]),
        forall|i: int| 0 <= i < ids.len() ==> (#[trigger] decode_response_spec(responses[i], ids[i])).is_ok(),
    ensures
        forall|i: int| 0 <= i < ids.len() ==> response_call_id(#[trigger] responses[i]) == s + i + 1,
{
    lemma_sequential_call_ids(s, counters, ids);
    assert forall|i: int| 0 <= i < ids.len() implies response_call_id(#[trigger] responses[i]) == s + i + 1 by {
        assert(decode_response_spec(responses[i], ids[i]).is_ok());
    }
}

} // verus!
