//! Wire codec, dispatch decisions and client correlation for a framed RPC
//! protocol used by userspace device drivers, with the size and bounds rules
//! of the block and GPU services built on it.

pub mod args;
pub mod block;
pub mod bytes;
pub mod client;
pub mod context;
pub mod frame;
pub mod gpu;
pub mod laws;
pub mod naming;
pub mod pb_server;
pub mod server;
pub mod utils;
pub mod wire;

pub use args::RpcCallArgStructs;
pub use block::{check_write, page_count, read_buffer_len, BlockRequestError, BLOCK_SIZE};
pub use client::{pb_reply, ExecError, PbCallError, RpcStub, RpcStubCall, IPC};
pub use context::RpcCallContext;
pub use frame::{decode_request, decode_response, encode_request, encode_response, ReplyError, RequestHeader};
pub use gpu::{post_buffer, PostBufferError, Region, Size, BYTES_PER_PIXEL, CURSOR_SIDE};
pub use naming::{device_location, device_name, format_mac};
pub use pb_server::{extract_pb_message, pb_lookup, pb_respond, RpcPbReply, RpcPbServer, RpcPbServerTrait};
pub use server::{complete_call, function_ids_unique, CallPlan, RpcCallFuncInfo, RpcServer};
pub use utils::parse_hex64;
pub use wire::{
    CodecError, RpcCallArgType, RpcCallResult, ARG_HEADER_LEN, REQUEST_HEADER_LEN, RESPONSE_HEADER_LEN,
    RPC_ARG_MAGIC, RPC_REQUEST_MAGIC, RPC_RESPONSE_MAGIC,
};
