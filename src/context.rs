//! What a typed handler sees of a call: its declared argument types, the
//! argument bytes, and the reply it leaves behind.

use vstd::prelude::*;
use crate::bytes::{be32_at, le32_at, read_be_u32, read_le_u32, copy_range};
use crate::wire::{RpcCallArgType, CodecError, RPC_ARG_MAGIC, ARG_HEADER_LEN};
use crate::args::{RpcCallArgStructs, ArgValue, decode_value, decode_error};

verus! {

/// The bytes after the first argument TLV of `s`, or why it cannot be skipped.
pub open spec fn skip_one(s: Seq<u8>) -> Result<Seq<u8>, CodecError> {
    if s.len() < 12 {
        Err(CodecError::Truncated)
    } else if be32_at(s, 0) != RPC_ARG_MAGIC {
        Err(CodecError::BadMagic)
    } else if s.len() - 12 < le32_at(s, 8) {
        Err(CodecError::Truncated)
    } else {
        Ok(s.subrange(12 + le32_at(s, 8), s.len() as int))
    }
}

/// The bytes after the first `n` argument TLVs of `s`.
pub open spec fn skip_args(s: Seq<u8>, n: nat) -> Result<Seq<u8>, CodecError>
    decreases n,
{
    if n == 0 {
        Ok(s)
    } else {
        match skip_args(s, (n - 1) as nat) {
            Ok(r) => skip_one(r),
            Err(e) => Err(e),
        }
    }
}

/// The data of argument `index` in `data`, checked against the declared types.
pub open spec fn narg_spec(data: Seq<u8>, argtypes: Seq<RpcCallArgType>, index: nat) -> Result<Seq<u8>, CodecError> {
    match skip_args(data, index) {
        Err(e) => Err(e),
        Ok(r) => if r.len() < 12 {
            Err(CodecError::Truncated)
        } else if be32_at(r, 0) != RPC_ARG_MAGIC {
            Err(CodecError::BadMagic)
        } else if index >= argtypes.len() || RpcCallArgType::spec_from_code(le32_at(r, 4)) != Some(
            argtypes[index as int],
        ) {
            Err(CodecError::BadArgType)
        } else if r.len() - 12 < le32_at(r, 8) {
            Err(CodecError::Truncated)
        } else {
            Ok(r.subrange(12, 12 + le32_at(r, 8)))
        },
    }
}

/// Argument `index` of `data` read as a value of type `t`.
pub open spec fn typed_arg_spec(data: Seq<u8>, argtypes: Seq<RpcCallArgType>, index: nat, t: RpcCallArgType) -> Result<ArgValue, CodecError> {
    match narg_spec(data, argtypes, index) {
        Err(e) => Err(e),
        Ok(d) => match decode_value(t, d) {
            Some(v) => Ok(v),
            None => Err(decode_error(t)),
        },
    }
}

/// One call as a typed handler sees it.
pub struct RpcCallContext {
    argtypes: Vec<RpcCallArgType>,
    data: Vec<u8>,
    reply: Option<Vec<u8>>,
}

impl RpcCallContext {
    pub closed spec fn spec_argtypes(&self) -> Seq<RpcCallArgType> {
        self.argtypes@
    }

    pub closed spec fn spec_data(&self) -> Seq<u8> {
        self.data@
    }

    pub closed spec fn spec_reply(&self) -> Option<Seq<u8>> {
        match self.reply {
            Some(r) => Some(r@),
            None => None,
        }
    }

    /// A context for a call whose argument TLVs are `data`, with no reply yet.
    pub fn new(argtypes: Vec<RpcCallArgType>, data: Vec<u8>) -> (r: RpcCallContext)
        ensures
            r.spec_argtypes() == argtypes@,
            r.spec_data() == data@,
            r.spec_reply().is_none(),
    {
        RpcCallContext { argtypes, data, reply: None }
    }

    /// The data bytes of argument `index`, after checking the magics of it and
    /// of the arguments before it, and its type against the declared one.
    pub fn get_narg(&self, index: u32) -> (r: Result<Vec<u8>, CodecError>)
        ensures
            r matches Ok(d) ==> narg_spec(self.spec_data(), self.spec_argtypes(), index as nat) == Ok::<_, CodecError>(d@),
            r matches Err(e) ==> narg_spec(self.spec_data(), self.spec_argtypes(), index as nat) == Err::<Seq<u8>, _>(e),
    {
        let data = &self.data;
        let n = data.len();
        let mut pos: usize = 0;
        let mut i: u32 = 0;
        assert(data@.subrange(0, n as int) =~= data@);
        while i < index
            invariant
                0 <= i <= index,
                pos <= n == data@.len(),
                data@ == self.spec_data(),
                skip_args(data@, i as nat) == Ok::<_, CodecError>(data@.subrange(pos as int, n as int)),
            decreases index - i,
        {
            let ghost rest = data@.subrange(pos as int, n as int);
            assert(skip_args(data@, (i + 1) as nat) == skip_one(rest));
            if n - pos < ARG_HEADER_LEN {
                assert(skip_one(rest) == Err::<Seq<u8>, _>(CodecError::Truncated));
                proof { lemma_skip_args_err(data@, (i + 1) as nat, index as nat); }
                assert(skip_args(data@, index as nat) == Err::<Seq<u8>, _>(CodecError::Truncated));
                return Err(CodecError::Truncated);
            }
            if read_be_u32(data, pos) != RPC_ARG_MAGIC {
                assert(be32_at(rest, 0) == be32_at(data@, pos as int));
                assert(skip_one(rest) == Err::<Seq<u8>, _>(CodecError::BadMagic));
                proof { lemma_skip_args_err(data@, (i + 1) as nat, index as nat); }
                assert(skip_args(data@, index as nat) == Err::<Seq<u8>, _>(CodecError::BadMagic));
                return Err(CodecError::BadMagic);
            }
            let size = read_le_u32(data, pos + 8);
            assert(le32_at(rest, 8) == le32_at(data@, pos + 8));
            if ((n - pos - ARG_HEADER_LEN) as u64) < size as u64 {
                proof { lemma_skip_args_err(data@, (i + 1) as nat, index as nat); }
                return Err(CodecError::Truncated);
            }
            pos = pos + ARG_HEADER_LEN + size as usize;
            assert(rest.subrange(12 + size, rest.len() as int) =~= data@.subrange(pos as int, n as int));
            i = i + 1;
        }
        let ghost rest = data@.subrange(pos as int, n as int);
        if n - pos < ARG_HEADER_LEN {
            return Err(CodecError::Truncated);
        }
        if read_be_u32(data, pos) != RPC_ARG_MAGIC {
            assert(be32_at(rest, 0) == be32_at(data@, pos as int));
            return Err(CodecError::BadMagic);
        }
        let code = read_le_u32(data, pos + 4);
        assert(le32_at(rest, 4) == le32_at(data@, pos + 4));
        if index as usize >= self.argtypes.len() {
            return Err(CodecError::BadArgType);
        }
        match RpcCallArgType::from_code(code) {
            Some(t) => {
                if t != self.argtypes[index as usize] {
                    return Err(CodecError::BadArgType);
                }
            },
            None => {
                return Err(CodecError::BadArgType);
            },
        }
        let size = read_le_u32(data, pos + 8);
        assert(le32_at(rest, 8) == le32_at(data@, pos + 8));
        if ((n - pos - ARG_HEADER_LEN) as u64) < size as u64 {
            return Err(CodecError::Truncated);
        }
        let r = copy_range(data, pos + ARG_HEADER_LEN, pos + ARG_HEADER_LEN + size as usize);
        assert(r@ =~= rest.subrange(12, 12 + size));
        Ok(r)
    }

    /// Argument `index` read as a value of type `t`.
    fn get_typed(&self, index: u32, t: RpcCallArgType) -> (r: Result<RpcCallArgStructs, CodecError>)
        ensures
            r matches Ok(a) ==> typed_arg_spec(self.spec_data(), self.spec_argtypes(), index as nat, t) == Ok::<_, CodecError>(a@),
            r matches Err(e) ==> typed_arg_spec(self.spec_data(), self.spec_argtypes(), index as nat, t) == Err::<ArgValue, _>(e),
    {
        match self.get_narg(index) {
            Ok(d) => RpcCallArgStructs::decode(t, d),
            Err(e) => Err(e),
        }
    }

    /// Argument `index` as a string: UTF-8 with its terminating NUL removed.
    pub fn get_arg_string(&self, index: u32) -> (r: Result<String, CodecError>)
        ensures
            r matches Ok(s) ==> typed_arg_spec(self.spec_data(), self.spec_argtypes(), index as nat, RpcCallArgType::String) == Ok::<_, CodecError>(ArgValue::Str(s@)),
            r matches Err(e) ==> typed_arg_spec(self.spec_data(), self.spec_argtypes(), index as nat, RpcCallArgType::String) == Err::<ArgValue, _>(e),
    {
        match self.get_typed(index, RpcCallArgType::String) {
            Ok(RpcCallArgStructs::String(s)) => Ok(s),
            Ok(_) => Err(CodecError::BadArgType),
            Err(e) => Err(e),
        }
    }

    /// Argument `index` as raw bytes.
    pub fn get_arg_buffer(&self, index: u32) -> (r: Result<Vec<u8>, CodecError>)
        ensures
            r matches Ok(d) ==> narg_spec(self.spec_data(), self.spec_argtypes(), index as nat) == Ok::<_, CodecError>(d@),
            r matches Err(e) ==> narg_spec(self.spec_data(), self.spec_argtypes(), index as nat) == Err::<Seq<u8>, _>(e),
    {
        self.get_narg(index)
    }

    /// Argument `index` as a little-endian `i8`.
    pub fn get_arg_i8(&self, index: u32) -> (r: Result<i8, CodecError>)
        ensures
            r matches Ok(x) ==> typed_arg_spec(self.spec_data(), self.spec_argtypes(), index as nat, RpcCallArgType::Int8) == Ok::<_, CodecError>(ArgValue::Int8(x)),
            r matches Err(e) ==> typed_arg_spec(self.spec_data(), self.spec_argtypes(), index as nat, RpcCallArgType::Int8) == Err::<ArgValue, _>(e),
    {
        match self.get_typed(index, RpcCallArgType::Int8) {
            Ok(RpcCallArgStructs::Int8(x)) => Ok(x),
            Ok(_) => Err(CodecError::BadArgType),
            Err(e) => Err(e),
        }
    }

    /// Argument `index` as a little-endian `i16`.
    pub fn get_arg_i16(&self, index: u32) -> (r: Result<i16, CodecError>)
        ensures
            r matches Ok(x) ==> typed_arg_spec(self.spec_data(), self.spec_argtypes(), index as nat, RpcCallArgType::Int16) == Ok::<_, CodecError>(ArgValue::Int16(x)),
            r matches Err(e) ==> typed_arg_spec(self.spec_data(), self.spec_argtypes(), index as nat, RpcCallArgType::Int16) == Err::<ArgValue, _>(e),
    {
        match self.get_typed(index, RpcCallArgType::Int16) {
            Ok(RpcCallArgStructs::Int16(x)) => Ok(x),
            Ok(_) => Err(CodecError::BadArgType),
            Err(e) => Err(e),
        }
    }

    /// Argument `index` as a little-endian `i32`.
    pub fn get_arg_i32(&self, index: u32) -> (r: Result<i32, CodecError>)
        ensures
            r matches Ok(x) ==> typed_arg_spec(self.spec_data(), self.spec_argtypes(), index as nat, RpcCallArgType::Int32) == Ok::<_, CodecError>(ArgValue::Int32(x)),
            r matches Err(e) ==> typed_arg_spec(self.spec_data(), self.spec_argtypes(), index as nat, RpcCallArgType::Int32) == Err::<ArgValue, _>(e),
    {
        match self.get_typed(index, RpcCallArgType::Int32) {
            Ok(RpcCallArgStructs::Int32(x)) => Ok(x),
            Ok(_) => Err(CodecError::BadArgType),
            Err(e) => Err(e),
        }
    }

    /// Argument `index` as a little-endian `i64`.
    pub fn get_arg_i64(&self, index: u32) -> (r: Result<i64, CodecError>)
        ensures
            r matches Ok(x) ==> typed_arg_spec(self.spec_data(), self.spec_argtypes(), index as nat, RpcCallArgType::Int64) == Ok::<_, CodecError>(ArgValue::Int64(x)),
            r matches Err(e) ==> typed_arg_spec(self.spec_data(), self.spec_argtypes(), index as nat, RpcCallArgType::Int64) == Err::<ArgValue, _>(e),
    {
        match self.get_typed(index, RpcCallArgType::Int64) {
            Ok(RpcCallArgStructs::Int64(x)) => Ok(x),
            Ok(_) => Err(CodecError::BadArgType),
            Err(e) => Err(e),
        }
    }

    /// Argument `index` as a little-endian `u8`.
    pub fn get_arg_u8(&self, index: u32) -> (r: Result<u8, CodecError>)
        ensures
            r matches Ok(x) ==> typed_arg_spec(self.spec_data(), self.spec_argtypes(), index as nat, RpcCallArgType::Uint8) == Ok::<_, CodecError>(ArgValue::Uint8(x)),
            r matches Err(e) ==> typed_arg_spec(self.spec_data(), self.spec_argtypes(), index as nat, RpcCallArgType::Uint8) == Err::<ArgValue, _>(e),
    {
        match self.get_typed(index, RpcCallArgType::Uint8) {
            Ok(RpcCallArgStructs::Uint8(x)) => Ok(x),
            Ok(_) => Err(CodecError::BadArgType),
            Err(e) => Err(e),
        }
    }

    /// Argument `index` as a little-endian `u16`.
    pub fn get_arg_u16(&self, index: u32) -> (r: Result<u16, CodecError>)
        ensures
            r matches Ok(x) ==> typed_arg_spec(self.spec_data(), self.spec_argtypes(), index as nat, RpcCallArgType::Uint16) == Ok::<_, CodecError>(ArgValue::Uint16(x)),
            r matches Err(e) ==> typed_arg_spec(self.spec_data(), self.spec_argtypes(), index as nat, RpcCallArgType::Uint16) == Err::<ArgValue, _>(e),
    {
        match self.get_typed(index, RpcCallArgType::Uint16) {
            Ok(RpcCallArgStructs::Uint16(x)) => Ok(x),
            Ok(_) => Err(CodecError::BadArgType),
            Err(e) => Err(e),
        }
    }

    /// Argument `index` as a little-endian `u32`.
    pub fn get_arg_u32(&self, index: u32) -> (r: Result<u32, CodecError>)
        ensures
            r matches Ok(x) ==> typed_arg_spec(self.spec_data(), self.spec_argtypes(), index as nat, RpcCallArgType::Uint32) == Ok::<_, CodecError>(ArgValue::Uint32(x)),
            r matches Err(e) ==> typed_arg_spec(self.spec_data(), self.spec_argtypes(), index as nat, RpcCallArgType::Uint32) == Err::<ArgValue, _>(e),
    {
        match self.get_typed(index, RpcCallArgType::Uint32) {
            Ok(RpcCallArgStructs::Uint32(x)) => Ok(x),
            Ok(_) => Err(CodecError::BadArgType),
            Err(e) => Err(e),
        }
    }

    /// Argument `index` as a little-endian `u64`.
    pub fn get_arg_u64(&self, index: u32) -> (r: Result<u64, CodecError>)
        ensures
            r matches Ok(x) ==> typed_arg_spec(self.spec_data(), self.spec_argtypes(), index as nat, RpcCallArgType::Uint64) == Ok::<_, CodecError>(ArgValue::Uint64(x)),
            r matches Err(e) ==> typed_arg_spec(self.spec_data(), self.spec_argtypes(), index as nat, RpcCallArgType::Uint64) == Err::<ArgValue, _>(e),
    {
        match self.get_typed(index, RpcCallArgType::Uint64) {
            Ok(RpcCallArgStructs::Uint64(x)) => Ok(x),
            Ok(_) => Err(CodecError::BadArgType),
            Err(e) => Err(e),
        }
    }

    /// Leaves `data` as the reply payload of this call.
    pub fn write_response(&mut self, data: Vec<u8>)
        ensures
            final(self).spec_reply() == Some(data@),
            final(self).spec_data() == old(self).spec_data(),
            final(self).spec_argtypes() == old(self).spec_argtypes(),
    {
        self.reply = Some(data);
    }

    /// Takes the reply payload out, leaving none.
    pub fn take_reply(&mut self) -> (r: Option<Vec<u8>>)
        ensures
            match r {
                Some(d) => old(self).spec_reply() == Some(d@),
                None => old(self).spec_reply().is_none(),
            },
            final(self).spec_reply().is_none(),
    {
        self.reply.take()
    }
}

/// Once skipping fails, skipping further fails with the same error.
proof fn lemma_skip_args_err(s: Seq<u8>, k: nat, n: nat)
    requires
        k <= n,
        skip_args(s, k).is_err(),
    ensures
        skip_args(s, n) == skip_args(s, k),
    decreases n - k,
{
    if k < n {
        lemma_skip_args_err(s, k, (n - 1) as nat);
    }
}

} // verus!
