//! Size rules of the block service and of the DMA/MMIO bridge.

use vstd::prelude::*;

verus! {

/// Bytes per block.
pub const BLOCK_SIZE: u64 = 512;

/// Why a block request was refused before reaching the device.
#[derive(Clone, Copy, Debug, PartialEq, Eq, Structural)]
pub enum BlockRequestError {
    /// The request's byte count does not fit this machine's address space.
    TooLarge,
    /// A write whose data is not exactly `512·n_blocks` bytes.
    SizeMismatch,
}

impl BlockRequestError {
    /// A human-readable description, never empty.
    pub fn message(&self) -> (r: String)
        ensures
            r@.len() > 0,
    {
        match self {
            BlockRequestError::TooLarge => {
                let s = "request is too large";
                proof { reveal_strlit("request is too large"); }
                s.to_owned()
            },
            BlockRequestError::SizeMismatch => {
                let s = "data size does not match the block count";
                proof { reveal_strlit("data size does not match the block count"); }
                s.to_owned()
            },
        }
    }
}

/// Bytes of the buffer a read of `n_blocks` blocks fills.
pub fn read_buffer_len(n_blocks: u64) -> (r: Result<usize, BlockRequestError>)
    ensures
        r matches Ok(n) ==> n == BLOCK_SIZE * n_blocks,
        r.is_err() <==> BLOCK_SIZE * n_blocks > usize::MAX,
        r.is_err() ==> r == Err::<usize, _>(BlockRequestError::TooLarge),
{
    if n_blocks > (usize::MAX as u64) / BLOCK_SIZE {
        return Err(BlockRequestError::TooLarge);
    }
    Ok((n_blocks * BLOCK_SIZE) as usize)
}

/// Checks that a write of `n_blocks` blocks carries exactly their bytes.
pub fn check_write(data_len: usize, n_blocks: u64) -> (r: Result<(), BlockRequestError>)
    ensures
        r.is_ok() <==> data_len == BLOCK_SIZE * n_blocks,
        r.is_err() ==> r == Err::<(), _>(BlockRequestError::SizeMismatch),
{
    if n_blocks > u64::MAX / BLOCK_SIZE || data_len as u64 != n_blocks * BLOCK_SIZE {
        return Err(BlockRequestError::SizeMismatch);
    }
    Ok(())
}

/// Pages of `page_size` bytes needed to cover `size` bytes: `size` rounded
/// up to whole pages.
pub fn page_count(size: usize, page_size: usize) -> (r: usize)
    requires
        page_size > 0,
    ensures
        r as int * page_size >= size,
        (r as int - 1) * page_size < size || r == 0,
        r == (size as int + page_size - 1) / (page_size as int),
{
    let whole = size / page_size;
    let rem = size % page_size;
    assert(size as int == whole * page_size + rem) by (nonlinear_arith)
        requires page_size > 0, whole == size as int / page_size as int, rem == size as int % page_size as int;
    let r = if rem == 0 {
        whole
    } else {
        assert(whole < size) by (nonlinear_arith)
            requires size as int == whole * page_size + rem, 0 < rem < page_size, whole >= 0;
        whole + 1
    };
    proof {
        let q = size as int / page_size as int;
        let m = size as int % page_size as int;
        assert(size as int == q * page_size + m) by (nonlinear_arith)
            requires page_size > 0, q == size as int / page_size as int, m == size as int % page_size as int;
        assert(0 <= m < page_size);
        if m == 0 {
            assert((size as int + page_size - 1) / (page_size as int) == q) by (nonlinear_arith)
                requires size as int == q * page_size, page_size > 0, q >= 0;
        } else {
            assert((size as int + page_size - 1) / (page_size as int) == q + 1) by (nonlinear_arith)
                requires size as int == q * page_size + m, page_size > 0, 0 < m < page_size, q >= 0;
        }
        assert(r as int * page_size >= size) by (nonlinear_arith)
            requires size as int == q * page_size + m, 0 <= m < page_size, r == (if m == 0 { q } else { q + 1 }), page_size > 0;
        assert((r as int - 1) * page_size < size || r == 0) by (nonlinear_arith)
            requires size as int == q * page_size + m, 0 <= m < page_size, r == (if m == 0 { q } else { q + 1 }), page_size > 0, q >= 0;
    }
    r
}

} // verus!
