//! Display logic of the GPU service: bounds and size checks, and the
//! row-by-row copy of a posted buffer into the framebuffer.

use vstd::prelude::*;

verus! {

/// Bytes per pixel of the framebuffer (RGBA).
pub const BYTES_PER_PIXEL: u32 = 4;

/// Side, in pixels, of the square cursor image.
pub const CURSOR_SIDE: u32 = 64;

/// A screen resolution.
#[derive(Clone, Copy, Debug, Default, PartialEq, Eq, Structural)]
pub struct Size {
    pub width: u32,
    pub height: u32,
}

/// A rectangle of the screen, in pixels.
#[derive(Clone, Copy, Debug, Default, PartialEq, Eq, Structural)]
pub struct Region {
    pub x: u32,
    pub y: u32,
    pub w: u32,
    pub h: u32,
}

/// Why a posted buffer was refused.
#[derive(Clone, Copy, Debug, PartialEq, Eq, Structural)]
pub enum PostBufferError {
    /// The region reaches past the right or bottom edge of the screen.
    OutOfBounds,
    /// The buffer does not hold exactly `w·h·4` bytes.
    SizeMismatch,
}

/// Bytes of a framebuffer of resolution `s`.
pub open spec fn frame_len(s: Size) -> int {
    s.width * s.height * 4
}

pub open spec fn region_in_bounds(r: Region, s: Size) -> bool {
    r.x + r.w <= s.width && r.y + r.h <= s.height
}

/// Bytes a posted buffer for region `r` must hold.
pub open spec fn region_len(r: Region) -> int {
    r.w * r.h * 4
}

/// Offset in the framebuffer of the first byte of row `row` of region `r`.
pub open spec fn row_start(s: Size, r: Region, row: int) -> int {
    ((r.y + row) * s.width + r.x) * 4
}

/// Offset in the framebuffer of byte `k` of row `row` of region `r`.
pub open spec fn dst_index(s: Size, r: Region, row: int, k: int) -> int {
    row_start(s, r, row) + k
}

/// The outcome of posting `data_len` bytes to region `r` of a screen `s`.
pub open spec fn post_buffer_check(s: Size, r: Region, data_len: int) -> Result<(), PostBufferError> {
    if !region_in_bounds(r, s) {
        Err(PostBufferError::OutOfBounds)
    } else if data_len != region_len(r) {
        Err(PostBufferError::SizeMismatch)
    } else {
        Ok(())
    }
}

impl Size {
    /// Bytes of a framebuffer of this resolution, if that fits a `usize`.
    pub fn framebuffer_size(&self) -> (r: Option<usize>)
        ensures
            r matches Some(n) ==> n == frame_len(*self),
            r.is_none() <==> frame_len(*self) > usize::MAX,
    {
        let w = self.width as u64;
        let h = self.height as u64;
        assert(w * h <= 0xffff_ffff * 0xffff_ffff) by (nonlinear_arith)
            requires w <= 0xffff_ffff, h <= 0xffff_ffff;
        let wh = w * h;
        if wh > (usize::MAX as u64) / 4 {
            return None;
        }
        Some((wh * 4) as usize)
    }
}

impl PostBufferError {
    /// A human-readable description, never empty.
    pub fn message(&self) -> (r: String)
        ensures
            r@.len() > 0,
    {
        match self {
            PostBufferError::OutOfBounds => {
                let s = "region is out of bounds for the screen resolution";
                proof { reveal_strlit("region is out of bounds for the screen resolution"); }
                s.to_owned()
            },
            PostBufferError::SizeMismatch => {
                let s = "buffer size does not match the region";
                proof { reveal_strlit("buffer size does not match the region"); }
                s.to_owned()
            },
        }
    }
}

proof fn lemma_rows_ordered(s: Size, r: Region, r1: int, r2: int, k: int)
    requires
        region_in_bounds(r, s),
        0 <= r1 < r2,
        0 <= k < r.w * 4,
    ensures
        row_start(s, r, r1) + k < row_start(s, r, r2),
{
    let wd = s.width as int;
    assert((r.y + r1) * wd + r.x + r.w <= (r.y + r1 + 1) * wd) by (nonlinear_arith)
        requires r.x + r.w <= wd;
    assert((r.y + r1 + 1) * wd <= (r.y + r2) * wd) by (nonlinear_arith)
        requires r1 + 1 <= r2, wd >= 0;
    assert(row_start(s, r, r1) + k < ((r.y + r1) * wd + r.x + r.w) * 4) by (nonlinear_arith)
        requires k < r.w * 4, row_start(s, r, r1) == ((r.y + r1) * wd + r.x) * 4;
}

proof fn lemma_row_fits(s: Size, r: Region, row: int)
    requires
        region_in_bounds(r, s),
        0 <= row < r.h,
    ensures
        0 <= row_start(s, r, row),
        row_start(s, r, row) + r.w * 4 <= frame_len(s),
        (r.y + row) * s.width + r.x <= s.width * s.height,
        (row * r.w + r.w) * 4 <= region_len(r),
{
    let wd = s.width as int;
    let ht = s.height as int;
    assert((r.y + row) * wd + r.x + r.w <= (r.y + row + 1) * wd) by (nonlinear_arith)
        requires r.x + r.w <= wd;
    assert((r.y + row + 1) * wd <= ht * wd) by (nonlinear_arith)
        requires r.y + row + 1 <= ht, wd >= 0;
    assert(0 <= (r.y + row) * wd) by (nonlinear_arith)
        requires r.y + row >= 0, wd >= 0;
    assert(ht * wd == wd * ht) by (nonlinear_arith);
    assert(row * r.w + r.w <= r.w * r.h) by (nonlinear_arith)
        requires row + 1 <= r.h, r.w >= 0;
}

/// Copies `data`, `w·4` bytes per row, into region `region` of the
/// framebuffer `fb` of a screen of resolution `screen`. A region past the
/// screen's edge or a buffer of the wrong size is refused and `fb` is left
/// as it was.
pub fn post_buffer(fb: &mut [u8], screen: Size, region: Region, data: &[u8]) -> (r: Result<(), PostBufferError>)
    requires
        old(fb)@.len() == frame_len(screen),
    ensures
        r == post_buffer_check(screen, region, data@.len() as int),
        final(fb)@.len() == old(fb)@.len(),
        r.is_err() ==> final(fb)@ == old(fb)@,
        r.is_ok() ==> forall|row: int, k: int|
            0 <= row < region.h && 0 <= k < region.w * 4 ==> final(fb)@[#[trigger] dst_index(screen, region, row, k)]
                == data@[row * region.w * 4 + k],
        r.is_ok() ==> forall|i: int|
            0 <= i < final(fb)@.len() && (forall|row: int, k: int|
                0 <= row < region.h && 0 <= k < region.w * 4 ==> i != #[trigger] dst_index(screen, region, row, k))
                ==> final(fb)@[i] == old(fb)@[i],
{
    if region.x as u64 + region.w as u64 > screen.width as u64 || region.y as u64 + region.h as u64 > screen.height as u64 {
        return Err(PostBufferError::OutOfBounds);
    }
    proof {
        assert(region.w as int * region.h as int <= 0xffff_ffff * 0xffff_ffff) by (nonlinear_arith)
            requires region.w <= 0xffff_ffff, region.h <= 0xffff_ffff;
    }
    let expected = region.w as u64 * region.h as u64;
    let dl = data.len();
    if expected > (usize::MAX as u64) / 4 || dl != (expected * 4) as usize {
        return Err(PostBufferError::SizeMismatch);
    }
    let fb_len = fb.len();
    if region.h == 0 {
        return Ok(());
    }
    assert(region.w * 4 <= region_len(region)) by (nonlinear_arith)
        requires region.h >= 1, region.w >= 0;
    let ghost old_fb = fb@;
    let sw = screen.width as usize;
    let w4 = region.w as usize * 4;
    let mut row: u32 = 0;
    while row < region.h
        invariant
            0 <= row <= region.h,
            region_in_bounds(region, screen),
            fb@.len() == old_fb.len() == frame_len(screen) == fb_len,
            data@.len() == region_len(region) == dl,
            sw == screen.width,
            w4 == region.w * 4,
            forall|r1: int, k: int|
                0 <= r1 < row && 0 <= k < region.w * 4 ==> fb@[#[trigger] dst_index(screen, region, r1, k)]
                    == data@[r1 * region.w * 4 + k],
            forall|i: int|
                0 <= i < fb@.len() && (forall|r1: int, k: int|
                    0 <= r1 < row && 0 <= k < region.w * 4 ==> i != #[trigger] dst_index(screen, region, r1, k))
                    ==> fb@[i] == old_fb[i],
        decreases region.h - row,
    {
        proof { lemma_row_fits(screen, region, row as int); }
        assert(((region.y + row) * sw + region.x) * 4 + w4 <= fb_len);
        let base: usize = ((region.y + row) as usize * sw + region.x as usize) * 4;
        assert(row * w4 <= (row * region.w + region.w) * 4) by (nonlinear_arith)
            requires w4 == region.w * 4, region.w >= 0;
        let src: usize = row as usize * w4;
        assert(src == row * region.w * 4) by (nonlinear_arith)
            requires src == row * w4, w4 == region.w * 4;
        assert(src + w4 <= data@.len()) by (nonlinear_arith)
            requires src == row * region.w * 4, w4 == region.w * 4, (row * region.w + region.w) * 4 <= region_len(region), data@.len() == region_len(region);
        let ghost before = fb@;
        let mut k: usize = 0;
        while k < w4
            invariant
                0 <= k <= w4,
                w4 == region.w * 4,
                base == row_start(screen, region, row as int),
                base + w4 <= fb@.len(),
                src == row * region.w * 4,
                src + w4 <= data@.len(),
                fb@.len() == before.len() == fb_len,
                data@.len() == dl,
                forall|j: int| 0 <= j < k ==> fb@[#[trigger] dst_index(screen, region, row as int, j)] == data@[src + j],
                forall|i: int| 0 <= i < fb@.len() && !(base <= i < base + k) ==> fb@[i] == before[i],
            decreases w4 - k,
        {
            fb[base + k] = data[src + k];
            k = k + 1;
        }
        proof {
            assert forall|r1: int, kk: int|
                0 <= r1 < row + 1 && 0 <= kk < region.w * 4 implies fb@[#[trigger] dst_index(screen, region, r1, kk)]
                    == data@[r1 * region.w * 4 + kk] by {
                if r1 < row {
                    lemma_rows_ordered(screen, region, r1, row as int, kk);
                } else {
                    assert(fb@[dst_index(screen, region, row as int, kk)] == data@[src + kk]);
                }
            }
            assert forall|i: int|
                0 <= i < fb@.len() && (forall|r1: int, kk: int|
                    0 <= r1 < row + 1 && 0 <= kk < region.w * 4 ==> i != #[trigger] dst_index(screen, region, r1, kk))
                    implies fb@[i] == old_fb[i] by {
                assert(!(base <= i < base + w4)) by {
                    if base <= i < base + w4 {
                        let kk = i - base;
                        assert(i == dst_index(screen, region, row as int, kk));
                    }
                }
            }
        }
        row = row + 1;
    }
    Ok(())
}

} // verus!
