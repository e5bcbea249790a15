//! Canvas geometry and the bounds-clipped framebuffer writer.
//!
//! A `Canvas` describes a raw pixel buffer the display driver owns: pixel
//! counts, a row stride in bytes that may exceed the packed row width, and
//! the bytes each pixel occupies. The buffer itself is only ever borrowed for
//! the duration of a call; this module never allocates, resizes or frees it.
//! The single write primitive stores a packed 16-bit value little-endian at
//! `y * stride + x * bytes_per_pixel`, silently dropping pixels outside the
//! canvas.

use vstd::prelude::*;
use vstd::arithmetic::div_mod::{
    lemma_fundamental_div_mod, lemma_fundamental_div_mod_converse, lemma_div_pos_is_pos,
    lemma_mod_pos_bound,
};
use vstd::arithmetic::mul::{
    lemma_mul_inequality, lemma_mul_is_commutative, lemma_mul_is_distributive_add_other_way,
};

verus! {

/// Geometry of a borrowed raw pixel buffer.
pub struct Canvas {
    /// Pixels per row.
    pub width: usize,
    /// Number of rows.
    pub height: usize,
    /// Bytes per row, padding included.
    pub stride: usize,
    /// Bytes each pixel occupies in the buffer.
    pub bytes_per_pixel: usize,
}

impl Canvas {
    /// Well-formed geometry: at least one pixel each way, room for a 16-bit
    /// pixel, and a stride that holds a full row.
    pub open spec fn wf(self) -> bool {
        &&& 0 < self.width
        &&& 0 < self.height
        &&& 2 <= self.bytes_per_pixel
        &&& self.width * self.bytes_per_pixel <= self.stride
    }

    /// Byte offset where pixel (x, y) is stored.
    pub open spec fn offset_of(self, x: int, y: int) -> int {
        y * self.stride + x * self.bytes_per_pixel
    }

    /// Number of buffer bytes the geometry addresses.
    pub open spec fn frame_bytes(self) -> int {
        self.height * self.stride
    }

    /// Whether the buffer is large enough for every addressed byte.
    pub open spec fn covers(self, buf: Seq<u8>) -> bool {
        self.frame_bytes() <= buf.len()
    }

    /// Row that buffer byte `k` belongs to.
    pub open spec fn owner_y(self, k: int) -> int {
        k / (self.stride as int)
    }

    /// Position of buffer byte `k` within its row.
    pub open spec fn row_byte(self, k: int) -> int {
        k % (self.stride as int)
    }

    /// Pixel column that buffer byte `k` belongs to.
    pub open spec fn owner_x(self, k: int) -> int {
        self.row_byte(k) / (self.bytes_per_pixel as int)
    }

    /// Position of buffer byte `k` within its pixel's cell.
    pub open spec fn lane(self, k: int) -> int {
        self.row_byte(k) % (self.bytes_per_pixel as int)
    }

    /// Whether buffer byte `k` is one of the two bytes where some canvas
    /// pixel's packed value is stored (as opposed to row padding, a cell
    /// byte past the stored 16 bits, or space beyond the frame).
    pub open spec fn is_pixel_byte(self, k: int) -> bool {
        &&& 0 <= k
        &&& self.owner_y(k) < self.height
        &&& self.owner_x(k) < self.width
        &&& self.lane(k) < 2
    }
}

/// Low byte of a packed value, stored first (little-endian).
pub open spec fn le_low(native: u16) -> u8 {
    native as u8
}

/// High byte of a packed value, stored second (little-endian).
pub open spec fn le_high(native: u16) -> u8 {
    (native >> 8) as u8
}

/// A pixel's cell lies within the frame: its offset is nonnegative and its
/// bytes end at or before `frame_bytes()`.
pub proof fn lemma_offset_in_frame(cv: Canvas, x: int, y: int)
    requires
        cv.wf(),
        0 <= x < cv.width,
        0 <= y < cv.height,
    ensures
        0 <= y * (cv.stride as int),
        0 <= x * (cv.bytes_per_pixel as int),
        cv.offset_of(x, y) + cv.bytes_per_pixel <= cv.frame_bytes(),
{
    let s = cv.stride as int;
    let b = cv.bytes_per_pixel as int;
    lemma_mul_inequality(0, y, s);
    lemma_mul_inequality(0, x, b);
    lemma_mul_inequality(x + 1, cv.width as int, b);
    lemma_mul_is_distributive_add_other_way(b, x, 1);
    assert(x * b + b == (x + 1) * b);
    lemma_mul_inequality(y + 1, cv.height as int, s);
    lemma_mul_is_distributive_add_other_way(s, y, 1);
    assert(y * s + s == (y + 1) * s);
}

/// The byte at `offset_of(x, y) + lane` decomposes back to exactly the row,
/// column and lane it was addressed with.
pub proof fn lemma_byte_owner(cv: Canvas, x: int, y: int, lane: int)
    requires
        cv.wf(),
        0 <= x < cv.width,
        0 <= y < cv.height,
        0 <= lane < cv.bytes_per_pixel,
    ensures
        cv.owner_y(cv.offset_of(x, y) + lane) == y,
        cv.owner_x(cv.offset_of(x, y) + lane) == x,
        cv.lane(cv.offset_of(x, y) + lane) == lane,
{
    let s = cv.stride as int;
    let b = cv.bytes_per_pixel as int;
    let r = x * b + lane;
    lemma_mul_inequality(0, x, b);
    lemma_mul_inequality(x + 1, cv.width as int, b);
    lemma_mul_is_distributive_add_other_way(b, x, 1);
    assert(x * b + b == (x + 1) * b);
    assert(0 <= r < s);
    let k = cv.offset_of(x, y) + lane;
    assert(k == y * s + r);
    lemma_fundamental_div_mod_converse(k, s, y, r);
    lemma_fundamental_div_mod_converse(r, b, x, lane);
}

/// Every nonnegative byte position decomposes into the cell it belongs to:
/// it equals its owner pixel's offset plus its lane, with row, column and
/// lane in their ranges.
pub proof fn lemma_byte_decomposition(cv: Canvas, k: int)
    requires
        cv.wf(),
        0 <= k,
    ensures
        k == cv.offset_of(cv.owner_x(k), cv.owner_y(k)) + cv.lane(k),
        0 <= cv.owner_y(k),
        0 <= cv.owner_x(k),
        0 <= cv.lane(k) < cv.bytes_per_pixel,
        0 <= cv.row_byte(k) < cv.stride,
{
    let s = cv.stride as int;
    let b = cv.bytes_per_pixel as int;
    lemma_mul_inequality(1, cv.width as int, b);
    assert(0 < s);
    lemma_fundamental_div_mod(k, s);
    lemma_mod_pos_bound(k, s);
    lemma_div_pos_is_pos(k, s);
    let r = cv.row_byte(k);
    lemma_fundamental_div_mod(r, b);
    lemma_mod_pos_bound(r, b);
    lemma_div_pos_is_pos(r, b);
    lemma_mul_is_commutative(s, cv.owner_y(k));
    lemma_mul_is_commutative(b, cv.owner_x(k));
}

/// Whether the geometry is well formed and a buffer of `buf_len` bytes holds
/// the whole frame. Callers that cannot establish the render preconditions
/// themselves check with this before writing.
pub fn geometry_fits(cv: &Canvas, buf_len: usize) -> (ok: bool)
    ensures
        ok == (cv.wf() && cv.frame_bytes() <= buf_len),
{
    if cv.width == 0 || cv.height == 0 || cv.bytes_per_pixel < 2 {
        return false;
    }
    let row: usize = match cv.width.checked_mul(cv.bytes_per_pixel) {
        Option::Some(r) => r,
        Option::None => {
            return false;
        },
    };
    if row > cv.stride {
        return false;
    }
    let total: usize = match cv.height.checked_mul(cv.stride) {
        Option::Some(t) => t,
        Option::None => {
            return false;
        },
    };
    total <= buf_len
}

/// Store `native`'s two bytes little-endian at pixel (x, y), or do nothing
/// at all when the pixel lies outside the canvas: out-of-range coordinates
/// are dropped, not clamped.
pub fn put_pixel(cv: &Canvas, buf: &mut Vec<u8>, x: usize, y: usize, native: u16)
    requires
        cv.wf(),
        cv.covers(old(buf)@),
    ensures
        final(buf)@.len() == old(buf)@.len(),
        x < cv.width && y < cv.height ==> final(buf)@ == old(buf)@.update(
            cv.offset_of(x as int, y as int),
            le_low(native),
        ).update(cv.offset_of(x as int, y as int) + 1, le_high(native)),
        x >= cv.width || y >= cv.height ==> final(buf)@ == old(buf)@,
{
    if y >= cv.height || x >= cv.width {
        return;
    }
    let buf_len: usize = buf.len();
    proof {
        lemma_offset_in_frame(*cv, x as int, y as int);
        assert(cv.frame_bytes() <= buf_len);
    }
    let off: usize = y * cv.stride + x * cv.bytes_per_pixel;
    buf[off] = native as u8;
    buf[off + 1] = (native >> 8) as u8;
}

} // verus!
