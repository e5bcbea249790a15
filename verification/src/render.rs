//! The full-frame rasterizer.
//!
//! A render pass walks every pixel of the canvas, turns its escape
//! observation into the variant's count, quantizes the count to RGB888,
//! packs that to 5-6-5 and commits the two bytes through the bounds-clipped
//! writer. The postcondition pins every byte of the resulting buffer: pixel
//! bytes hold exactly the packed value of their pixel, all other bytes — row
//! padding, cell bytes past the stored 16 bits, space beyond the frame — are
//! untouched.

use vstd::prelude::*;
use crate::canvas::{le_high, le_low, lemma_byte_decomposition, lemma_byte_owner, Canvas};
use crate::canvas::{geometry_fits, lemma_offset_in_frame, put_pixel};
use crate::color::{iteration_color, pack565, quant_blue, quant_green, quant_red, rgb_to_native};
use crate::escape::{escape_count, escape_count_spec, FractalVariant};

verus! {

/// Index of pixel (x, y) in the row-major escape table.
pub open spec fn escape_index(cv: Canvas, x: int, y: int) -> int {
    y * cv.width + x
}

/// The packed native value rendered at pixel (x, y).
pub open spec fn native_at(
    variant: FractalVariant,
    cv: Canvas,
    escapes: Seq<Option<u16>>,
    x: int,
    y: int,
) -> u16 {
    let count = escape_count_spec(variant, escapes[escape_index(cv, x, y)]);
    pack565(quant_red(count), quant_green(count), quant_blue(count))
}

/// Byte `k` of the buffer after a full render pass over a buffer that held
/// `pre`: the little-endian half of its pixel's packed value where a pixel
/// is stored, the old byte everywhere else.
pub open spec fn rendered_byte(
    variant: FractalVariant,
    cv: Canvas,
    escapes: Seq<Option<u16>>,
    pre: Seq<u8>,
    k: int,
) -> u8 {
    if cv.is_pixel_byte(k) {
        let native = native_at(variant, cv, escapes, cv.owner_x(k), cv.owner_y(k));
        if cv.lane(k) == 0 {
            le_low(native)
        } else {
            le_high(native)
        }
    } else {
        pre[k]
    }
}

/// The whole buffer after a full render pass over `pre`.
pub open spec fn rendered_frame(
    variant: FractalVariant,
    cv: Canvas,
    escapes: Seq<Option<u16>>,
    pre: Seq<u8>,
) -> Seq<u8> {
    Seq::new(pre.len(), |k: int| rendered_byte(variant, cv, escapes, pre, k))
}

/// Byte `k` while a render pass has finished every row below `y` and, on row
/// `y`, every column below `x`.
pub open spec fn progress_byte(
    variant: FractalVariant,
    cv: Canvas,
    escapes: Seq<Option<u16>>,
    pre: Seq<u8>,
    x: int,
    y: int,
    k: int,
) -> u8 {
    if cv.is_pixel_byte(k) && (cv.owner_y(k) < y || (cv.owner_y(k) == y && cv.owner_x(k) < x)) {
        rendered_byte(variant, cv, escapes, pre, k)
    } else {
        pre[k]
    }
}

/// A pixel's index in the escape table stays below the table's size.
proof fn lemma_escape_index_in_range(cv: Canvas, x: int, y: int)
    requires
        cv.wf(),
        0 <= x < cv.width,
        0 <= y < cv.height,
    ensures
        0 <= escape_index(cv, x, y),
        escape_index(cv, x, y) < cv.width * cv.height,
        escape_index(cv, x, y) + 1 <= cv.width * cv.height,
{
    let w = cv.width as int;
    let h = cv.height as int;
    assert(0 <= y * w + x && y * w + x + 1 <= w * h) by (nonlinear_arith)
        requires
            0 <= x < w,
            0 <= y < h,
    ;
}

/// Render one full frame: for every pixel of the canvas, compute its count,
/// quantize, pack and store. Every pixel byte of the buffer ends up holding
/// its half of the packed value; every other byte keeps its old content.
pub fn render_frame(
    variant: FractalVariant,
    cv: &Canvas,
    buf: &mut Vec<u8>,
    escapes: &Vec<Option<u16>>,
)
    requires
        cv.wf(),
        cv.covers(old(buf)@),
        escapes@.len() == cv.width * cv.height,
    ensures
        final(buf)@ == rendered_frame(variant, *cv, escapes@, old(buf)@),
{
    let ghost pre = old(buf)@;
    // An exec length is a usize: learning it bounds the ghost table length,
    // which the index arithmetic inside the loops needs.
    let escapes_len: usize = escapes.len();
    proof {
        assert(escapes@.len() == escapes_len as int);
        assert forall|k: int| 0 <= k < buf@.len() implies buf@[k] == progress_byte(
            variant,
            *cv,
            escapes@,
            pre,
            0,
            0,
            k,
        ) by {
            lemma_byte_decomposition(*cv, k);
        }
    }
    let mut y: usize = 0;
    while y < cv.height
        invariant
            cv.wf(),
            cv.covers(pre),
            escapes@.len() == cv.width * cv.height,
            escapes@.len() <= usize::MAX,
            buf@.len() == pre.len(),
            y <= cv.height,
            forall|k: int|
                0 <= k < buf@.len() ==> buf@[k] == progress_byte(
                    variant,
                    *cv,
                    escapes@,
                    pre,
                    0,
                    y as int,
                    k,
                ),
        decreases cv.height - y,
    {
        let mut x: usize = 0;
        while x < cv.width
            invariant
                cv.wf(),
                cv.covers(pre),
                escapes@.len() == cv.width * cv.height,
                escapes@.len() <= usize::MAX,
                buf@.len() == pre.len(),
                y < cv.height,
                x <= cv.width,
                forall|k: int|
                    0 <= k < buf@.len() ==> buf@[k] == progress_byte(
                        variant,
                        *cv,
                        escapes@,
                        pre,
                        x as int,
                        y as int,
                        k,
                    ),
            decreases cv.width - x,
        {
            proof {
                lemma_escape_index_in_range(*cv, x as int, y as int);
            }
            let first_escape: Option<u16> = escapes[y * cv.width + x];
            let count = escape_count(variant, first_escape);
            let (red, green, blue) = iteration_color(count);
            let native = rgb_to_native(red, green, blue);
            let ghost before = buf@;
            put_pixel(cv, buf, x, y, native);
            proof {
                let off = cv.offset_of(x as int, y as int);
                lemma_offset_in_frame(*cv, x as int, y as int);
                lemma_byte_owner(*cv, x as int, y as int, 0);
                lemma_byte_owner(*cv, x as int, y as int, 1);
                assert(native == native_at(variant, *cv, escapes@, x as int, y as int));
                assert forall|k: int| 0 <= k < buf@.len() implies buf@[k] == progress_byte(
                    variant,
                    *cv,
                    escapes@,
                    pre,
                    x as int + 1,
                    y as int,
                    k,
                ) by {
                    assert(before[k] == progress_byte(
                        variant,
                        *cv,
                        escapes@,
                        pre,
                        x as int,
                        y as int,
                        k,
                    ));
                    if k != off && k != off + 1 {
                        assert(buf@[k] == before[k]);
                        if cv.is_pixel_byte(k) && cv.owner_y(k) == y as int && cv.owner_x(k)
                            == x as int {
                            lemma_byte_decomposition(*cv, k);
                        }
                    }
                }
            }
            x = x + 1;
        }
        proof {
            assert forall|k: int| 0 <= k < buf@.len() implies buf@[k] == progress_byte(
                variant,
                *cv,
                escapes@,
                pre,
                0,
                y as int + 1,
                k,
            ) by {
                assert(buf@[k] == progress_byte(
                    variant,
                    *cv,
                    escapes@,
                    pre,
                    x as int,
                    y as int,
                    k,
                ));
                lemma_byte_decomposition(*cv, k);
            }
        }
        y = y + 1;
    }
    proof {
        assert forall|k: int| 0 <= k < buf@.len() implies buf@[k] == rendered_byte(
            variant,
            *cv,
            escapes@,
            pre,
            k,
        ) by {
            assert(buf@[k] == progress_byte(variant, *cv, escapes@, pre, 0, y as int, k));
        }
        assert(buf@ =~= rendered_frame(variant, *cv, escapes@, pre));
    }
}

/// Defensive entry point: render only when the geometry is well formed, the
/// buffer holds the whole frame and the escape table has one entry per
/// pixel; otherwise leave the buffer untouched and report the failure.
pub fn try_render(
    variant: FractalVariant,
    cv: &Canvas,
    buf: &mut Vec<u8>,
    escapes: &Vec<Option<u16>>,
) -> (ok: bool)
    ensures
        ok == (cv.wf() && cv.covers(old(buf)@) && escapes@.len() == cv.width * cv.height),
        ok ==> final(buf)@ == rendered_frame(variant, *cv, escapes@, old(buf)@),
        !ok ==> final(buf)@ == old(buf)@,
{
    if !geometry_fits(cv, buf.len()) {
        return false;
    }
    let table_len: usize = escapes.len();
    let pixels: usize = match cv.width.checked_mul(cv.height) {
        Option::Some(p) => p,
        Option::None => {
            return false;
        },
    };
    if table_len != pixels {
        return false;
    }
    render_frame(variant, cv, buf, escapes);
    true
}

/// Fill the canvas with the Mandelbrot field for the given escape table.
pub fn render_mandelbrot(cv: &Canvas, buf: &mut Vec<u8>, escapes: &Vec<Option<u16>>)
    requires
        cv.wf(),
        cv.covers(old(buf)@),
        escapes@.len() == cv.width * cv.height,
    ensures
        final(buf)@ == rendered_frame(FractalVariant::Mandelbrot, *cv, escapes@, old(buf)@),
{
    render_frame(FractalVariant::Mandelbrot, cv, buf, escapes);
}

/// Fill the canvas with the Julia field for the given escape table.
pub fn render_julia(cv: &Canvas, buf: &mut Vec<u8>, escapes: &Vec<Option<u16>>)
    requires
        cv.wf(),
        cv.covers(old(buf)@),
        escapes@.len() == cv.width * cv.height,
    ensures
        final(buf)@ == rendered_frame(FractalVariant::Julia, *cv, escapes@, old(buf)@),
{
    render_frame(FractalVariant::Julia, cv, buf, escapes);
}

/// Rendering is deterministic: what a frame's pixel bytes hold depends only
/// on the geometry, the variant and the escape data, never on what the
/// buffer held before; and identical buffers render to identical buffers.
pub proof fn lemma_render_deterministic(
    variant: FractalVariant,
    cv: Canvas,
    escapes: Seq<Option<u16>>,
    pre1: Seq<u8>,
    pre2: Seq<u8>,
)
    requires
        pre1.len() == pre2.len(),
    ensures
        forall|k: int|
            0 <= k < pre1.len() && cv.is_pixel_byte(k) ==> rendered_frame(
                variant,
                cv,
                escapes,
                pre1,
            )[k] == rendered_frame(variant, cv, escapes, pre2)[k],
        pre1 == pre2 ==> rendered_frame(variant, cv, escapes, pre1) == rendered_frame(
            variant,
            cv,
            escapes,
            pre2,
        ),
{
}

/// Rendering a frame that was already rendered changes nothing: a second
/// pass over the same geometry and escape data leaves the buffer
/// byte-identical.
pub proof fn lemma_render_idempotent(
    variant: FractalVariant,
    cv: Canvas,
    escapes: Seq<Option<u16>>,
    pre: Seq<u8>,
)
    ensures
        rendered_frame(variant, cv, escapes, rendered_frame(variant, cv, escapes, pre))
            == rendered_frame(variant, cv, escapes, pre),
{
    let once = rendered_frame(variant, cv, escapes, pre);
    let twice = rendered_frame(variant, cv, escapes, once);
    assert(twice =~= once);
}

} // verus!
