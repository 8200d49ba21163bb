//! The frame rasterizer: one call of the shading function per pixel.
//!
//! The shading function maps a column, a row and a frame index to a color
//! that is already quantized. What it computes in between (the coordinate
//! as a vector, the normalized time, the field itself) is its own affair.

use vstd::prelude::*;
use vstd::arithmetic::div_mod::lemma_fundamental_div_mod;
use crate::pixel::lemma_pixel_index_in_range;
use crate::pixel::pixel_index;
use crate::pixel::PixelBuffer;
use crate::pixel::Rgb;

verus! {

/// Every pixel of `buf` holds a color that `shade` may return for that
/// pixel's column and row and for frame `frame`.
pub open spec fn renders<F: Fn(usize, usize, usize) -> Rgb>(
    shade: F,
    frame: usize,
    buf: PixelBuffer,
) -> bool {
    forall|x: usize, y: usize|
        x < buf.width() && y < buf.height() ==> call_ensures(
            shade,
            (x, y, frame),
            #[trigger] buf.pixel(x as int, y as int),
        )
}

/// `shade` may be called on every pixel of a `width` by `height` grid for
/// frame `frame`.
pub open spec fn shades_grid<F: Fn(usize, usize, usize) -> Rgb>(
    shade: F,
    frame: usize,
    width: usize,
    height: usize,
) -> bool {
    forall|x: usize, y: usize| x < width && y < height ==> call_requires(shade, (x, y, frame))
}

/// `shade` is a function of its arguments: it allows one color for each.
pub open spec fn is_pure<F: Fn(usize, usize, usize) -> Rgb>(shade: F) -> bool {
    forall|args: (usize, usize, usize), a: Rgb, b: Rgb|
        #[trigger] call_ensures(shade, args, a) && #[trigger] call_ensures(shade, args, b) ==> a
            == b
}

/// Rasterizes frame `frame` into `buf`: visits the pixels row by row, from
/// left to right, and writes at each the color that `shade` returns for it.
pub fn render_frame<F: Fn(usize, usize, usize) -> Rgb>(buf: &mut PixelBuffer, frame: usize, shade: F)
    requires
        old(buf).wf(),
        shades_grid(shade, frame, old(buf).width(), old(buf).height()),
    ensures
        final(buf).wf(),
        final(buf).width() == old(buf).width(),
        final(buf).height() == old(buf).height(),
        renders(shade, frame, *final(buf)),
{
    let width: usize = buf.width();
    let height: usize = buf.height();
    let mut y: usize = 0;
    while y < height
        invariant
            buf.wf(),
            buf.width() == width,
            buf.height() == height,
            y <= height,
            shades_grid(shade, frame, width, height),
            forall|x2: usize, y2: usize|
                x2 < width && y2 < y ==> call_ensures(
                    shade,
                    (x2, y2, frame),
                    #[trigger] buf.pixel(x2 as int, y2 as int),
                ),
        decreases height - y,
    {
        let mut x: usize = 0;
        while x < width
            invariant
                buf.wf(),
                buf.width() == width,
                buf.height() == height,
                y < height,
                x <= width,
                shades_grid(shade, frame, width, height),
                forall|x2: usize, y2: usize|
                    x2 < width && (y2 < y || (y2 == y && x2 < x)) ==> call_ensures(
                        shade,
                        (x2, y2, frame),
                        #[trigger] buf.pixel(x2 as int, y2 as int),
                    ),
            decreases width - x,
        {
            let color = shade(x, y, frame);
            buf.set_pixel(x, y, color);
            x = x + 1;
        }
        y = y + 1;
    }
}

/// Rendering is deterministic: two buffers of one size that both hold what a
/// pure shading function returns for one frame are equal byte for byte, in
/// whatever order their pixels were visited.
pub proof fn lemma_render_deterministic<F: Fn(usize, usize, usize) -> Rgb>(
    shade: F,
    frame: usize,
    a: PixelBuffer,
    b: PixelBuffer,
)
    requires
        is_pure(shade),
        a.wf(),
        b.wf(),
        a.width() == b.width(),
        a.height() == b.height(),
        renders(shade, frame, a),
        renders(shade, frame, b),
    ensures
        a@ == b@,
{
    let w = a.width() as int;
    let h = a.height() as int;
    a.lemma_len();
    b.lemma_len();
    assert forall|i: int| 0 <= i < a@.len() implies a@[i] == b@[i] by {
        let idx = i / 3;
        lemma_fundamental_div_mod(i, 3);
        assert(0 <= idx < w * h);
        assert(w > 0) by (nonlinear_arith)
            requires
                0 <= idx < w * h,
                0 <= w,
        ;
        let x = idx % w;
        let y = idx / w;
        lemma_fundamental_div_mod(idx, w);
        assert(w * y == y * w) by (nonlinear_arith);
        assert(0 <= y < h) by (nonlinear_arith)
            requires
                0 <= idx < w * h,
                w * y + x == idx,
                0 <= x < w,
        ;
        assert(pixel_index(w, x, y) == idx);
        lemma_pixel_index_in_range(w, h, x, y);
        let pa = a.pixel(x, y);
        let pb = b.pixel(x, y);
        assert(a.pixel(x as usize as int, y as usize as int) == pa);
        assert(b.pixel(x as usize as int, y as usize as int) == pb);
        assert(call_ensures(shade, (x as usize, y as usize, frame), pa));
        assert(call_ensures(shade, (x as usize, y as usize, frame), pb));
        assert(pa == pb);
    }
    assert(a@ =~= b@);
}

} // verus!
