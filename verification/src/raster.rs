//! Writing rectangles into a row-major pixel buffer, with clipping.

use vstd::prelude::*;
use vstd::arithmetic::div_mod::lemma_fundamental_div_mod;
use vstd::arithmetic::div_mod::lemma_fundamental_div_mod_converse;
use vstd::arithmetic::div_mod::lemma_div_pos_is_pos;
use vstd::arithmetic::div_mod::lemma_mod_bound;

verus! {

/// Linear index of the pixel in column `x` of row `y`, in a buffer whose rows
/// hold `w` pixels.
pub open spec fn index_of(x: int, y: int, w: int) -> int {
    w * y + x
}

/// The three colour channels packed into one 24-bit value, red highest.
pub open spec fn pack_rgb(r: u8, g: u8, b: u8) -> u32 {
    ((r as u32) << 16) | ((g as u32) << 8) | (b as u32)
}

/// What one write at column `px`, row `py` leaves in `buf`: the pixel is set
/// when its column lies inside a row, its row is not above the first, and
/// its index lies inside the buffer; it is dropped otherwise.
pub open spec fn plotted(buf: Seq<u32>, px: int, py: int, stride: int, colour: u32) -> Seq<u32> {
    if 0 <= px < stride && 0 <= py && index_of(px, py, stride) < buf.len() {
        buf.update(index_of(px, py, stride), colour)
    } else {
        buf
    }
}

/// Whether the pixel stored at index `k` lies in the rectangle that starts at
/// column `left`, row `top` and spans `w` columns and `h` rows.
pub open spec fn covered(k: int, stride: int, left: int, top: int, w: int, h: int) -> bool {
    &&& stride > 0
    &&& left <= k % stride < left + w
    &&& top <= k / stride < top + h
}

/// The buffer after a rectangle has been painted over it: a covered pixel
/// takes `paint` at its offset inside the rectangle, every other pixel stays.
pub open spec fn blit(
    buf: Seq<u32>,
    stride: int,
    left: int,
    top: int,
    w: int,
    h: int,
    paint: spec_fn(int, int) -> u32,
) -> Seq<u32> {
    Seq::new(
        buf.len(),
        |k: int|
            if covered(k, stride, left, top, w, h) {
                paint(k % stride - left, k / stride - top)
            } else {
                buf[k]
            },
    )
}

/// The paint of a rectangle of one colour.
pub open spec fn solid(colour: u32) -> spec_fn(int, int) -> u32 {
    |i: int, j: int| colour
}

/// Whether index `k` lies in the part of the rectangle that a row-by-row
/// painter has finished once `rows` full rows and `cols` pixels of the next
/// row are done.
pub(crate) open spec fn covered_upto(
    k: int,
    stride: int,
    left: int,
    top: int,
    w: int,
    rows: int,
    cols: int,
) -> bool {
    &&& stride > 0
    &&& left <= k % stride < left + w
    &&& (top <= k / stride < top + rows || (k / stride == top + rows && k % stride < left + cols))
}

/// The buffer while a rectangle is being painted row by row.
pub(crate) open spec fn blit_upto(
    buf: Seq<u32>,
    stride: int,
    left: int,
    top: int,
    w: int,
    rows: int,
    cols: int,
    paint: spec_fn(int, int) -> u32,
) -> Seq<u32> {
    Seq::new(
        buf.len(),
        |k: int|
            if covered_upto(k, stride, left, top, w, rows, cols) {
                paint(k % stride - left, k / stride - top)
            } else {
                buf[k]
            },
    )
}

/// Before the first pixel nothing has changed.
pub(crate) proof fn lemma_blit_start(
    buf: Seq<u32>,
    stride: int,
    left: int,
    top: int,
    w: int,
    paint: spec_fn(int, int) -> u32,
)
    ensures
        blit_upto(buf, stride, left, top, w, 0, 0, paint) == buf,
{
}

/// A row painted to its end is a finished row.
pub(crate) proof fn lemma_blit_row_done(
    buf: Seq<u32>,
    stride: int,
    left: int,
    top: int,
    w: int,
    rows: int,
    paint: spec_fn(int, int) -> u32,
)
    requires
        rows >= 0,
    ensures
        blit_upto(buf, stride, left, top, w, rows, w, paint) == blit_upto(
            buf,
            stride,
            left,
            top,
            w,
            rows + 1,
            0,
            paint,
        ),
{
    assert(blit_upto(buf, stride, left, top, w, rows, w, paint) =~= blit_upto(
        buf,
        stride,
        left,
        top,
        w,
        rows + 1,
        0,
        paint,
    ));
}

/// Once every row is finished the whole rectangle is painted.
pub(crate) proof fn lemma_blit_done(
    buf: Seq<u32>,
    stride: int,
    left: int,
    top: int,
    w: int,
    h: int,
    paint: spec_fn(int, int) -> u32,
)
    requires
        w >= 0,
        h >= 0,
    ensures
        blit_upto(buf, stride, left, top, w, h, 0, paint) == blit(buf, stride, left, top, w, h, paint),
{
    assert(blit_upto(buf, stride, left, top, w, h, 0, paint) =~= blit(
        buf,
        stride,
        left,
        top,
        w,
        h,
        paint,
    ));
}

/// One write at the next pixel of the current row carries the painting one
/// pixel further, whether the pixel was on screen or clipped.
pub(crate) proof fn lemma_blit_step(
    buf: Seq<u32>,
    cur: Seq<u32>,
    stride: int,
    left: int,
    top: int,
    w: int,
    rows: int,
    cols: int,
    paint: spec_fn(int, int) -> u32,
)
    requires
        stride >= 0,
        rows >= 0,
        0 <= cols < w,
        cur == blit_upto(buf, stride, left, top, w, rows, cols, paint),
    ensures
        plotted(cur, left + cols, top + rows, stride, paint(cols, rows)) == blit_upto(
            buf,
            stride,
            left,
            top,
            w,
            rows,
            cols + 1,
            paint,
        ),
{
    let px = left + cols;
    let py = top + rows;
    let idx = index_of(px, py, stride);
    let next = plotted(cur, px, py, stride, paint(cols, rows));
    let goal = blit_upto(buf, stride, left, top, w, rows, cols + 1, paint);
    assert forall|k: int| 0 <= k < next.len() implies next[k] == goal[k] by {
        if stride > 0 {
            lemma_fundamental_div_mod(k, stride);
            lemma_mod_bound(k, stride);
            lemma_div_pos_is_pos(k, stride);
            if 0 <= px < stride {
                lemma_fundamental_div_mod_converse(idx, stride, py, px);
            }
        }
    }
}

/// Index of the pixel at (`x`, `y`) in a buffer whose rows hold `w` pixels.
pub fn f(x: u32, y: u32, w: u32) -> (i: u32)
    requires
        index_of(x as int, y as int, w as int) <= u32::MAX,
    ensures
        i == index_of(x as int, y as int, w as int),
{
    w * y + x
}

/// Column and row of the pixel stored at index `i` in a buffer whose rows
/// hold `w` pixels: the inverse of [`f`].
pub fn g(i: u32, w: u32) -> (p: (u32, u32))
    requires
        w > 0,
    ensures
        p.0 == i % w,
        p.1 == i / w,
        p.0 < w,
        index_of(p.0 as int, p.1 as int, w as int) == i,
{
    proof {
        lemma_fundamental_div_mod(i as int, w as int);
    }
    let coo_x: u32 = i % w;
    let coo_y: u32 = i / w;
    (coo_x, coo_y)
}

/// Packs three 8-bit channels into one opaque pixel.
pub fn from_u8_rgb(r: u8, g: u8, b: u8) -> (c: u32)
    ensures
        c == pack_rgb(r, g, b),
        c == r as int * 65536 + g as int * 256 + b as int,
{
    let c: u32 = ((r as u32) << 16) | ((g as u32) << 8) | (b as u32);
    assert((((r as u32) << 16) | ((g as u32) << 8) | (b as u32)) == (r as u32) * 65536 + (g as u32)
        * 256 + (b as u32)) by (bit_vector);
    c
}

/// One clipped write, for a pixel that may lie anywhere, on the screen or
/// off it on any side.
pub(crate) fn plot(buf: &mut Vec<u32>, px: i128, py: i128, width: u32, colour: u32)
    requires
        -0x1_0000_0000_0000_0000 <= py <= 0x1_0000_0000_0000_0000,
    ensures
        final(buf)@ == plotted(old(buf)@, px as int, py as int, width as int, colour),
{
    if 0 <= px && px < width as i128 && 0 <= py {
        assert(width as int * py as int <= 0xffff_ffff * 0x1_0000_0000_0000_0000)
            by (nonlinear_arith)
            requires
                0 <= width as int <= 0xffff_ffff,
                0 <= py as int <= 0x1_0000_0000_0000_0000,
        ;
        assert(0 <= width as int * py as int) by (nonlinear_arith)
            requires
                0 <= width as int,
                0 <= py as int,
        ;
        let idx: i128 = width as i128 * py + px;
        if idx < buf.len() as i128 {
            buf.set(idx as usize, colour);
        }
    }
}

/// Sets the pixel at (`x`, `y`) of a screen `width` pixels wide. A pixel
/// whose column is off the screen, or whose index is past the end of the
/// buffer, is dropped.
pub fn draw_pixel(buf: &mut Vec<u32>, x: u32, y: u32, width: u32, colour: u32)
    ensures
        final(buf)@ == plotted(old(buf)@, x as int, y as int, width as int, colour),
{
    plot(buf, x as i128, y as i128, width, colour);
}

/// Fills with one colour the rectangle whose top-left corner is (`x`, `y`),
/// a corner that may lie off the screen on any side. What falls off the
/// screen is clipped, pixel by pixel; what is on it is painted.
pub fn draw_rect_at(
    buf: &mut Vec<u32>,
    x: i64,
    y: i64,
    width_screen: u32,
    width: u32,
    height: u32,
    colour: u32,
)
    ensures
        final(buf)@ == blit(
            old(buf)@,
            width_screen as int,
            x as int,
            y as int,
            width as int,
            height as int,
            solid(colour),
        ),
{
    let ghost start = buf@;
    let ghost paint = solid(colour);
    proof {
        lemma_blit_start(start, width_screen as int, x as int, y as int, width as int, paint);
    }
    let mut j: u32 = 0;
    while j < height
        invariant
            0 <= j <= height,
            paint == solid(colour),
            buf@ == blit_upto(
                start,
                width_screen as int,
                x as int,
                y as int,
                width as int,
                j as int,
                0,
                paint,
            ),
        decreases height - j,
    {
        let mut i: u32 = 0;
        while i < width
            invariant
                0 <= i <= width,
                0 <= j < height,
                paint == solid(colour),
                buf@ == blit_upto(
                    start,
                    width_screen as int,
                    x as int,
                    y as int,
                    width as int,
                    j as int,
                    i as int,
                    paint,
                ),
            decreases width - i,
        {
            proof {
                lemma_blit_step(
                    start,
                    buf@,
                    width_screen as int,
                    x as int,
                    y as int,
                    width as int,
                    j as int,
                    i as int,
                    paint,
                );
            }
            plot(buf, x as i128 + i as i128, y as i128 + j as i128, width_screen, colour);
            i = i + 1;
        }
        proof {
            lemma_blit_row_done(
                start,
                width_screen as int,
                x as int,
                y as int,
                width as int,
                j as int,
                paint,
            );
        }
        j = j + 1;
    }
    proof {
        lemma_blit_done(
            start,
            width_screen as int,
            x as int,
            y as int,
            width as int,
            height as int,
            paint,
        );
    }
}

/// Fills the rectangle whose top-left corner is (`x`, `y`) with one colour.
/// What falls off the screen is clipped, pixel by pixel.
pub fn draw_rect(
    buf: &mut Vec<u32>,
    x: u32,
    y: u32,
    width_screen: u32,
    width: u32,
    height: u32,
    colour: u32,
)
    ensures
        final(buf)@ == blit(
            old(buf)@,
            width_screen as int,
            x as int,
            y as int,
            width as int,
            height as int,
            solid(colour),
        ),
{
    draw_rect_at(buf, x as i64, y as i64, width_screen, width, height, colour);
}

} // verus!
