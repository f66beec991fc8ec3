//! Sampling square tiles out of a decoded texture atlas.
//!
//! An atlas is one image that packs several sprites. It reaches this module
//! as the bytes of a PNG file, is decoded to RGBA pixels, and a square block
//! of those pixels is then painted on the screen.

use vstd::prelude::*;
use vstd::arithmetic::div_mod::lemma_fundamental_div_mod;
use vstd::arithmetic::div_mod::lemma_mod_bound;
use crate::raster::blit;
use crate::raster::blit_upto;
use crate::raster::from_u8_rgb;
use crate::raster::index_of;
use crate::raster::lemma_blit_done;
use crate::raster::lemma_blit_row_done;
use crate::raster::lemma_blit_start;
use crate::raster::lemma_blit_step;
use crate::raster::pack_rgb;
use crate::raster::plot;

verus! {

/// One decoded texel: red, green, blue, alpha.
pub type Rgba = (u8, u8, u8, u8);

/// Why a texture could not be had.
#[derive(Clone, Copy, Debug, PartialEq, Eq, Structural)]
pub enum AssetError {
    /// The file could not be opened or read.
    Io,
    /// The file was read but is no PNG image that can be decoded.
    Decode,
}

/// The error of the `png` decoder. It is carried from the decoder to
/// [`get_img_buff`] and never looked into.
#[verifier::external_type_specification]
#[verifier::external_body]
pub struct ExDecodingError(png::DecodingError);

/// The error of a failed read. It is handed to [`get_img_buff`] and never
/// looked into.
#[verifier::external_type_specification]
#[verifier::external_body]
pub struct ExIoError(std::io::Error);

/// The bytes of the first frame of the PNG stream `data`, row by row, as the
/// `png` crate decodes them with its default settings; `None` where it
/// refuses the stream.
pub uninterp spec fn png_frame(data: Seq<u8>) -> Option<Seq<u8>>;

/// Runs the `png` crate's decoder over `data`: `Decoder::new`, `read_info`,
/// then `Reader::next_frame` into a buffer of `output_buffer_size` bytes. The
/// bytes past the frame's `buffer_size` are cut off, as the crate says they
/// are to be ignored. Nothing is proved of the decoder. The contract only
/// names its result: decoding depends on the bytes alone, so equal streams
/// give equal frames, and the call succeeds exactly where the named result
/// exists.
#[verifier::external_body]
fn decode_frame(data: &[u8]) -> (r: Result<Vec<u8>, png::DecodingError>)
    ensures
        r is Ok <==> png_frame(data@) is Some,
        r matches Ok(bytes) ==> png_frame(data@) == Some(bytes@),
{
    let mut reader = png::Decoder::new(data).read_info()?;
    let mut buf = vec![0; reader.output_buffer_size()];
    let info = reader.next_frame(&mut buf)?;
    buf.truncate(info.buffer_size());
    Ok(buf)
}

/// The texels that a run of decoded bytes holds: every four bytes make one,
/// and up to three bytes left over at the end are dropped.
pub open spec fn rgba_of(bytes: Seq<u8>) -> Seq<Rgba> {
    Seq::new(
        (bytes.len() / 4) as nat,
        |k: int| (bytes[4 * k], bytes[4 * k + 1], bytes[4 * k + 2], bytes[4 * k + 3]),
    )
}

/// Groups decoded bytes into texels.
pub fn group_rgba(bytes: &[u8]) -> (pixels: Vec<Rgba>)
    ensures
        pixels@ == rgba_of(bytes@),
{
    let n: usize = bytes.len();
    let mut pixels: Vec<Rgba> = Vec::new();
    let mut i: usize = 0;
    while n - i >= 4
        invariant
            n == bytes@.len(),
            i <= n,
            i == 4 * pixels@.len(),
            forall|k: int|
                0 <= k < pixels@.len() ==> pixels@[k] == (
                    bytes@[4 * k],
                    bytes@[4 * k + 1],
                    bytes@[4 * k + 2],
                    bytes@[4 * k + 3],
                ),
        decreases n - i,
    {
        let pixel: Rgba = (bytes[i], bytes[i + 1], bytes[i + 2], bytes[i + 3]);
        pixels.push(pixel);
        i = i + 4;
    }
    pixels
}

/// What loading a texture gives, for each outcome of reading its file and of
/// decoding what was read.
pub open spec fn loaded(file: Result<Seq<u8>, ()>) -> Result<Seq<Rgba>, AssetError> {
    match file {
        Err(_) => Err(AssetError::Io),
        Ok(data) => match png_frame(data) {
            None => Err(AssetError::Decode),
            Some(bytes) => Ok(rgba_of(bytes)),
        },
    }
}

/// The outcome of reading a file, with the bytes taken as a sequence and the
/// reason for a failure forgotten.
pub open spec fn read_outcome(file: Result<Vec<u8>, std::io::Error>) -> Result<Seq<u8>, ()> {
    match file {
        Ok(data) => Ok(data@),
        Err(_) => Err(()),
    }
}

/// Turns what reading a texture file gave into its texels. A failed read is
/// reported as [`AssetError::Io`], a stream that does not decode as
/// [`AssetError::Decode`]; nothing is drawn from a file that failed.
pub fn get_img_buff(file: Result<Vec<u8>, std::io::Error>) -> (r: Result<Vec<Rgba>, AssetError>)
    ensures
        match loaded(read_outcome(file)) {
            Ok(pixels) => r matches Ok(got) && got@ == pixels,
            Err(e) => r matches Err(got) && got == e,
        },
{
    match file {
        Err(_) => Err(AssetError::Io),
        Ok(data) => match decode_frame(data.as_slice()) {
            Err(_) => Err(AssetError::Decode),
            Ok(bytes) => Ok(group_rgba(bytes.as_slice())),
        },
    }
}

/// Index of the first texel of the tile anchored at (`u`, `v`) in an atlas
/// whose rows hold `w_total` texels.
pub open spec fn tile_anchor(u: int, v: int, w_total: int) -> int {
    index_of(u, v, w_total)
}

/// Whether the atlas holds every texel that the tile reads.
pub open spec fn tile_fits(len: int, u: int, v: int, w_total: int, w: int) -> bool {
    w == 0 || tile_anchor(u, v, w_total) + w * w <= len
}

/// The tile of side `w` anchored at (`u`, `v`). Its texel in column `x` of
/// row `y` is read `index_of(x, y, w)` places after the anchor: the rows are
/// taken `w` texels apart, whatever the width `w_total` of the atlas, so the
/// tile is the run of `w * w` texels that starts at the anchor.
pub open spec fn tile_of(img: Seq<Rgba>, u: int, v: int, w_total: int, w: int) -> Seq<Rgba> {
    Seq::new((w * w) as nat, |k: int| img[tile_anchor(u, v, w_total) + k])
}

/// The paint of a tile on the screen: each texel opaque, its alpha dropped.
pub open spec fn texture(tile: Seq<Rgba>, w: int) -> spec_fn(int, int) -> u32 {
    |i: int, j: int|
        {
            let p = tile[index_of(i, j, w)];
            pack_rgb(p.0, p.1, p.2)
        }
}

/// The places inside a tile of side `w` are the pairs of a column and a row
/// below `w`, each at its own index below `w * w`.
pub(crate) proof fn lemma_tile_index(x: int, y: int, w: int)
    requires
        0 <= x < w,
        0 <= y < w,
    ensures
        0 <= index_of(x, y, w) < w * w,
{
    assert(w * y + x < w * w) by (nonlinear_arith)
        requires
            0 <= x < w,
            0 <= y < w,
    ;
    assert(0 <= w * y) by (nonlinear_arith)
        requires
            0 <= y,
            0 < w,
    ;
}

/// A tile cut out of a region of one colour has that colour everywhere: if
/// every texel that the tile reads equals `c`, the tile is `w * w` copies of
/// `c`, and painting it writes the packed colour of `c` at each place.
pub proof fn lemma_tile_of_constant(img: Seq<Rgba>, u: int, v: int, w_total: int, w: int, c: Rgba)
    requires
        0 <= w,
        0 <= tile_anchor(u, v, w_total),
        tile_fits(img.len() as int, u, v, w_total, w),
        forall|x: int, y: int|
            0 <= x < w && 0 <= y < w ==> img[tile_anchor(u, v, w_total) + #[trigger] index_of(
                x,
                y,
                w,
            )] == c,
    ensures
        tile_of(img, u, v, w_total, w).len() == w * w,
        forall|k: int| 0 <= k < w * w ==> #[trigger] tile_of(img, u, v, w_total, w)[k] == c,
        forall|x: int, y: int|
            0 <= x < w && 0 <= y < w ==> #[trigger] texture(tile_of(img, u, v, w_total, w), w)(x, y)
                == pack_rgb(c.0, c.1, c.2),
{
    let tile = tile_of(img, u, v, w_total, w);
    assert(0 <= w * w) by (nonlinear_arith)
        requires
            0 <= w,
    ;
    assert forall|k: int| 0 <= k < w * w implies #[trigger] tile[k] == c by {
        assert(w > 0) by (nonlinear_arith)
            requires
                0 <= w,
                0 < w * w,
        ;
        lemma_fundamental_div_mod(k, w);
        lemma_mod_bound(k, w);
        let x = k % w;
        let y = k / w;
        assert(0 <= y < w) by (nonlinear_arith)
            requires
                0 <= k < w * w,
                k == w * y + x,
                0 <= x < w,
        ;
        assert(index_of(x, y, w) == k);
    }
    assert forall|x: int, y: int| 0 <= x < w && 0 <= y < w implies #[trigger] texture(tile, w)(x, y)
        == pack_rgb(c.0, c.1, c.2) by {
        lemma_tile_index(x, y, w);
    }
}

/// Tests whether an atlas of `len` texels holds the whole tile.
pub fn tile_in_bounds(len: usize, u: u32, w_total: u32, w: u32, v: u32) -> (ok: bool)
    ensures
        ok == tile_fits(len as int, u as int, v as int, w_total as int, w as int),
{
    if w == 0 {
        return true;
    }
    assert(w_total as int * v as int <= 0xffff_ffff * 0xffff_ffff) by (nonlinear_arith)
        requires
            0 <= w_total as int <= 0xffff_ffff,
            0 <= v as int <= 0xffff_ffff,
    ;
    assert(w as int * w as int <= 0xffff_ffff * 0xffff_ffff) by (nonlinear_arith)
        requires
            0 <= w as int <= 0xffff_ffff,
    ;
    let anchor: u128 = w_total as u128 * v as u128 + u as u128;
    let area: u128 = w as u128 * w as u128;
    anchor + area <= len as u128
}

/// Cuts the tile of side `w` anchored at (`u`, `v`) out of an atlas whose
/// rows hold `w_total` texels.
pub fn reduce_buf(img_buf: &Vec<Rgba>, u: u32, w_total: u32, w: u32, v: u32) -> (tile: Vec<Rgba>)
    requires
        tile_fits(img_buf@.len() as int, u as int, v as int, w_total as int, w as int),
    ensures
        tile@ == tile_of(img_buf@, u as int, v as int, w_total as int, w as int),
{
    let mut tile: Vec<Rgba> = Vec::new();
    if w == 0 {
        assert(tile@ =~= tile_of(img_buf@, u as int, v as int, w_total as int, w as int));
        return tile;
    }
    let side: usize = w as usize;
    let len: usize = img_buf.len();
    proof {
        assert(0 <= w_total as int * v as int) by (nonlinear_arith)
            requires
                0 <= w_total as int,
                0 <= v as int,
        ;
        assert(side as int * side as int >= side as int) by (nonlinear_arith)
            requires
                side as int >= 1,
        ;
        assert(tile_anchor(u as int, v as int, w_total as int) == w_total as int * v as int
            + u as int);
    }
    let anchor: usize = w_total as usize * v as usize + u as usize;
    let mut y: usize = 0;
    while y < side
        invariant
            side == w,
            side > 0,
            0 <= y <= side,
            anchor == tile_anchor(u as int, v as int, w_total as int),
            len == img_buf@.len(),
            anchor + side * side <= len,
            tile@.len() == side * y,
            forall|k: int| 0 <= k < tile@.len() ==> tile@[k] == img_buf@[anchor + k],
        decreases side - y,
    {
        let mut x: usize = 0;
        while x < side
            invariant
                side == w,
                0 <= x <= side,
                0 <= y < side,
                anchor == tile_anchor(u as int, v as int, w_total as int),
                len == img_buf@.len(),
                anchor + side * side <= len,
                tile@.len() == side * y + x,
                forall|k: int| 0 <= k < tile@.len() ==> tile@[k] == img_buf@[anchor + k],
            decreases side - x,
        {
            proof {
                lemma_tile_index(x as int, y as int, side as int);
            }
            let place: usize = side * y + x;
            tile.push(img_buf[anchor + place]);
            x = x + 1;
        }
        assert(side * y + side == side * (y + 1)) by (nonlinear_arith);
        y = y + 1;
    }
    tile
}

/// Paints the tile of side `w` anchored at (`u`, `v`) of the atlas `img` on
/// the screen, its top-left corner at (`x`, `y`), a corner that may lie off
/// the screen on any side. What falls off the screen is clipped, pixel by
/// pixel; what is on it is painted.
pub fn dessiner_img_at(
    buf: &mut Vec<u32>,
    w_screen: u32,
    x: i64,
    y: i64,
    w_img_buffer: u32,
    w: u32,
    u: u32,
    v: u32,
    img: &Vec<Rgba>,
)
    requires
        tile_fits(img@.len() as int, u as int, v as int, w_img_buffer as int, w as int),
    ensures
        final(buf)@ == blit(
            old(buf)@,
            w_screen as int,
            x as int,
            y as int,
            w as int,
            w as int,
            texture(tile_of(img@, u as int, v as int, w_img_buffer as int, w as int), w as int),
        ),
{
    let tile = reduce_buf(img, u, w_img_buffer, w, v);
    let side: usize = w as usize;
    let area: usize = tile.len();
    let ghost start = buf@;
    let ghost paint = texture(tile@, w as int);
    proof {
        lemma_blit_start(start, w_screen as int, x as int, y as int, w as int, paint);
    }
    let mut i: u32 = 0;
    while i < w
        invariant
            0 <= i <= w,
            side == w,
            area == tile@.len() == w * w,
            paint == texture(tile@, w as int),
            buf@ == blit_upto(
                start,
                w_screen as int,
                x as int,
                y as int,
                w as int,
                i as int,
                0,
                paint,
            ),
        decreases w - i,
    {
        let mut j: u32 = 0;
        while j < w
            invariant
                0 <= j <= w,
                0 <= i < w,
                side == w,
                area == tile@.len() == w * w,
                paint == texture(tile@, w as int),
                buf@ == blit_upto(
                    start,
                    w_screen as int,
                    x as int,
                    y as int,
                    w as int,
                    i as int,
                    j as int,
                    paint,
                ),
            decreases w - j,
        {
            proof {
                lemma_tile_index(j as int, i as int, w as int);
                lemma_blit_step(
                    start,
                    buf@,
                    w_screen as int,
                    x as int,
                    y as int,
                    w as int,
                    i as int,
                    j as int,
                    paint,
                );
            }
            let texel: Rgba = tile[side * (i as usize) + j as usize];
            plot(
                buf,
                x as i128 + j as i128,
                y as i128 + i as i128,
                w_screen,
                from_u8_rgb(texel.0, texel.1, texel.2),
            );
            j = j + 1;
        }
        proof {
            lemma_blit_row_done(
                start,
                w_screen as int,
                x as int,
                y as int,
                w as int,
                i as int,
                paint,
            );
        }
        i = i + 1;
    }
    proof {
        lemma_blit_done(start, w_screen as int, x as int, y as int, w as int, w as int, paint);
    }
}

/// Paints the tile of side `w` anchored at (`u`, `v`) of the atlas `img` on
/// the screen, its top-left corner at (`x`, `y`). What falls off the screen
/// is clipped, pixel by pixel.
pub fn dessiner_img(
    buf: &mut Vec<u32>,
    w_screen: u32,
    x: u32,
    y: u32,
    w_img_buffer: u32,
    w: u32,
    u: u32,
    v: u32,
    img: &Vec<Rgba>,
)
    requires
        tile_fits(img@.len() as int, u as int, v as int, w_img_buffer as int, w as int),
    ensures
        final(buf)@ == blit(
            old(buf)@,
            w_screen as int,
            x as int,
            y as int,
            w as int,
            w as int,
            texture(tile_of(img@, u as int, v as int, w_img_buffer as int, w as int), w as int),
        ),
{
    dessiner_img_at(buf, w_screen, x as i64, y as i64, w_img_buffer, w, u, v, img);
}

} // verus!
