//! The rectangle that every actor is made of.
//!
//! A position or a velocity is a fixed-point number of [`SUBPIXEL`] units to
//! the pixel, so that a speed of a fraction of a pixel adds up over the ticks
//! without loss. Whole pixels are taken only where rectangles are compared or
//! drawn, and they keep their sign: a rectangle left of the screen or above
//! it is where its position says, not at the edge. A coordinate that would
//! leave the 64-bit range stays at the end of the range.

use vstd::prelude::*;
use crate::atlas::dessiner_img_at;
use crate::atlas::texture;
use crate::atlas::tile_fits;
use crate::atlas::tile_of;
use crate::atlas::Rgba;
use crate::raster::blit;

verus! {

/// Units of position in one pixel.
pub const SUBPIXEL: i64 = 256;

/// `v` held to the range of a 64-bit coordinate.
pub open spec fn saturated(v: int) -> int {
    if v < i64::MIN {
        i64::MIN as int
    } else if v > i64::MAX {
        i64::MAX as int
    } else {
        v
    }
}

/// The pixel that a coordinate falls in: the fraction of a pixel is dropped
/// and the sign is kept, so that the cut goes toward the origin on both
/// sides of it.
pub open spec fn pixel(v: int) -> int {
    if v >= 0 {
        v / (SUBPIXEL as int)
    } else {
        -((-v) / (SUBPIXEL as int))
    }
}

/// Sum of two coordinates, held to the 64-bit range.
pub fn sat_add(a: i64, b: i64) -> (r: i64)
    ensures
        r == saturated(a + b),
{
    match a.checked_add(b) {
        Some(sum) => sum,
        None => if b > 0 {
            i64::MAX
        } else {
            i64::MIN
        },
    }
}

/// The coordinate of the left or top edge of pixel `px`.
pub fn from_pixels(px: i32) -> (v: i64)
    ensures
        v == px * SUBPIXEL,
{
    px as i64 * SUBPIXEL
}

/// A length of `px` pixels in units of position.
pub fn from_extent(px: u32) -> (v: i64)
    ensures
        v == px * SUBPIXEL,
        pixel(v as int) == px,
{
    px as i64 * SUBPIXEL
}

/// Cuts a coordinate to its pixel.
pub fn to_pixel(v: i64) -> (p: i64)
    ensures
        p == pixel(v as int),
        -0x80_0000_0000_0000 <= p < 0x80_0000_0000_0000,
{
    if v >= 0 {
        v / SUBPIXEL
    } else {
        let away: i128 = -(v as i128);
        let cut: i128 = away / (SUBPIXEL as i128);
        (-cut) as i64
    }
}

/// An axis-aligned rectangle that moves: the top-left corner and the velocity
/// in units of position, the size in pixels, and the colour it is filled with
/// where it has no texture.
#[derive(Clone, Copy, Debug, PartialEq, Eq, Structural)]
pub struct ElementGraphique {
    pub x: i64,
    pub y: i64,
    pub dx: i64,
    pub dy: i64,
    pub width: u32,
    pub height: u32,
    pub col: u32,
}

impl ElementGraphique {
    /// A rectangle on the screen has a width and a height.
    pub open spec fn wf(self) -> bool {
        self.width > 0 && self.height > 0
    }

    /// Column of the leftmost pixels.
    pub open spec fn left(self) -> int {
        pixel(self.x as int)
    }

    /// Column just right of the rectangle.
    pub open spec fn right(self) -> int {
        self.left() + self.width
    }

    /// Row of the topmost pixels.
    pub open spec fn top(self) -> int {
        pixel(self.y as int)
    }

    /// Row just below the rectangle.
    pub open spec fn bottom(self) -> int {
        self.top() + self.height
    }

    /// Whether the pixel in column `px` of row `py` belongs to the rectangle.
    pub open spec fn covers(self, px: int, py: int) -> bool {
        self.left() <= px < self.right() && self.top() <= py < self.bottom()
    }

    /// Whether two rectangles intersect: neither lies wholly to one side of
    /// the other. Rectangles that only touch along an edge do not.
    pub open spec fn overlaps(self, other: ElementGraphique) -> bool {
        !(other.left() >= self.right() || other.right() <= self.left() || other.top()
            >= self.bottom() || other.bottom() <= self.top())
    }

    /// The rectangle one tick later: moved by its velocity, nothing else
    /// changed.
    pub open spec fn translated(self) -> ElementGraphique {
        ElementGraphique {
            x: saturated(self.x + self.dx) as i64,
            y: saturated(self.y + self.dy) as i64,
            ..self
        }
    }

    /// Moves the rectangle by its velocity. No bound is applied here: what
    /// happens at the edges of the screen is up to the owner.
    pub fn update(&mut self)
        ensures
            *final(self) == old(self).translated(),
            i64::MIN <= old(self).x + old(self).dx <= i64::MAX ==> final(self).x == old(self).x
                + old(self).dx,
            i64::MIN <= old(self).y + old(self).dy <= i64::MAX ==> final(self).y == old(self).y
                + old(self).dy,
    {
        self.x = sat_add(self.x, self.dx);
        self.y = sat_add(self.y, self.dy);
    }

    /// Tells whether this rectangle and `other` intersect.
    pub fn collision(&self, other: &ElementGraphique) -> (hit: bool)
        ensures
            hit == self.overlaps(*other),
    {
        let left: i64 = to_pixel(self.x);
        let top: i64 = to_pixel(self.y);
        let right: i64 = left + self.width as i64;
        let bottom: i64 = top + self.height as i64;
        let other_left: i64 = to_pixel(other.x);
        let other_top: i64 = to_pixel(other.y);
        let other_right: i64 = other_left + other.width as i64;
        let other_bottom: i64 = other_top + other.height as i64;
        !(other_left >= right || other_right <= left || other_top >= bottom || other_bottom <= top)
    }

    /// Paints the rectangle with the tile anchored at (`u`, `v`) of the atlas
    /// `img`, whose rows hold `w_img_buffer` texels. The tile is square, its
    /// side the rectangle's width. A rectangle that lies partly off the
    /// screen is painted where it is on it; one that lies wholly off it is
    /// not painted.
    pub fn draw(
        &self,
        buf: &mut Vec<u32>,
        width_screen: u32,
        w_img_buffer: u32,
        u: u32,
        v: u32,
        img: &Vec<Rgba>,
    )
        requires
            tile_fits(
                img@.len() as int,
                u as int,
                v as int,
                w_img_buffer as int,
                self.width as int,
            ),
        ensures
            final(buf)@ == blit(
                old(buf)@,
                width_screen as int,
                self.left(),
                self.top(),
                self.width as int,
                self.width as int,
                texture(
                    tile_of(img@, u as int, v as int, w_img_buffer as int, self.width as int),
                    self.width as int,
                ),
            ),
    {
        dessiner_img_at(
            buf,
            width_screen,
            to_pixel(self.x),
            to_pixel(self.y),
            w_img_buffer,
            self.width,
            u,
            v,
            img,
        );
    }
}

/// Cutting to the pixel keeps the side of the origin: the coordinate of the
/// edge of pixel `p` is cut to `p` whatever the sign of `p`, a coordinate and
/// its opposite are cut to opposite pixels, and a coordinate less than a
/// pixel away from the origin, on either side, is cut to pixel 0.
pub proof fn lemma_pixel_keeps_sign(p: int, v: int)
    ensures
        pixel(p * SUBPIXEL) == p,
        pixel(-v) == -pixel(v),
        v <= -SUBPIXEL ==> pixel(v) < 0,
        -SUBPIXEL < v < SUBPIXEL ==> pixel(v) == 0,
        v >= SUBPIXEL ==> pixel(v) > 0,
{
}

/// A rectangle that ends left of another, or above it, does not meet it,
/// on whichever side of the origin the two lie.
pub proof fn lemma_apart_is_no_overlap(a: ElementGraphique, b: ElementGraphique)
    requires
        a.right() <= b.left() || a.bottom() <= b.top(),
    ensures
        !a.overlaps(b),
        !b.overlaps(a),
{
}

/// Moving a rectangle adds its velocity to its position, component by
/// component and without rounding, as long as the sums are coordinates.
pub proof fn lemma_translate_exact(e: ElementGraphique)
    requires
        i64::MIN <= e.x + e.dx <= i64::MAX,
        i64::MIN <= e.y + e.dy <= i64::MAX,
    ensures
        e.translated().x == e.x + e.dx,
        e.translated().y == e.y + e.dy,
        e.translated().dx == e.dx,
        e.translated().dy == e.dy,
        e.translated().width == e.width,
        e.translated().height == e.height,
        e.translated().col == e.col,
{
}

/// Intersecting is mutual.
pub proof fn lemma_overlaps_symmetric(a: ElementGraphique, b: ElementGraphique)
    ensures
        a.overlaps(b) == b.overlaps(a),
{
}

/// Rectangles that meet along an edge, one ending where the other begins, do
/// not intersect.
pub proof fn lemma_edge_sharing_is_no_overlap(a: ElementGraphique, b: ElementGraphique)
    requires
        b.left() == a.right() || b.right() == a.left() || b.top() == a.bottom() || b.bottom()
            == a.top(),
    ensures
        !a.overlaps(b),
{
}

/// Two rectangles intersect exactly when they have a pixel in common, that
/// is, when their intersection has an area.
pub proof fn lemma_overlaps_iff_common_pixel(a: ElementGraphique, b: ElementGraphique)
    requires
        a.wf(),
        b.wf(),
    ensures
        a.overlaps(b) <==> exists|px: int, py: int| #[trigger] a.covers(px, py) && b.covers(px, py),
{
    if a.overlaps(b) {
        let px = if a.left() >= b.left() {
            a.left()
        } else {
            b.left()
        };
        let py = if a.top() >= b.top() {
            a.top()
        } else {
            b.top()
        };
        assert(a.covers(px, py) && b.covers(px, py));
    }
}

} // verus!
