//! Drawing the world on its screen.
//!
//! A frame is drawn from nothing: the screen is filled with the background,
//! then the ship, the missiles, the enemies and the marks for the lives are
//! painted over it in this order, so that what comes later covers what came
//! before. An actor is painted with the first tile of its texture; where the
//! texture does not hold a tile of the actor's width, the actor is filled
//! with its own colour instead. What lies off the screen, on any side, is
//! not painted: an enemy that comes in from above shows only the rows that
//! have reached the screen.

use vstd::prelude::*;
use crate::actors::Ennemi;
use crate::actors::Missile;
use crate::atlas::texture;
use crate::atlas::tile_fits;
use crate::atlas::tile_in_bounds;
use crate::atlas::tile_of;
use crate::atlas::Rgba;
use crate::entity::to_pixel;
use crate::entity::ElementGraphique;
use crate::game::Jeu;
use crate::game::JeuView;
use crate::raster::blit;
use crate::raster::draw_rect_at;
use crate::raster::solid;

verus! {

/// Colour of the empty screen.
pub const BACKGROUND: u32 = 0x1355c1;

/// Texels in a row of the ship's texture.
pub const SHIP_ATLAS_WIDTH: u32 = 126;

/// Texels in a row of the missiles' texture.
pub const MISSILE_ATLAS_WIDTH: u32 = 64;

/// Texels in a row of the enemies' texture.
pub const ENEMY_ATLAS_WIDTH: u32 = 200;

/// Colour of the mark that stands for one life.
pub const LIFE_COLOUR: u32 = 0xff0000;

/// Side of a life mark, in pixels.
pub const LIFE_SIZE: u32 = 30;

/// Column of the first life mark.
pub const LIFE_LEFT: u32 = 10;

/// Columns from one life mark to the next.
pub const LIFE_STEP: u32 = 60;

/// Rows from the top of the life marks down to the bottom of the screen.
pub const LIFE_RISE: u32 = 50;

/// The decoded textures of the three kinds of actor. An empty texture
/// stands for one that is not there.
#[derive(Clone, Debug)]
pub struct Textures {
    pub ship: Vec<Rgba>,
    pub missile: Vec<Rgba>,
    pub enemy: Vec<Rgba>,
}

/// A screen of `len` pixels with nothing on it.
pub open spec fn blank(len: nat) -> Seq<u32> {
    Seq::new(len, |k: int| BACKGROUND)
}

/// The buffer with one actor painted on it: with the first tile of `img`
/// where `img` holds it, else filled with the actor's colour.
pub open spec fn sprite(
    buf: Seq<u32>,
    stride: u32,
    body: ElementGraphique,
    img: Seq<Rgba>,
    w_total: u32,
) -> Seq<u32> {
    if tile_fits(img.len() as int, 0, 0, w_total as int, body.width as int) {
        blit(
            buf,
            stride as int,
            body.left(),
            body.top(),
            body.width as int,
            body.width as int,
            texture(tile_of(img, 0, 0, w_total as int, body.width as int), body.width as int),
        )
    } else {
        blit(
            buf,
            stride as int,
            body.left(),
            body.top(),
            body.width as int,
            body.height as int,
            solid(body.col),
        )
    }
}

/// The buffer with several actors painted on it, first to last.
pub open spec fn sprites(
    buf: Seq<u32>,
    stride: u32,
    bodies: Seq<ElementGraphique>,
    img: Seq<Rgba>,
    w_total: u32,
) -> Seq<u32>
    decreases bodies.len(),
{
    if bodies.len() == 0 {
        buf
    } else {
        sprite(sprites(buf, stride, bodies.drop_last(), img, w_total), stride, bodies.last(), img, w_total)
    }
}

/// The rectangles of the missiles.
pub open spec fn shot_bodies(shots: Seq<Missile>) -> Seq<ElementGraphique> {
    Seq::new(shots.len(), |i: int| shots[i].parent)
}

/// The rectangles of the enemies.
pub open spec fn enemy_bodies(enemies: Seq<Ennemi>) -> Seq<ElementGraphique> {
    Seq::new(enemies.len(), |i: int| enemies[i].parent)
}

/// The buffer with the mark of life number `i` on it, counted from 0. The
/// marks stand in a row near the bottom of a screen `height` pixels high;
/// on a screen too low for them their top is cut off.
pub open spec fn life_mark(buf: Seq<u32>, stride: u32, height: u32, i: int) -> Seq<u32> {
    blit(
        buf,
        stride as int,
        LIFE_LEFT + LIFE_STEP * i,
        height - LIFE_RISE,
        LIFE_SIZE as int,
        LIFE_SIZE as int,
        solid(LIFE_COLOUR),
    )
}

/// The buffer with one mark for each of `lives` lives. No life, or fewer,
/// leaves no mark.
pub open spec fn life_marks(buf: Seq<u32>, stride: u32, height: u32, lives: int) -> Seq<u32>
    decreases lives,
{
    if lives <= 0 {
        buf
    } else {
        life_mark(life_marks(buf, stride, height, lives - 1), stride, height, lives - 1)
    }
}

impl JeuView {
    /// The screen after a frame is drawn with the given textures.
    pub open spec fn drawn(self, ship: Seq<Rgba>, missile: Seq<Rgba>, enemy: Seq<Rgba>) -> Seq<u32> {
        let stride = self.width_screen;
        let with_ship = sprite(
            blank(self.buffer.len()),
            stride,
            self.player.parent,
            ship,
            SHIP_ATLAS_WIDTH,
        );
        let with_shots = sprites(
            with_ship,
            stride,
            shot_bodies(self.player.liste_tirs),
            missile,
            MISSILE_ATLAS_WIDTH,
        );
        let with_enemies = sprites(
            with_shots,
            stride,
            enemy_bodies(self.liste_ennemis),
            enemy,
            ENEMY_ATLAS_WIDTH,
        );
        life_marks(with_enemies, stride, self.height_screen, self.player.vies as int)
    }
}

/// Painting one actor more is one step after painting those before it.
proof fn lemma_sprites_next(
    buf: Seq<u32>,
    stride: u32,
    bodies: Seq<ElementGraphique>,
    img: Seq<Rgba>,
    w_total: u32,
    i: int,
)
    requires
        0 <= i < bodies.len(),
    ensures
        sprites(buf, stride, bodies.take(i + 1), img, w_total) == sprite(
            sprites(buf, stride, bodies.take(i), img, w_total),
            stride,
            bodies[i],
            img,
            w_total,
        ),
{
    assert(bodies.take(i + 1).drop_last() =~= bodies.take(i));
}

/// Fills the whole screen with the background.
pub fn clear_screen(buf: &mut Vec<u32>)
    ensures
        final(buf)@ == blank(old(buf)@.len()),
{
    let n: usize = buf.len();
    let mut i: usize = 0;
    while i < n
        invariant
            0 <= i <= n,
            buf@.len() == n,
            forall|k: int| 0 <= k < i ==> buf@[k] == BACKGROUND,
        decreases n - i,
    {
        buf.set(i, BACKGROUND);
        i = i + 1;
    }
}

/// Paints one actor: with the first tile of `img`, an atlas whose rows hold
/// `w_total` texels, where `img` holds that tile, else in the actor's colour.
pub fn paint(
    buf: &mut Vec<u32>,
    stride: u32,
    body: &ElementGraphique,
    img: &Vec<Rgba>,
    w_total: u32,
)
    ensures
        final(buf)@ == sprite(old(buf)@, stride, *body, img@, w_total),
{
    if tile_in_bounds(img.len(), 0, w_total, body.width, 0) {
        body.draw(buf, stride, w_total, 0, 0, img);
    } else {
        draw_rect_at(
            buf,
            to_pixel(body.x),
            to_pixel(body.y),
            stride,
            body.width,
            body.height,
            body.col,
        );
    }
}

/// Paints the mark of life number `i`, counted from 0.
fn paint_life(buf: &mut Vec<u32>, stride: u32, height: u32, i: u32)
    ensures
        final(buf)@ == life_mark(old(buf)@, stride, height, i as int),
{
    assert(LIFE_STEP * i <= 60 * 0xffff_ffff);
    let column: i64 = LIFE_LEFT as i64 + LIFE_STEP as i64 * i as i64;
    let row: i64 = height as i64 - LIFE_RISE as i64;
    draw_rect_at(buf, column, row, stride, LIFE_SIZE, LIFE_SIZE, LIFE_COLOUR);
}

impl Jeu {
    /// Draws the frame: the background, the ship, the missiles, the enemies,
    /// and one mark for each life that is left. Nothing but the screen
    /// changes.
    pub fn draw(&mut self, textures: &Textures)
        ensures
            final(self)@ == (JeuView {
                buffer: old(self)@.drawn(textures.ship@, textures.missile@, textures.enemy@),
                ..old(self)@
            }),
    {
        let stride: u32 = self.width_screen;
        clear_screen(&mut self.buffer);
        paint(&mut self.buffer, stride, &self.player.parent, &textures.ship, SHIP_ATLAS_WIDTH);
        let ghost with_ship = self.buffer@;
        let ghost shots = shot_bodies(self.player.liste_tirs@);
        let n: usize = self.player.liste_tirs.len();
        let mut i: usize = 0;
        while i < n
            invariant
                0 <= i <= n,
                n == self.player.liste_tirs@.len(),
                stride == self.width_screen,
                shots == shot_bodies(self.player.liste_tirs@),
                self.buffer@ == sprites(
                    with_ship,
                    stride,
                    shots.take(i as int),
                    textures.missile@,
                    MISSILE_ATLAS_WIDTH,
                ),
                self.width_screen == old(self).width_screen,
                self.height_screen == old(self).height_screen,
                self.fps == old(self).fps,
                self.frame_count == old(self).frame_count,
                self.player@ == old(self).player@,
                self.liste_ennemis@ == old(self).liste_ennemis@,
            decreases n - i,
        {
            proof {
                lemma_sprites_next(
                    with_ship,
                    stride,
                    shots,
                    textures.missile@,
                    MISSILE_ATLAS_WIDTH,
                    i as int,
                );
            }
            let body: ElementGraphique = self.player.liste_tirs[i].parent;
            paint(&mut self.buffer, stride, &body, &textures.missile, MISSILE_ATLAS_WIDTH);
            i = i + 1;
        }
        assert(shots.take(n as int) =~= shots);
        let ghost with_shots = self.buffer@;
        let ghost enemies = enemy_bodies(self.liste_ennemis@);
        let m: usize = self.liste_ennemis.len();
        let mut j: usize = 0;
        while j < m
            invariant
                0 <= j <= m,
                m == self.liste_ennemis@.len(),
                stride == self.width_screen,
                enemies == enemy_bodies(self.liste_ennemis@),
                self.buffer@ == sprites(
                    with_shots,
                    stride,
                    enemies.take(j as int),
                    textures.enemy@,
                    ENEMY_ATLAS_WIDTH,
                ),
                self.width_screen == old(self).width_screen,
                self.height_screen == old(self).height_screen,
                self.fps == old(self).fps,
                self.frame_count == old(self).frame_count,
                self.player@ == old(self).player@,
                self.liste_ennemis@ == old(self).liste_ennemis@,
            decreases m - j,
        {
            proof {
                lemma_sprites_next(
                    with_shots,
                    stride,
                    enemies,
                    textures.enemy@,
                    ENEMY_ATLAS_WIDTH,
                    j as int,
                );
            }
            let body: ElementGraphique = self.liste_ennemis[j].parent;
            paint(&mut self.buffer, stride, &body, &textures.enemy, ENEMY_ATLAS_WIDTH);
            j = j + 1;
        }
        assert(enemies.take(m as int) =~= enemies);
        let ghost with_enemies = self.buffer@;
        let lives: i32 = self.player.vies;
        let height: u32 = self.height_screen;
        let mut life: i32 = 0;
        while life < lives
            invariant
                0 <= life,
                life == 0 || life <= lives,
                lives == self.player.vies,
                height == self.height_screen,
                stride == self.width_screen,
                self.buffer@ == life_marks(with_enemies, stride, height, life as int),
                self.width_screen == old(self).width_screen,
                self.height_screen == old(self).height_screen,
                self.fps == old(self).fps,
                self.frame_count == old(self).frame_count,
                self.player@ == old(self).player@,
                self.liste_ennemis@ == old(self).liste_ennemis@,
            decreases lives - life,
        {
            paint_life(&mut self.buffer, stride, height, life as u32);
            life = life + 1;
        }
    }
}

} // verus!
