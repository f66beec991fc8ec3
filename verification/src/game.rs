//! The world: the ship, the enemies, the frame counter and the screen.
//!
//! One tick counts the frame, lets an enemy in when one is due, applies the
//! player's intent to the ship, moves every missile and every enemy, resolves
//! the collisions between the positions so reached, and last removes what has
//! left the screen. The order matters and is fixed here.

use vstd::prelude::*;
use rand::Rng;
use crate::actors::Ennemi;
use crate::actors::Missile;
use crate::actors::Vaisseau;
use crate::actors::VaisseauView;
use crate::collision::after_ramming;
use crate::collision::after_shots;
use crate::collision::lemma_after_ramming_settled;
use crate::collision::lemma_after_shots_settled;
use crate::collision::lemma_one_missile_one_enemy;
use crate::collision::untouched;
use crate::collision::lemma_filter_next;
use crate::collision::lemma_filter_none;
use crate::collision::lives_after;
use crate::collision::ram;
use crate::collision::shoot;
use crate::collision::take_lives;
use crate::entity::from_extent;
use crate::entity::ElementGraphique;
use crate::entity::SUBPIXEL;

verus! {

/// Ticks between two enemies.
pub const SPAWN_CADENCE: u32 = 50;

/// Leftmost column, in pixels, at which an enemy comes in where the screen
/// has room for it.
pub const SPAWN_MIN: u32 = 50;

/// Rightmost column, in pixels, at which an enemy comes in on any screen.
pub const SPAWN_MAX: u32 = 750;

/// Where an enemy comes in: a little above the top of the screen.
pub const SPAWN_HEIGHT: i64 = -20 * SUBPIXEL;

/// What an enemy falls in one tick.
pub const ENEMY_SPEED: i64 = 2 * SUBPIXEL;

/// Side of an enemy, in pixels.
pub const ENEMY_SIZE: u32 = 128;

/// Colour of an enemy.
pub const ENEMY_COLOUR: u32 = 0xffa5b6;

/// What the ship moves in one tick while the player steers.
pub const SHIP_SPEED: i64 = 5 * SUBPIXEL;

/// How far below the bottom of the screen, in pixels, an enemy may fall
/// before it is removed.
pub const FLOOR_MARGIN: u32 = 20;

/// What the player asks for during one tick. `fire_edge` is true only on the
/// tick in which the trigger was pressed, not while it is held.
#[derive(Clone, Copy, Debug, PartialEq, Eq, Structural)]
pub struct Intent {
    pub move_left: bool,
    pub move_right: bool,
    pub fire_edge: bool,
}

/// The random generator of the `rand` crate. The game hands it on to
/// `gen_range` and knows nothing of its state.
#[verifier::external_type_specification]
#[verifier::external_body]
pub struct ExStdRng(rand::rngs::StdRng);

/// Draws a number from `rng` with `rand::Rng::gen_range` over the inclusive
/// range from `lo` to `hi`. The number lies in the range; which one it is
/// depends on the state of the generator, of which nothing is said. An empty
/// range makes `gen_range` panic, so it is not admitted.
#[verifier::external_body]
fn draw_between(rng: &mut rand::rngs::StdRng, lo: u32, hi: u32) -> (x: u32)
    requires
        lo <= hi,
    ensures
        lo <= x <= hi,
{
    rng.gen_range(lo..=hi)
}

/// The whole game.
#[derive(Clone, Debug)]
pub struct Jeu {
    pub width_screen: u32,
    pub height_screen: u32,
    pub buffer: Vec<u32>,
    pub fps: usize,
    pub frame_count: u32,
    pub player: Vaisseau,
    pub liste_ennemis: Vec<Ennemi>,
}

/// The game as a value: the screen as the sequence of its pixels, row after
/// row, and the enemies as a sequence, oldest first.
#[verifier::ext_equal]
pub struct JeuView {
    pub width_screen: u32,
    pub height_screen: u32,
    pub buffer: Seq<u32>,
    pub fps: usize,
    pub frame_count: u32,
    pub player: VaisseauView,
    pub liste_ennemis: Seq<Ennemi>,
}

impl View for Jeu {
    type V = JeuView;

    open spec fn view(&self) -> JeuView {
        JeuView {
            width_screen: self.width_screen,
            height_screen: self.height_screen,
            buffer: self.buffer@,
            fps: self.fps,
            frame_count: self.frame_count,
            player: self.player@,
            liste_ennemis: self.liste_ennemis@,
        }
    }
}

/// The rightmost column at which an enemy comes in on a screen `width`
/// pixels wide: far enough from the right edge for the whole enemy to be on
/// the screen, and never past [`SPAWN_MAX`]. On a screen narrower than an
/// enemy it is column 0.
pub open spec fn band_max(width: u32) -> u32 {
    if width < ENEMY_SIZE {
        0
    } else if width - ENEMY_SIZE > SPAWN_MAX {
        SPAWN_MAX
    } else {
        (width - ENEMY_SIZE) as u32
    }
}

/// The leftmost column at which an enemy comes in on a screen `width` pixels
/// wide: [`SPAWN_MIN`], or the rightmost column where that lies left of it.
pub open spec fn band_min(width: u32) -> u32 {
    if band_max(width) < SPAWN_MIN {
        band_max(width)
    } else {
        SPAWN_MIN
    }
}

/// Whether an enemy may come in at column `x` on a screen `width` pixels
/// wide.
pub open spec fn in_band(x: u32, width: u32) -> bool {
    band_min(width) <= x <= band_max(width)
}

/// The enemy that comes in at column `x`.
pub open spec fn spawn(x: u32) -> Ennemi {
    Ennemi {
        parent: ElementGraphique {
            x: (x * SUBPIXEL) as i64,
            y: SPAWN_HEIGHT,
            dx: 0,
            dy: ENEMY_SPEED,
            width: ENEMY_SIZE,
            height: ENEMY_SIZE,
            col: ENEMY_COLOUR,
        },
    }
}

/// The frame count after one more frame. It starts again from 0 at the end
/// of its range.
pub open spec fn next_frame(frame_count: u32) -> u32 {
    if frame_count == u32::MAX {
        0
    } else {
        (frame_count + 1) as u32
    }
}

/// The horizontal speed that an intent gives the ship. Left wins over right.
pub open spec fn steer(intent: Intent) -> i64 {
    if intent.move_left {
        (-SHIP_SPEED) as i64
    } else if intent.move_right {
        SHIP_SPEED
    } else {
        0
    }
}

/// Every missile moved by its velocity.
pub open spec fn moved_shots(shots: Seq<Missile>) -> Seq<Missile> {
    Seq::new(shots.len(), |i: int| Missile { parent: shots[i].parent.translated() })
}

/// Every enemy moved by its velocity.
pub open spec fn moved_enemies(enemies: Seq<Ennemi>) -> Seq<Ennemi> {
    Seq::new(enemies.len(), |i: int| Ennemi { parent: enemies[i].parent.translated() })
}

/// The missiles that have not reached the top of the screen.
pub open spec fn in_flight() -> spec_fn(Missile) -> bool {
    |m: Missile| m.parent.y > 0
}

/// The enemies that have not fallen below `limit`.
pub open spec fn in_play(limit: int) -> spec_fn(Ennemi) -> bool {
    |e: Ennemi| e.parent.y <= limit
}

/// The floor of a screen `height` pixels high: an enemy whose top edge is
/// exactly there has landed.
pub open spec fn floor_of(height: u32) -> int {
    height * SUBPIXEL
}

/// How low an enemy may be and stay in the game: the floor and a margin.
pub open spec fn exit_of(height: u32) -> int {
    (height + FLOOR_MARGIN) * SUBPIXEL
}

/// Whether an enemy comes in on the frame with this count.
pub open spec fn spawn_due(frame_count: u32) -> bool {
    frame_count % SPAWN_CADENCE == 0
}

impl JeuView {
    /// The game with one more enemy, come in at column `x`.
    pub open spec fn spawned(self, x: u32) -> JeuView {
        JeuView { liste_ennemis: self.liste_ennemis.push(spawn(x)), ..self }
    }

    /// The game after the player's intent is applied: the ship takes the
    /// speed asked for, fires from where it stands if asked to, then moves.
    pub open spec fn steered(self, intent: Intent) -> JeuView {
        let turned = VaisseauView {
            parent: ElementGraphique { dx: steer(intent), ..self.player.parent },
            ..self.player
        };
        let armed = if intent.fire_edge {
            turned.fired()
        } else {
            turned
        };
        JeuView { player: armed.updated(self.width_screen), ..self }
    }

    /// The game after every missile and every enemy has moved.
    pub open spec fn moved(self) -> JeuView {
        JeuView {
            player: VaisseauView {
                liste_tirs: moved_shots(self.player.liste_tirs),
                ..self.player
            },
            liste_ennemis: moved_enemies(self.liste_ennemis),
            ..self
        }
    }

    /// The game after the collisions are resolved: first the enemies that
    /// touch the ship, then the others against the floor and the missiles.
    pub open spec fn resolved(self) -> JeuView {
        let clear = after_ramming(self.liste_ennemis, self.player.parent);
        let rammed = (self.liste_ennemis.len() - clear.len()) as nat;
        let out = after_shots(clear, self.player.liste_tirs, floor_of(self.height_screen));
        JeuView {
            player: VaisseauView {
                liste_tirs: out.shots,
                vies: lives_after(self.player.vies, rammed + out.lost),
                ..self.player
            },
            liste_ennemis: out.enemies,
            ..self
        }
    }

    /// The game without what has left the screen: the missiles that have
    /// reached the top, the enemies that have fallen past the floor and its
    /// margin.
    pub open spec fn pruned(self) -> JeuView {
        JeuView {
            player: VaisseauView {
                liste_tirs: self.player.liste_tirs.filter(in_flight()),
                ..self.player
            },
            liste_ennemis: self.liste_ennemis.filter(in_play(exit_of(self.height_screen))),
            ..self
        }
    }

    /// The game one tick later, where `x` is the column for the enemy that
    /// comes in if one is due.
    pub open spec fn ticked(self, intent: Intent, x: u32) -> JeuView {
        let counted = JeuView { frame_count: next_frame(self.frame_count), ..self };
        let stocked = if spawn_due(counted.frame_count) {
            counted.spawned(x)
        } else {
            counted
        };
        stocked.steered(intent).moved().resolved().pruned()
    }
}

/// Moves every missile by its velocity.
fn move_shots(shots: &mut Vec<Missile>)
    ensures
        final(shots)@ == moved_shots(old(shots)@),
{
    let ghost start = shots@;
    let n: usize = shots.len();
    let mut i: usize = 0;
    while i < n
        invariant
            0 <= i <= n,
            n == start.len(),
            shots@.len() == n,
            forall|k: int| 0 <= k < i ==> shots@[k] == moved_shots(start)[k],
            forall|k: int| i <= k < n ==> shots@[k] == start[k],
        decreases n - i,
    {
        let mut body: ElementGraphique = shots[i].parent;
        body.update();
        shots.set(i, Missile { parent: body });
        i = i + 1;
    }
}

/// Moves every enemy by its velocity.
fn move_enemies(enemies: &mut Vec<Ennemi>)
    ensures
        final(enemies)@ == moved_enemies(old(enemies)@),
{
    let ghost start = enemies@;
    let n: usize = enemies.len();
    let mut i: usize = 0;
    while i < n
        invariant
            0 <= i <= n,
            n == start.len(),
            enemies@.len() == n,
            forall|k: int| 0 <= k < i ==> enemies@[k] == moved_enemies(start)[k],
            forall|k: int| i <= k < n ==> enemies@[k] == start[k],
        decreases n - i,
    {
        let mut body: ElementGraphique = enemies[i].parent;
        body.update();
        enemies.set(i, Ennemi { parent: body });
        i = i + 1;
    }
}

/// The missiles that have not reached the top of the screen, in their order.
fn keep_in_flight(shots: &Vec<Missile>) -> (kept: Vec<Missile>)
    ensures
        kept@ == shots@.filter(in_flight()),
{
    let n: usize = shots.len();
    let mut kept: Vec<Missile> = Vec::new();
    let mut i: usize = 0;
    proof {
        lemma_filter_none(shots@, in_flight());
    }
    while i < n
        invariant
            n == shots@.len(),
            0 <= i <= n,
            kept@ == shots@.take(i as int).filter(in_flight()),
        decreases n - i,
    {
        proof {
            lemma_filter_next(shots@, in_flight(), i as int);
        }
        let m: Missile = shots[i];
        if m.parent.y > 0 {
            kept.push(m);
        }
        i = i + 1;
    }
    assert(shots@.take(n as int) =~= shots@);
    kept
}

/// The enemies that have not fallen below `limit`, in their order.
fn keep_in_play(enemies: &Vec<Ennemi>, limit: i64) -> (kept: Vec<Ennemi>)
    ensures
        kept@ == enemies@.filter(in_play(limit as int)),
{
    let n: usize = enemies.len();
    let mut kept: Vec<Ennemi> = Vec::new();
    let mut i: usize = 0;
    proof {
        lemma_filter_none(enemies@, in_play(limit as int));
    }
    while i < n
        invariant
            n == enemies@.len(),
            0 <= i <= n,
            kept@ == enemies@.take(i as int).filter(in_play(limit as int)),
        decreases n - i,
    {
        proof {
            lemma_filter_next(enemies@, in_play(limit as int), i as int);
        }
        let e: Ennemi = enemies[i];
        if e.parent.y <= limit {
            kept.push(e);
        }
        i = i + 1;
    }
    assert(enemies@.take(n as int) =~= enemies@);
    kept
}

impl Jeu {
    /// A game on a screen of `width` by `height` pixels that is meant to run
    /// at `fps` ticks a second, with `player` as its ship, no enemy yet and a
    /// black screen.
    pub fn new(width: u32, height: u32, fps: usize, player: Vaisseau) -> (jeu: Jeu)
        requires
            width * height <= usize::MAX,
        ensures
            jeu@ == (JeuView {
                width_screen: width,
                height_screen: height,
                buffer: Seq::new((width * height) as nat, |i: int| 0u32),
                fps,
                frame_count: 0,
                player: player@,
                liste_ennemis: Seq::empty(),
            }),
    {
        let size: usize = width as usize * height as usize;
        let buffer: Vec<u32> = vec![0u32; size];
        Jeu {
            width_screen: width,
            height_screen: height,
            buffer,
            fps,
            frame_count: 0,
            player,
            liste_ennemis: Vec::new(),
        }
    }

    /// The columns between which an enemy comes in on this screen, the first
    /// and the last.
    pub fn spawn_band(&self) -> (band: (u32, u32))
        ensures
            band.0 == band_min(self.width_screen),
            band.1 == band_max(self.width_screen),
            band.0 <= band.1,
    {
        let last: u32 = if self.width_screen < ENEMY_SIZE {
            0
        } else if self.width_screen - ENEMY_SIZE > SPAWN_MAX {
            SPAWN_MAX
        } else {
            self.width_screen - ENEMY_SIZE
        };
        let first: u32 = if last < SPAWN_MIN {
            last
        } else {
            SPAWN_MIN
        };
        (first, last)
    }

    /// Lets an enemy in at column `x` of the band, above the screen,
    /// falling.
    pub fn spawn_ennemy_at(&mut self, x: u32)
        requires
            in_band(x, old(self).width_screen),
        ensures
            final(self)@ == old(self)@.spawned(x),
    {
        let enemy = Ennemi::new(
            x as i64 * SUBPIXEL,
            SPAWN_HEIGHT,
            0,
            ENEMY_SPEED,
            ENEMY_SIZE,
            ENEMY_SIZE,
            ENEMY_COLOUR,
        );
        self.liste_ennemis.push(enemy);
    }

    /// Lets an enemy in at a column that `rng` picks in the band of this
    /// screen. Where the screen is as wide as an enemy or wider, the whole
    /// enemy is between its left and its right edge; on a narrower screen
    /// the enemy comes in at column 0.
    pub fn spawn_ennemy(&mut self, rng: &mut rand::rngs::StdRng)
        ensures
            exists|x: u32|
                {
                    &&& in_band(x, old(self).width_screen)
                    &&& old(self).width_screen >= ENEMY_SIZE ==> x + ENEMY_SIZE <= old(
                        self,
                    ).width_screen
                    &&& old(self).width_screen < ENEMY_SIZE ==> x == 0
                    &&& final(self)@ == #[trigger] old(self)@.spawned(x)
                },
            final(self).liste_ennemis@.len() == old(self).liste_ennemis@.len() + 1,
            0 <= final(self).liste_ennemis@.last().parent.left(),
            old(self).width_screen >= ENEMY_SIZE ==> final(self).liste_ennemis@.last().parent.right()
                <= old(self).width_screen,
    {
        let (first, last) = self.spawn_band();
        let x: u32 = draw_between(rng, first, last);
        proof {
            lemma_spawn_on_screen(x, self.width_screen);
        }
        self.spawn_ennemy_at(x);
    }

    /// Applies the player's intent: sets the ship's speed, fires if asked to,
    /// and moves the ship.
    pub fn input(&mut self, intent: Intent)
        ensures
            final(self)@ == old(self)@.steered(intent),
    {
        self.player.parent.dx = 0;
        if intent.move_left {
            self.player.parent.dx = -SHIP_SPEED;
        } else if intent.move_right {
            self.player.parent.dx = SHIP_SPEED;
        }
        if intent.fire_edge {
            self.player.tirer();
        }
        self.player.update(self.width_screen);
    }

    /// Moves every missile and every enemy by its velocity.
    pub fn advance(&mut self)
        ensures
            final(self)@ == old(self)@.moved(),
    {
        move_shots(&mut self.player.liste_tirs);
        move_enemies(&mut self.liste_ennemis);
    }

    /// Resolves the collisions of this tick: removes the enemies and the
    /// missiles that they cost, and takes the lives.
    pub fn check_collisions(&mut self)
        ensures
            final(self)@ == old(self)@.resolved(),
            final(self).liste_ennemis@.len() <= old(self).liste_ennemis@.len(),
            final(self).player.liste_tirs@.len() <= old(self).player.liste_tirs@.len(),
            old(self).player.liste_tirs@.len() - final(self).player.liste_tirs@.len() <= old(
                self,
            ).liste_ennemis@.len() - final(self).liste_ennemis@.len(),
    {
        proof {
            lemma_resolved_accounts(self@);
        }
        let ship: ElementGraphique = self.player.parent;
        let total: usize = self.liste_ennemis.len();
        let (clear, rammed) = ram(&self.liste_ennemis, &ship);
        let floor: i64 = from_extent(self.height_screen);
        let (kept, fallen) = shoot(&clear, &mut self.player.liste_tirs, floor);
        assert(rammed + fallen <= total);
        self.liste_ennemis = kept;
        self.player.vies = take_lives(self.player.vies, rammed + fallen);
    }

    /// Removes the missiles that have reached the top of the screen and the
    /// enemies that have fallen past the floor and its margin.
    pub fn prune(&mut self)
        ensures
            final(self)@ == old(self)@.pruned(),
    {
        let limit: i64 = (self.height_screen as i64 + FLOOR_MARGIN as i64) * SUBPIXEL;
        self.player.liste_tirs = keep_in_flight(&self.player.liste_tirs);
        self.liste_ennemis = keep_in_play(&self.liste_ennemis, limit);
    }

    /// Whether an enemy comes in on the frame that follows.
    pub fn spawn_is_due(&self) -> (due: bool)
        ensures
            due == spawn_due(next_frame(self.frame_count)),
    {
        let next: u32 = if self.frame_count == u32::MAX {
            0
        } else {
            self.frame_count + 1
        };
        next % SPAWN_CADENCE == 0
    }

    /// One tick, with `x` as the column for the enemy that comes in if one
    /// is due on this frame. On such a frame `x` is a column of the band.
    pub fn tick(&mut self, intent: Intent, x: u32)
        requires
            spawn_due(next_frame(old(self).frame_count)) ==> in_band(x, old(self).width_screen),
        ensures
            final(self)@ == old(self)@.ticked(intent, x),
            forall|i: int|
                0 <= i < final(self).liste_ennemis@.len() ==> (
                #[trigger] final(self).liste_ennemis@[i]).parent.y <= exit_of(
                    old(self).height_screen,
                ),
    {
        proof {
            lemma_tick_in_bounds(self@, intent, x);
        }
        self.frame_count = if self.frame_count == u32::MAX {
            0
        } else {
            self.frame_count + 1
        };
        if self.frame_count % SPAWN_CADENCE == 0 {
            self.spawn_ennemy_at(x);
        }
        self.input(intent);
        self.advance();
        self.check_collisions();
        self.prune();
    }

    /// One tick. Where an enemy is due, `rng` picks its column in the band
    /// of this screen; on the other frames `rng` is left alone. Where the
    /// screen is as wide as an enemy or wider, an enemy that comes in is
    /// wholly between the left and the right edge of the screen; on a
    /// narrower screen it comes in at column 0.
    pub fn update(&mut self, intent: Intent, rng: &mut rand::rngs::StdRng)
        ensures
            exists|x: u32|
                {
                    &&& in_band(x, old(self).width_screen)
                    &&& old(self).width_screen >= ENEMY_SIZE ==> x + ENEMY_SIZE <= old(
                        self,
                    ).width_screen
                    &&& old(self).width_screen < ENEMY_SIZE ==> x == 0
                    &&& final(self)@ == #[trigger] old(self)@.ticked(intent, x)
                },
            forall|i: int|
                0 <= i < final(self).liste_ennemis@.len() ==> (
                #[trigger] final(self).liste_ennemis@[i]).parent.y <= exit_of(
                    old(self).height_screen,
                ),
    {
        let (first, last) = self.spawn_band();
        let x: u32 = if self.spawn_is_due() {
            draw_between(rng, first, last)
        } else {
            first
        };
        self.tick(intent, x);
    }
}

/// An enemy that comes in at a column of the band is on the screen from its
/// left edge to its right edge, wherever the screen is as wide as an enemy
/// or wider. On a screen with room for it the band starts [`SPAWN_MIN`]
/// columns from the left edge; it never goes past [`SPAWN_MAX`]; and it is
/// never empty.
pub proof fn lemma_spawn_on_screen(x: u32, width: u32)
    requires
        in_band(x, width),
    ensures
        band_min(width) <= band_max(width) <= SPAWN_MAX,
        spawn(x).parent.left() == x,
        spawn(x).parent.right() == x + ENEMY_SIZE,
        width >= ENEMY_SIZE ==> 0 <= spawn(x).parent.left() && spawn(x).parent.right() <= width,
        width >= SPAWN_MIN + ENEMY_SIZE ==> band_min(width) == SPAWN_MIN,
        width < ENEMY_SIZE ==> x == 0,
{
}

/// After the pruning nothing is left outside the screen: every missile is
/// below the top edge, and every enemy at most a margin below the floor.
pub proof fn lemma_pruned_in_bounds(w: JeuView)
    ensures
        w.pruned().player.liste_tirs.len() <= w.player.liste_tirs.len(),
        w.pruned().liste_ennemis.len() <= w.liste_ennemis.len(),
        forall|i: int|
            0 <= i < w.pruned().player.liste_tirs.len() ==> (
            #[trigger] w.pruned().player.liste_tirs[i]).parent.y > 0,
        forall|i: int|
            0 <= i < w.pruned().liste_ennemis.len() ==> (
            #[trigger] w.pruned().liste_ennemis[i]).parent.y <= exit_of(w.height_screen),
{
    let shots = w.player.liste_tirs;
    let enemies = w.liste_ennemis;
    let limit = exit_of(w.height_screen);
    shots.lemma_filter_len(in_flight());
    enemies.lemma_filter_len(in_play(limit));
    assert forall|i: int| 0 <= i < w.pruned().player.liste_tirs.len() implies (
    #[trigger] w.pruned().player.liste_tirs[i]).parent.y > 0 by {
        shots.lemma_filter_pred(in_flight(), i);
    }
    assert forall|i: int| 0 <= i < w.pruned().liste_ennemis.len() implies (
    #[trigger] w.pruned().liste_ennemis[i]).parent.y <= limit by {
        enemies.lemma_filter_pred(in_play(limit), i);
    }
}

/// An enemy that has fallen past the floor and its margin does not live to
/// the next tick: whatever the game was, whatever the player asked for and
/// wherever an enemy came in, after a tick every enemy is at most a margin
/// below the floor, and every missile below the top edge. The tick changes
/// neither the screen nor its size, and counts one frame.
pub proof fn lemma_tick_in_bounds(w: JeuView, intent: Intent, x: u32)
    ensures
        forall|i: int|
            0 <= i < w.ticked(intent, x).liste_ennemis.len() ==> (#[trigger] w.ticked(
                intent,
                x,
            ).liste_ennemis[i]).parent.y <= exit_of(w.height_screen),
        forall|i: int|
            0 <= i < w.ticked(intent, x).player.liste_tirs.len() ==> (#[trigger] w.ticked(
                intent,
                x,
            ).player.liste_tirs[i]).parent.y > 0,
        w.ticked(intent, x).frame_count == next_frame(w.frame_count),
        w.ticked(intent, x).width_screen == w.width_screen,
        w.ticked(intent, x).height_screen == w.height_screen,
        w.ticked(intent, x).buffer == w.buffer,
        w.ticked(intent, x).liste_ennemis.len() <= w.liste_ennemis.len() + 1,
        w.ticked(intent, x).player.liste_tirs.len() <= w.player.liste_tirs.len() + 1,
{
    let counted = JeuView { frame_count: next_frame(w.frame_count), ..w };
    let stocked = if spawn_due(counted.frame_count) {
        counted.spawned(x)
    } else {
        counted
    };
    let met = stocked.steered(intent).moved();
    lemma_resolved_accounts(met);
    lemma_pruned_in_bounds(met.resolved());
}

/// Every enemy that the resolution removes is paid for once: it cost a life,
/// by touching the ship or by landing, or it took one missile with it. So
/// the missiles spent are never more than the enemies removed, no missile
/// takes two enemies, and the lives taken are the enemies removed less the
/// missiles spent.
pub proof fn lemma_resolved_accounts(w: JeuView)
    ensures
        w.resolved().liste_ennemis.len() <= w.liste_ennemis.len(),
        w.resolved().player.liste_tirs.len() <= w.player.liste_tirs.len(),
        w.player.liste_tirs.len() - w.resolved().player.liste_tirs.len() <= w.liste_ennemis.len()
            - w.resolved().liste_ennemis.len(),
        w.resolved().player.vies == lives_after(
            w.player.vies,
            ((w.liste_ennemis.len() - w.resolved().liste_ennemis.len()) - (
            w.player.liste_tirs.len() - w.resolved().player.liste_tirs.len())) as nat,
        ),
{
    let clear = after_ramming(w.liste_ennemis, w.player.parent);
    lemma_after_ramming_settled(w.liste_ennemis, w.player.parent);
    lemma_one_missile_one_enemy(clear, w.player.liste_tirs, floor_of(w.height_screen));
}

/// Where every enemy touches the ship, the resolution removes them all, each
/// at the cost of one life, and spends no missile, whether or not a missile
/// touches one of them too.
pub proof fn lemma_contact_comes_first(w: JeuView)
    requires
        forall|i: int|
            0 <= i < w.liste_ennemis.len() ==> (#[trigger] w.liste_ennemis[i]).parent.overlaps(
                w.player.parent,
            ),
    ensures
        w.resolved().liste_ennemis.len() == 0,
        w.resolved().player.liste_tirs == w.player.liste_tirs,
        w.resolved().player.vies == lives_after(w.player.vies, w.liste_ennemis.len()),
{
    let clear = after_ramming(w.liste_ennemis, w.player.parent);
    lemma_after_ramming_settled(w.liste_ennemis, w.player.parent);
    if clear.len() > 0 {
        let e = clear[0];
        assert(w.liste_ennemis.contains(e));
        let at = choose|at: int| 0 <= at < w.liste_ennemis.len() && w.liste_ennemis[at] == e;
        assert(w.liste_ennemis[at].parent.overlaps(w.player.parent));
    }
}

/// The resolution leaves no collision behind: an enemy that is left does not
/// touch the ship, has not landed, and touches no missile that is left.
pub proof fn lemma_resolved_settled(w: JeuView)
    ensures
        forall|i: int|
            0 <= i < w.resolved().liste_ennemis.len() ==> {
                let e = #[trigger] w.resolved().liste_ennemis[i];
                &&& !e.parent.overlaps(w.player.parent)
                &&& e.parent.y != floor_of(w.height_screen)
                &&& untouched(w.resolved().player.liste_tirs, e.parent)
            },
{
    let clear = after_ramming(w.liste_ennemis, w.player.parent);
    let floor = floor_of(w.height_screen);
    lemma_after_ramming_settled(w.liste_ennemis, w.player.parent);
    lemma_after_shots_settled(clear, w.player.liste_tirs, floor);
    assert forall|i: int| 0 <= i < w.resolved().liste_ennemis.len() implies {
        let e = #[trigger] w.resolved().liste_ennemis[i];
        &&& !e.parent.overlaps(w.player.parent)
        &&& e.parent.y != floor
        &&& untouched(w.resolved().player.liste_tirs, e.parent)
    } by {
        let e = w.resolved().liste_ennemis[i];
        assert(clear.contains(e));
        let at = choose|at: int| 0 <= at < clear.len() && clear[at] == e;
        assert(!clear[at].parent.overlaps(w.player.parent));
    }
}

} // verus!
