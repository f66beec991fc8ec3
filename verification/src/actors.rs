//! The three actors: the player's ship, its missiles, and the enemies.
//!
//! Each is a rectangle with a role. An actor never changes the world around
//! it: lives are taken and actors removed by the world alone.

use vstd::prelude::*;
use crate::entity::from_extent;
use crate::entity::sat_add;
use crate::entity::saturated;
use crate::entity::ElementGraphique;
use crate::entity::SUBPIXEL;

verus! {

/// Lives that a ship starts with.
pub const LIVES: i32 = 8;

/// What a missile climbs in one tick.
pub const MISSILE_SPEED: i64 = 5 * SUBPIXEL;

/// Side of a missile, in pixels.
pub const MISSILE_SIZE: u32 = 64;

/// Colour of a missile.
pub const MISSILE_COLOUR: u32 = 0xfff000;

/// How far above the ship's top edge a missile appears.
pub const MUZZLE_GAP: i64 = 5 * SUBPIXEL;

/// A shot fired by the ship.
#[derive(Clone, Copy, Debug, PartialEq, Eq, Structural)]
pub struct Missile {
    pub parent: ElementGraphique,
}

impl Missile {
    /// A missile at (`x`, `y`) with velocity (`dx`, `dy`).
    pub fn new(x: i64, y: i64, dx: i64, dy: i64, width: u32, height: u32, col: u32) -> (m:
        Missile)
        requires
            width > 0,
            height > 0,
        ensures
            m.parent == (ElementGraphique { x, y, dx, dy, width, height, col }),
            m.parent.wf(),
    {
        Missile { parent: ElementGraphique { x, y, dx, dy, width, height, col } }
    }
}

/// An enemy coming down the screen.
#[derive(Clone, Copy, Debug, PartialEq, Eq, Structural)]
pub struct Ennemi {
    pub parent: ElementGraphique,
}

impl Ennemi {
    /// An enemy at (`x`, `y`) with velocity (`dx`, `dy`).
    pub fn new(x: i64, y: i64, dx: i64, dy: i64, width: u32, height: u32, col: u32) -> (e:
        Ennemi)
        requires
            width > 0,
            height > 0,
        ensures
            e.parent == (ElementGraphique { x, y, dx, dy, width, height, col }),
            e.parent.wf(),
    {
        Ennemi { parent: ElementGraphique { x, y, dx, dy, width, height, col } }
    }
}

/// The player's ship: its rectangle, the missiles it has fired that are still
/// in flight, and the lives it has left.
#[derive(Clone, Debug)]
pub struct Vaisseau {
    pub parent: ElementGraphique,
    pub liste_tirs: Vec<Missile>,
    pub vies: i32,
    pub vivant: bool,
}

/// A ship as a value: the missiles as a sequence, oldest first.
#[verifier::ext_equal]
pub struct VaisseauView {
    pub parent: ElementGraphique,
    pub liste_tirs: Seq<Missile>,
    pub vies: i32,
    pub vivant: bool,
}

impl View for Vaisseau {
    type V = VaisseauView;

    open spec fn view(&self) -> VaisseauView {
        VaisseauView {
            parent: self.parent,
            liste_tirs: self.liste_tirs@,
            vies: self.vies,
            vivant: self.vivant,
        }
    }
}

/// The rectangle brought back on a screen `width_screen` pixels wide: one
/// that has left by the left edge comes back at the right edge, one that has
/// passed the right edge comes back at the left.
pub open spec fn wrapped(e: ElementGraphique, width_screen: u32) -> ElementGraphique {
    if e.x < 0 {
        ElementGraphique { x: (width_screen * SUBPIXEL) as i64, ..e }
    } else if e.x > width_screen * SUBPIXEL {
        ElementGraphique { x: 0, ..e }
    } else {
        e
    }
}

/// The missile that a ship fires: centred on the middle of the ship's width,
/// a gap above its top edge, going straight up.
pub open spec fn muzzle_shot(ship: ElementGraphique) -> Missile {
    Missile {
        parent: ElementGraphique {
            x: saturated(ship.x + ship.width * (SUBPIXEL / 2)) as i64,
            y: saturated(ship.y - MUZZLE_GAP) as i64,
            dx: 0,
            dy: (-MISSILE_SPEED) as i64,
            width: MISSILE_SIZE,
            height: MISSILE_SIZE,
            col: MISSILE_COLOUR,
        },
    }
}

impl VaisseauView {
    /// The ship one tick later: moved by its velocity, then wrapped.
    pub open spec fn updated(self, width_screen: u32) -> VaisseauView {
        VaisseauView { parent: wrapped(self.parent.translated(), width_screen), ..self }
    }

    /// The ship after firing: one more missile in flight, behind the others.
    pub open spec fn fired(self) -> VaisseauView {
        VaisseauView { liste_tirs: self.liste_tirs.push(muzzle_shot(self.parent)), ..self }
    }
}

impl Vaisseau {
    /// A ship at (`x`, `y`) with all its lives and no missile in flight.
    pub fn new(x: i64, y: i64, dx: i64, dy: i64, width: u32, height: u32, col: u32) -> (ship:
        Vaisseau)
        requires
            width > 0,
            height > 0,
        ensures
            ship@ == (VaisseauView {
                parent: ElementGraphique { x, y, dx, dy, width, height, col },
                liste_tirs: Seq::empty(),
                vies: LIVES,
                vivant: true,
            }),
            ship.parent.wf(),
    {
        Vaisseau {
            parent: ElementGraphique { x, y, dx, dy, width, height, col },
            liste_tirs: Vec::new(),
            vies: LIVES,
            vivant: true,
        }
    }

    /// Moves the ship by its velocity and wraps it horizontally: it is never
    /// held at an edge of the screen.
    pub fn update(&mut self, width_screen: u32)
        ensures
            final(self)@ == old(self)@.updated(width_screen),
    {
        self.parent.update();
        let edge: i64 = from_extent(width_screen);
        if self.parent.x < 0 {
            self.parent.x = edge;
        } else if self.parent.x > edge {
            self.parent.x = 0;
        }
    }

    /// Fires a missile, however many are already in flight.
    pub fn tirer(&mut self)
        ensures
            final(self)@ == old(self)@.fired(),
    {
        let half: i64 = self.parent.width as i64 * (SUBPIXEL / 2);
        let shot = Missile::new(
            sat_add(self.parent.x, half),
            sat_add(self.parent.y, -MUZZLE_GAP),
            0,
            -MISSILE_SPEED,
            MISSILE_SIZE,
            MISSILE_SIZE,
            MISSILE_COLOUR,
        );
        self.liste_tirs.push(shot);
    }
}

/// The ship is never held off the screen: after its move its left edge lies
/// between the left and the right edge of the screen, whatever its speed
/// was. Moving it changes neither its missiles nor its lives.
pub proof fn lemma_ship_stays_on_screen(ship: VaisseauView, width_screen: u32)
    ensures
        0 <= ship.updated(width_screen).parent.x <= width_screen * SUBPIXEL,
        ship.updated(width_screen).parent.y == ship.parent.translated().y,
        ship.updated(width_screen).liste_tirs == ship.liste_tirs,
        ship.updated(width_screen).vies == ship.vies,
        ship.updated(width_screen).vivant == ship.vivant,
{
}

} // verus!
