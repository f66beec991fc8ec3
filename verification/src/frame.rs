//! One turn of the game's loop.
//!
//! The loop itself belongs to whoever owns the window: it asks the window
//! how things stand, hands that to [`Jeu::run`], and does what `run` answers.
//! As long as the window is open and the player has not asked to leave, a
//! turn is one tick followed by one frame drawn.

use vstd::prelude::*;
use crate::game::Intent;
use crate::game::Jeu;
use crate::game::JeuView;
use crate::game::in_band;
use crate::render::Textures;

verus! {

/// What the window reports at the start of a turn.
#[derive(Clone, Copy, Debug, PartialEq, Eq, Structural)]
pub struct Event {
    /// The window is still open.
    pub open: bool,
    /// The player asks to leave.
    pub escape: bool,
    /// What the player asks of the ship.
    pub intent: Intent,
}

/// What is to be done once a turn is over.
#[derive(Clone, Copy, Debug, PartialEq, Eq, Structural)]
pub enum Action {
    /// Show the screen in the window and come back for the next turn.
    Show,
    /// Leave the loop.
    Stop,
}

impl Event {
    /// Whether the game goes on: the window is open and the player stays.
    pub open spec fn goes_on(self) -> bool {
        self.open && !self.escape
    }
}

impl Jeu {
    /// One turn of the loop. Where the game goes on, the world is stepped by
    /// one tick and the frame is drawn, and the answer is to show it. Where
    /// it does not, nothing changes and the answer is to stop.
    pub fn run(&mut self, event: Event, rng: &mut rand::rngs::StdRng, textures: &Textures) -> (action:
        Action)
        ensures
            !event.goes_on() ==> action == Action::Stop && final(self)@ == old(self)@,
            event.goes_on() ==> action == Action::Show && exists|x: u32|
                in_band(x, old(self).width_screen) && final(self)@ == (JeuView {
                    buffer: (#[trigger] old(self)@.ticked(event.intent, x)).drawn(
                        textures.ship@,
                        textures.missile@,
                        textures.enemy@,
                    ),
                    ..old(self)@.ticked(event.intent, x)
                }),
    {
        if event.open && !event.escape {
            self.update(event.intent, rng);
            self.draw(textures);
            Action::Show
        } else {
            Action::Stop
        }
    }
}

} // verus!
