//! A small arcade shooter, verified.
//!
//! A ship moves along the bottom of the screen and fires missiles upwards at
//! the enemies that come down on it. The crate holds the rules of that game
//! and the painting of its frames; the window, the keyboard and the files
//! belong to the program that uses it.
//!
//! - [`raster`]: rectangles written into a pixel buffer, with clipping
//! - [`atlas`]: textures decoded from PNG, and tiles cut out of them
//! - [`entity`]: the moving rectangle that every actor is made of
//! - [`actors`]: the ship, the missiles and the enemies
//! - [`collision`]: who is removed when actors meet, and what it costs
//! - [`game`]: the world and its tick
//! - [`render`]: the world drawn on its screen
//! - [`frame`]: one turn of the loop that runs the game
//!
//! Positions and velocities are fixed-point integers, [`entity::SUBPIXEL`]
//! units to the pixel; they are cut down to whole pixels only when a
//! rectangle is compared or drawn.

pub mod actors;
pub mod atlas;
pub mod collision;
pub mod entity;
pub mod frame;
pub mod game;
pub mod raster;
pub mod render;
