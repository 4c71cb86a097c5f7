//! Rules of an interactive birthday card: a cake that can be bitten, candles
//! that can be blown out, and a hidden coin-flip betting game that grows a
//! sugar-cane tower.
//!
//! The crate holds the decisions only. A host (a game engine) owns the
//! entities, the clock and the screen: it hands the functions here what it
//! found (the frame a sprite shows, the time that has passed, the buttons
//! that are pressed) and carries out the [`command::Command`]s they return.
//!
//! - [`state`]: the three scenes, and what leaving and entering them asks for;
//! - [`cake`] and [`gamba`]: the rules of the two playable scenes;
//! - [`ui`] and [`text`]: what the player reads and presses;
//! - [`command`]: the requests to the host, and [`stage`]: what they mean;
//! - [`util`]: animation loops and mass destruction;
//! - [`entropy`] and [`clock`]: the random numbers and the timers of the
//!   engine, which are trusted and not verified.

pub mod cake;
pub mod clock;
pub mod command;
pub mod entropy;
pub mod gamba;
pub mod stage;
pub mod state;
pub mod text;
pub mod ui;
pub mod util;
