//! The core of a terminal music player: searching a catalogue, finding a
//! stream for a track, talking to the mpv player, drawing cover art, and the
//! decisions of the player's screen.

pub mod text;
pub mod decimal;
pub mod mpv;
pub mod models;
pub mod api;
pub mod art;
pub mod ui;
