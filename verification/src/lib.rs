//! Decision logic of a desktop media-player panel driven by `playerctl`: the
//! names and icons of players, the reading of `playerctl` output, the face of
//! the play/pause button, the album art of each player's tab, and the panel's
//! own state (expanded or not, which players have a tab, which one is active).
#![allow(unused_imports)]

pub mod text;
pub mod players;
pub mod playback;
pub mod tab;
pub mod controller;
pub mod commands;

pub use controller::MprisController;
