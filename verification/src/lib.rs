//! The logic of a small system-tray internet-radio player: the ICY metadata
//! de-multiplexer, the PLS playlist reader, the audio engine's command loop
//! and reconnect backoff, and the tray's state and texts.

use vstd::prelude::*;

pub mod config;
pub mod dialog;
pub mod icy;
pub mod player;
pub mod playlist;
pub mod text;
pub mod ui;
pub mod util;
