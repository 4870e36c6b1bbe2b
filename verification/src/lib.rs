//! Core of a terminal music player, centred on its streaming audio decode
//! engine: the component that turns a probed container into a continuous
//! stream of PCM samples while supporting seeking, buffer reuse and
//! non-blocking delivery of in-band title updates.
//!
//! The modules hold the player's decision logic over plain data; the thin
//! layers that perform I/O (probing a stream, reading packets, the terminal)
//! live outside this crate and drive these functions event by event.

pub mod color_editor;
pub mod decoder;
pub mod json;
pub mod lyric;
pub mod player;
pub mod playlist;
pub mod songtag;
pub mod ui;
pub mod utils;
