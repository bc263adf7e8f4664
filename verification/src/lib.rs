//! Core of a terminal music player: the local playback state machine, the
//! playback clock, the playlist queue, an abstract output sink, and the live
//! radio session with its sliding-window manifest refresh.
//!
//! All decisions (queue management, elapsed-time accounting, which media
//! segments to fetch next) are made here and verified; the surrounding driver
//! performs the actual device output, file reads and network transfers and
//! hands the results in as plain values.

pub mod clock;
pub mod config;
pub mod lyrics;
pub mod manifest;
pub mod media;
pub mod pathstr;
pub mod player;
pub mod playlist;
pub mod radio;
pub mod sink;
