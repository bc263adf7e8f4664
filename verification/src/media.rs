//! What can be asked to play: a local file, a plain HTTP resource, or a live
//! radio stream picked from the configured station list.

use vstd::prelude::*;

verus! {

/// One configured radio station: a display name and its manifest URL.
#[derive(Clone)]
pub struct RadioConfig {
    pub name: String,
    pub url: String,
}

/// Where a piece of media comes from.
pub enum Source {
    /// A plain HTTP resource.
    Http(String),
    /// A file on disk, by path.
    Local(String),
    /// A live stream, by its station entry.
    M3u8(RadioConfig),
}

/// A piece of media handed to a player.
pub struct Media {
    pub src: Source,
}

} // verus!
