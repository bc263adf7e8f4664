//! The live-stream manifest: an ordered list of media segment URIs together
//! with the absolute sequence number of the first of them.
//!
//! Parsing the HLS playlist document is done by the `m3u8_rs` crate behind
//! one trusted wrapper; everything downstream works on the plain `Manifest`
//! value it returns.

use vstd::prelude::*;

verus! {

/// A parsed media playlist: the absolute sequence number of its first
/// segment and the segment URIs in order. Segment `i` of the list has the
/// absolute id `media_sequence + i`.
pub struct Manifest {
    pub media_sequence: u64,
    pub segments: Vec<String>,
}

/// The media playlist that an HLS playlist document denotes, if it denotes
/// one: its media-sequence number and its segment URIs in order. A master
/// playlist or a malformed document denotes none.
pub uninterp spec fn parsed_media_playlist(bytes: Seq<u8>) -> Option<(u64, Seq<Seq<char>>)>;

/// Relies on `m3u8_rs::parse_playlist_res`: parses an HLS playlist
/// document; a media playlist gives its media-sequence number and its
/// segments' URIs in order, anything else gives nothing.
#[verifier::external_body]
pub(crate) fn parse_playlist_bytes(bytes: &[u8]) -> (r: Option<Manifest>)
    ensures
        match r {
            Option::Some(m) => parsed_media_playlist(bytes@)
                == Option::Some((m.media_sequence, m.segments.deep_view())),
            Option::None => parsed_media_playlist(bytes@) is None,
        },
{
    match m3u8_rs::parse_playlist_res(bytes) {
        Ok(m3u8_rs::Playlist::MediaPlaylist(pl)) => Some(Manifest {
            media_sequence: pl.media_sequence,
            segments: pl.segments.into_iter().map(|seg| seg.uri).collect(),
        }),
        Ok(m3u8_rs::Playlist::MasterPlaylist(_)) => None,
        Err(_) => None,
    }
}

} // verus!
