//! The radio player: a live-stream session that connects to a manifest URL,
//! tracks which media segments were already scheduled, and on each refresh
//! schedules exactly the segments that newly entered the manifest's sliding
//! window.
//!
//! The driver performs every download and decode; this module makes the
//! decisions. `add_to_list` and `refresh` take the downloaded manifest
//! document (or none, on timeout) and return the URLs to fetch; `tick`
//! accounts for one arrived segment and says when the next refresh is due.
//! The sliding-window law at the end of this file proves that over any
//! run of refreshes, every advertised segment id is scheduled exactly once.

use vstd::prelude::*;

use crate::manifest::{parse_playlist_bytes, parsed_media_playlist, Manifest};
use crate::media::{Media, Source};
use crate::pathstr::{dir_prefix, dir_prefix_of, resolve_uri};
use crate::playlist::PlayListItem;
use crate::sink::AudioSink;

verus! {

/// How long after a refresh the next one becomes due, in milliseconds.
pub const REFRESH_GAP_MS: u64 = 5000;

/// Why a connect or refresh failed.
#[derive(Clone, Copy, Debug, PartialEq, Eq, Structural)]
pub enum RadioError {
    /// The manifest download did not answer within the wait bound.
    Timeout,
    /// The downloaded document is not a usable media playlist.
    ParseFailed,
    /// The media handed in is not a live stream.
    UnsupportedSource,
    /// No stream is connected.
    NoSession,
}

/// A manifest download that ran out of time.
pub struct DownloadTimeoutError {
    pub msg: String,
}

impl DownloadTimeoutError {
    /// Wrap a description of the download that timed out.
    pub fn new(msg: String) -> (e: DownloadTimeoutError)
        ensures
            e.msg@ == msg@,
    {
        DownloadTimeoutError { msg }
    }

    /// The description, for display.
    pub fn message(&self) -> (m: String)
        ensures
            m@ == self.msg@,
    {
        self.msg.clone()
    }
}

/// One connected stream: its manifest as first fetched, and its URL.
pub struct RadioItem {
    pub list: Manifest,
    pub url: String,
}

// ---------------------------------------------------------------------------
// The sliding window, mathematically.
// ---------------------------------------------------------------------------

/// The absolute segment ids a manifest window advertises.
pub open spec fn window_ids(base: u64, count: nat) -> Set<int> {
    Set::new(|i: int| base <= i < base + count)
}

/// The first id a refresh schedules, given the highest id already scheduled
/// (`last`, or none yet): ids at or below `last` are skipped.
pub open spec fn fetch_lower(last: Option<u64>, base: u64) -> int {
    match last {
        Option::None => base as int,
        Option::Some(l) => if l + 1 > base {
            l + 1
        } else {
            base as int
        },
    }
}

/// How many leading window segments a refresh skips: `max(last − base + 1, 0)`.
pub open spec fn spec_skip(last: Option<u64>, base: u64) -> int {
    fetch_lower(last, base) - base
}

/// The ids a refresh newly schedules.
pub open spec fn new_ids(last: Option<u64>, base: u64, count: nat) -> Set<int> {
    Set::new(|i: int| fetch_lower(last, base) <= i < base + count)
}

/// The tracking state after a refresh: the window's highest id; an empty
/// window leaves it as it was.
pub open spec fn next_last(last: Option<u64>, base: u64, count: nat) -> Option<u64> {
    if count > 0 {
        Option::Some((base + count - 1) as u64)
    } else {
        last
    }
}

/// The number of leading window segments already scheduled, clamped to the
/// window size so that a window lying entirely below `last` — or a negative
/// difference — can never fault the slice that follows.
pub fn compute_skip(last: Option<u64>, base: u64, count: usize) -> (skip: usize)
    requires
        base + count <= u64::MAX,
    ensures
        skip <= count,
        skip as int == if spec_skip(last, base) > count { count as int } else { spec_skip(last, base) },
        Set::new(|i: int| base + skip <= i < base + count) =~= new_ids(last, base, count as nat),
{
    let skip: usize = match last {
        Option::None => 0,
        Option::Some(l) => {
            if l < base {
                0
            } else {
                let d = l - base;
                if d >= count as u64 {
                    count
                } else {
                    (d + 1) as usize
                }
            }
        },
    };
    proof {
        assert(Set::new(|i: int| base + skip <= i < base + count) =~= new_ids(last, base, count as nat));
    }
    skip
}

/// The live radio player.
pub struct RadioPlayer {
    /// The connected stream, if any.
    pub item: Option<RadioItem>,
    /// Kept for parity with the local player's queue; the live stream has no
    /// queued tracks.
    pub list: Vec<PlayListItem>,
    pub sink: AudioSink,
    pub playing: bool,
    /// The highest absolute segment id already scheduled for download, or
    /// none when nothing was fetched yet.
    pub last_fetched: Option<u64>,
    /// When the manifest was last (re)fetched, in clock milliseconds.
    pub last_refresh: u64,
    /// How long after a refresh the next one becomes due.
    pub gap: u64,
    /// The latest clock reading any operation was given; every call must
    /// pass a reading at least this large (the clock is monotonic).
    pub last_now: Ghost<u64>,
}

/// A connect succeeds exactly on a live-stream source whose manifest
/// document arrived and denotes a media playlist fitting the id space.
pub open spec fn connect_ok(media: Media, fetched: Option<Vec<u8>>) -> bool {
    &&& media.src matches Source::M3u8(cfg)
    &&& fetched matches Option::Some(bytes)
    &&& parsed_media_playlist(bytes@) matches Option::Some(pm)
    &&& pm.0 + pm.1.len() <= u64::MAX
}

/// A refresh succeeds exactly when a stream is connected and the manifest
/// document arrived and denotes a media playlist fitting the id space.
pub open spec fn refresh_ok(item: Option<RadioItem>, fetched: Option<Vec<u8>>) -> bool {
    &&& item is Some
    &&& fetched matches Option::Some(bytes)
    &&& parsed_media_playlist(bytes@) matches Option::Some(pm)
    &&& pm.0 + pm.1.len() <= u64::MAX
}

/// The fields that make up the session's fetch state, unchanged.
pub open spec fn session_unchanged(a: RadioPlayer, b: RadioPlayer) -> bool {
    &&& a.item == b.item
    &&& a.list == b.list
    &&& a.last_fetched == b.last_fetched
    &&& a.gap == b.gap
}

impl RadioPlayer {
    /// The player's invariant.
    pub open spec fn wf(self) -> bool {
        &&& self.sink.wf()
        &&& self.last_refresh <= self.last_now@
    }

    /// A fresh radio player: no session, nothing scheduled, a fresh sink.
    pub fn new(now: u64) -> (r: RadioPlayer)
        ensures
            r.wf(),
            r.item is None,
            r.list@.len() == 0,
            r.sink == (AudioSink { volume: crate::sink::MAX_VOLUME, paused: false, live: false, queued: 0 }),
            !r.playing,
            r.last_fetched is None,
            r.last_refresh == now,
            r.gap == REFRESH_GAP_MS,
            r.last_now@ == now,
    {
        RadioPlayer {
            item: Option::None,
            list: Vec::new(),
            sink: AudioSink::new(),
            playing: false,
            last_fetched: Option::None,
            last_refresh: now,
            gap: REFRESH_GAP_MS,
            last_now: Ghost(now),
        }
    }

    /// Connect to a live stream. The driver downloads the manifest document
    /// at the station's URL with a bounded wait and hands it in (`None` on
    /// timeout). On success the session is (re)set, playback starts, and the
    /// URLs of every advertised segment — resolved against the manifest's
    /// directory prefix — are returned for the driver to download in order.
    /// On any failure the player is left exactly as it was.
    pub fn add_to_list(&mut self, media: Media, fetched: Option<Vec<u8>>, now: u64, once: bool) -> (r: Result<
        Vec<String>,
        RadioError,
    >)
        requires
            old(self).wf(),
            old(self).last_now@ <= now,
        ensures
            final(self).wf(),
            r is Ok <==> connect_ok(media, fetched),
            match r {
                Result::Ok(urls) => {
                    &&& media.src matches Source::M3u8(cfg)
                    &&& fetched matches Option::Some(bytes)
                    &&& parsed_media_playlist(bytes@) matches Option::Some(pm)
                    &&& final(self).item matches Option::Some(it)
                        && it.url@ == cfg.url@
                        && it.list.media_sequence == pm.0
                        && it.list.segments.deep_view() == pm.1
                    &&& final(self).last_fetched == next_last(Option::None, pm.0, pm.1.len())
                    &&& final(self).playing
                    &&& final(self).sink == (AudioSink { paused: false, ..old(self).sink })
                    &&& final(self).last_refresh == now
                    &&& final(self).last_now@ == now
                    &&& final(self).list == old(self).list
                    &&& final(self).gap == old(self).gap
                    &&& urls.deep_view().len() == pm.1.len()
                    &&& forall|k: int| 0 <= k < pm.1.len()
                        ==> urls.deep_view()[k] == dir_prefix(cfg.url@) + pm.1[k]
                },
                Result::Err(e) => {
                    &&& *final(self) == *old(self)
                    &&& (e == RadioError::UnsupportedSource <==> !(media.src matches Source::M3u8(_)))
                    &&& (e == RadioError::Timeout <==> (media.src matches Source::M3u8(_)) && fetched is None)
                    &&& e != RadioError::NoSession
                },
            },
    {
        match media.src {
            Source::M3u8(cfg) => {
                let bytes = match fetched {
                    Option::Some(b) => b,
                    Option::None => {
                        return Result::Err(RadioError::Timeout);
                    },
                };
                let m = match parse_playlist_bytes(bytes.as_slice()) {
                    Option::Some(m) => m,
                    Option::None => {
                        return Result::Err(RadioError::ParseFailed);
                    },
                };
                if m.media_sequence > u64::MAX - m.segments.len() as u64 {
                    return Result::Err(RadioError::ParseFailed);
                }
                let base = dir_prefix_of(cfg.url.as_str());
                let urls = resolve_from(base.as_str(), &m.segments, 0);
                let count = m.segments.len();
                self.last_fetched = if count > 0 {
                    Option::Some(m.media_sequence + count as u64 - 1)
                } else {
                    Option::None
                };
                self.item = Option::Some(RadioItem { list: m, url: cfg.url });
                self.last_refresh = now;
                self.playing = true;
                self.sink.play();
                self.last_now = Ghost(now);
                Result::Ok(urls)
            },
            Source::Http(_) => Result::Err(RadioError::UnsupportedSource),
            Source::Local(_) => Result::Err(RadioError::UnsupportedSource),
        }
    }

    /// Refresh the session against a freshly downloaded manifest document:
    /// skip every segment already scheduled, return the URLs of the rest —
    /// in order — and remember the window's highest id. A timeout or a
    /// malformed document changes nothing but the refresh timer, which every
    /// attempt resets.
    pub fn refresh(&mut self, fetched: Option<Vec<u8>>, now: u64) -> (r: Result<Vec<String>, RadioError>)
        requires
            old(self).wf(),
            old(self).last_now@ <= now,
        ensures
            final(self).wf(),
            final(self).last_now@ == now,
            final(self).sink == old(self).sink,
            final(self).playing == old(self).playing,
            final(self).list == old(self).list,
            final(self).gap == old(self).gap,
            final(self).item == old(self).item,
            r is Ok <==> refresh_ok(old(self).item, fetched),
            match r {
                Result::Ok(urls) => {
                    &&& fetched matches Option::Some(bytes)
                    &&& parsed_media_playlist(bytes@) matches Option::Some(pm)
                    &&& old(self).item matches Option::Some(it)
                    &&& final(self).last_fetched == next_last(old(self).last_fetched, pm.0, pm.1.len())
                    &&& final(self).last_refresh == now
                    &&& ({
                        let skip = if spec_skip(old(self).last_fetched, pm.0) > pm.1.len() {
                            pm.1.len() as int
                        } else {
                            spec_skip(old(self).last_fetched, pm.0)
                        };
                        &&& urls.deep_view().len() == pm.1.len() - skip
                        &&& forall|k: int| 0 <= k < urls.deep_view().len()
                            ==> urls.deep_view()[k] == dir_prefix(it.url@) + pm.1[skip + k]
                        &&& Set::new(|i: int| pm.0 + skip <= i < pm.0 + pm.1.len())
                            =~= new_ids(old(self).last_fetched, pm.0, pm.1.len())
                    })
                },
                Result::Err(e) => {
                    &&& session_unchanged(*final(self), *old(self))
                    &&& final(self).last_refresh == now
                    &&& (e == RadioError::NoSession <==> old(self).item is None)
                    &&& (e == RadioError::Timeout <==> (old(self).item is Some) && fetched is None)
                    &&& e != RadioError::UnsupportedSource
                },
            },
    {
        self.last_refresh = now;
        self.last_now = Ghost(now);
        let url = match &self.item {
            Option::Some(it) => &it.url,
            Option::None => {
                return Result::Err(RadioError::NoSession);
            },
        };
        let bytes = match fetched {
            Option::Some(b) => b,
            Option::None => {
                return Result::Err(RadioError::Timeout);
            },
        };
        let m = match parse_playlist_bytes(bytes.as_slice()) {
            Option::Some(m) => m,
            Option::None => {
                return Result::Err(RadioError::ParseFailed);
            },
        };
        if m.media_sequence > u64::MAX - m.segments.len() as u64 {
            return Result::Err(RadioError::ParseFailed);
        }
        let base = dir_prefix_of(url.as_str());
        let skip = compute_skip(self.last_fetched, m.media_sequence, m.segments.len());
        let urls = resolve_from(base.as_str(), &m.segments, skip);
        let count = m.segments.len();
        self.last_fetched = if count > 0 {
            Option::Some(m.media_sequence + count as u64 - 1)
        } else {
            self.last_fetched
        };
        Result::Ok(urls)
    }

    /// One poll from the driver. `decoded` reports one segment drained from
    /// the download channel, if any arrived: `Some(true)` when it decoded
    /// and was handed to the sink, `Some(false)` when it was corrupt and
    /// dropped — the stream goes on either way. Returns whether the refresh
    /// gap has passed and the driver should fetch the manifest again.
    pub fn tick(&mut self, decoded: Option<bool>, now: u64) -> (refresh_due: bool)
        requires
            old(self).wf(),
            old(self).last_now@ <= now,
        ensures
            final(self).wf(),
            final(self).last_now@ == now,
            session_unchanged(*final(self), *old(self)),
            final(self).playing == old(self).playing,
            final(self).last_refresh == old(self).last_refresh,
            final(self).sink == if decoded == Option::Some(true) {
                AudioSink {
                    queued: if old(self).sink.queued < u64::MAX {
                        (old(self).sink.queued + 1) as u64
                    } else {
                        u64::MAX
                    },
                    ..old(self).sink
                }
            } else {
                old(self).sink
            },
            refresh_due == (old(self).playing && now - old(self).last_refresh > old(self).gap),
    {
        if let Option::Some(ok) = decoded {
            if ok {
                self.sink.append();
            }
        }
        self.last_now = Ghost(now);
        let elapsed = now - self.last_refresh;
        self.playing && elapsed > self.gap
    }

    /// Resume output.
    pub fn play(&mut self) -> (r: bool)
        requires
            old(self).wf(),
        ensures
            r,
            final(self).wf(),
            *final(self) == (RadioPlayer {
                sink: AudioSink { paused: false, ..old(self).sink },
                playing: true,
                ..*old(self)
            }),
    {
        self.sink.play();
        self.playing = true;
        true
    }

    /// Advancing makes no sense on a live stream; nothing happens.
    pub fn next(&mut self) -> (r: bool)
        ensures
            !r,
            *final(self) == *old(self),
    {
        false
    }

    /// Stop output, dropping all queued audio.
    pub fn stop(&mut self) -> (r: bool)
        requires
            old(self).wf(),
        ensures
            r,
            final(self).wf(),
            *final(self) == (RadioPlayer {
                sink: AudioSink { live: false, queued: 0, ..old(self).sink },
                ..*old(self)
            }),
    {
        self.sink.stop();
        true
    }

    /// Pause output.
    pub fn pause(&mut self) -> (r: bool)
        requires
            old(self).wf(),
        ensures
            r,
            final(self).wf(),
            *final(self) == (RadioPlayer {
                sink: AudioSink { paused: true, ..old(self).sink },
                playing: false,
                ..*old(self)
            }),
    {
        self.sink.pause();
        self.playing = false;
        true
    }

    /// Resume output.
    pub fn resume(&mut self) -> (r: bool)
        requires
            old(self).wf(),
        ensures
            r,
            final(self).wf(),
            *final(self) == (RadioPlayer {
                sink: AudioSink { paused: false, ..old(self).sink },
                playing: true,
                ..*old(self)
            }),
    {
        self.sink.play();
        self.playing = true;
        true
    }

    /// Whether the stream is playing.
    pub fn is_playing(&self) -> (r: bool)
        ensures
            r == self.playing,
    {
        self.playing
    }

    /// A live stream carries no lyrics.
    pub fn current_lyric(&self) -> (r: &str)
        ensures
            r@ == ""@,
    {
        ""
    }

    /// A live stream carries no lyrics.
    pub fn has_lyrics(&self) -> (r: bool)
        ensures
            !r,
    {
        false
    }

    /// The sink volume, in thousandths of full volume.
    pub fn volume(&self) -> (v: u64)
        ensures
            v == self.sink.volume,
    {
        self.sink.volume()
    }

    /// Set the sink volume; every request is clamped to the valid range.
    pub fn set_volume(&mut self, v: i64) -> (r: bool)
        requires
            old(self).wf(),
        ensures
            r,
            final(self).wf(),
            *final(self) == (RadioPlayer {
                sink: AudioSink { volume: AudioSink::spec_clamped(v), ..old(self).sink },
                ..*old(self)
            }),
    {
        self.sink.set_volume(v);
        true
    }
}

/// The segment URIs from `skip` on, each resolved against `base`.
fn resolve_from(base: &str, segs: &Vec<String>, skip: usize) -> (urls: Vec<String>)
    requires
        skip <= segs@.len(),
    ensures
        urls.deep_view().len() == segs@.len() - skip,
        forall|k: int| 0 <= k < urls.deep_view().len()
            ==> urls.deep_view()[k] == base@ + segs.deep_view()[skip + k],
{
    let mut urls: Vec<String> = Vec::new();
    let mut i: usize = skip;
    while i < segs.len()
        invariant
            skip <= i <= segs@.len(),
            urls.deep_view().len() == i - skip,
            forall|k: int| 0 <= k < urls.deep_view().len()
                ==> urls.deep_view()[k] == base@ + segs.deep_view()[skip + k],
        decreases segs@.len() - i,
    {
        let u = resolve_uri(base, segs[i].as_str());
        let ghost prev = urls.deep_view();
        urls.push(u);
        proof {
            assert(urls.deep_view() =~= prev.push(base@ + segs.deep_view()[i as int]));
        }
        i = i + 1;
    }
    urls
}

// ---------------------------------------------------------------------------
// The sliding-window law.
// ---------------------------------------------------------------------------

/// The ids all the windows of a refresh run advertise.
pub open spec fn all_window_ids(ws: Seq<(u64, nat)>) -> Set<int>
    decreases ws.len(),
{
    if ws.len() == 0 {
        Set::empty()
    } else {
        window_ids(ws[0].0, ws[0].1).union(all_window_ids(ws.drop_first()))
    }
}

/// The ids a run of refreshes schedules, starting from tracking state `last`.
pub open spec fn enqueued_ids(last: Option<u64>, ws: Seq<(u64, nat)>) -> Set<int>
    decreases ws.len(),
{
    if ws.len() == 0 {
        Set::empty()
    } else {
        new_ids(last, ws[0].0, ws[0].1).union(
            enqueued_ids(next_last(last, ws[0].0, ws[0].1), ws.drop_first()),
        )
    }
}

/// No refresh of the run schedules an id that a later refresh schedules
/// again.
pub open spec fn refreshes_disjoint(last: Option<u64>, ws: Seq<(u64, nat)>) -> bool
    decreases ws.len(),
{
    if ws.len() == 0 {
        true
    } else {
        &&& new_ids(last, ws[0].0, ws[0].1).disjoint(
            enqueued_ids(next_last(last, ws[0].0, ws[0].1), ws.drop_first()),
        )
        &&& refreshes_disjoint(next_last(last, ws[0].0, ws[0].1), ws.drop_first())
    }
}

/// A live stream's refresh run: every window advertises at least one
/// segment and fits the id space, the window bases never move backwards,
/// and neither do the windows' ends.
pub open spec fn windows_wf(ws: Seq<(u64, nat)>) -> bool {
    &&& forall|i: int| 0 <= i < ws.len() ==> (#[trigger] ws[i]).1 >= 1
    &&& forall|i: int| 0 <= i < ws.len() ==> (#[trigger] ws[i]).0 + ws[i].1 <= u64::MAX
    &&& forall|i: int, j: int| 0 <= i < j < ws.len() ==> (#[trigger] ws[i]).0 <= (#[trigger] ws[j]).0
    &&& forall|i: int, j: int| 0 <= i < j < ws.len()
        ==> (#[trigger] ws[i]).0 + ws[i].1 <= (#[trigger] ws[j]).0 + ws[j].1
}

/// The highest id already scheduled, as an integer; `-1` when none was.
pub open spec fn fetched_bound(last: Option<u64>) -> int {
    match last {
        Option::None => -1,
        Option::Some(l) => l as int,
    }
}

/// Every advertised id lies at or above any bound below all the bases.
proof fn lemma_all_ids_lower(ws: Seq<(u64, nat)>, b: int)
    requires
        forall|k: int| 0 <= k < ws.len() ==> b <= (#[trigger] ws[k]).0,
    ensures
        forall|i: int| all_window_ids(ws).contains(i) ==> i >= b,
    decreases ws.len(),
{
    if ws.len() > 0 {
        let rest = ws.drop_first();
        assert(forall|k: int| 0 <= k < rest.len() ==> rest[k] == ws[k + 1]);
        lemma_all_ids_lower(rest, b);
        assert forall|i: int| all_window_ids(ws).contains(i) implies i >= b by {
            if !window_ids(ws[0].0, ws[0].1).contains(i) {
                assert(all_window_ids(rest).contains(i));
            }
        }
    }
}

/// The induction behind the sliding-window law, generalized over the
/// tracking state: a run schedules exactly the advertised ids above the
/// bound already reached, and never an id twice.
proof fn lemma_sliding_window_rec(last: Option<u64>, ws: Seq<(u64, nat)>)
    requires
        windows_wf(ws),
        ws.len() > 0 ==> fetched_bound(last) < ws[0].0 + ws[0].1,
    ensures
        enqueued_ids(last, ws) =~= all_window_ids(ws).intersect(
            Set::new(|i: int| i > fetched_bound(last)),
        ),
        refreshes_disjoint(last, ws),
    decreases ws.len(),
{
    if ws.len() > 0 {
        let b = ws[0].0;
        let n = ws[0].1;
        let last1 = next_last(last, b, n);
        let rest = ws.drop_first();
        assert(windows_wf(rest)) by {
            assert(forall|i: int| 0 <= i < rest.len() ==> rest[i] == ws[i + 1]);
        }
        assert(rest.len() > 0 ==> fetched_bound(last1) < rest[0].0 + rest[0].1) by {
            if rest.len() > 0 {
                assert(rest[0] == ws[1]);
            }
        }
        lemma_sliding_window_rec(last1, rest);
        assert(enqueued_ids(last, ws) =~= all_window_ids(ws).intersect(
            Set::new(|i: int| i > fetched_bound(last)),
        )) by {
            assert forall|i: int|
                all_window_ids(ws).contains(i) && i > fetched_bound(last)
                    implies enqueued_ids(last, ws).contains(i) by {
                if !new_ids(last, b, n).contains(i) {
                    if i > fetched_bound(last1) {
                        // above the new bound an id cannot lie in this
                        // window, so it lies in a later one and the
                        // induction hypothesis schedules it there
                        assert(all_window_ids(rest).contains(i));
                    } else {
                        // at or below the new bound, the monotone bases put
                        // the id inside this window, where it is above the
                        // old bound — so this refresh schedules it
                        assert(forall|k: int| 0 <= k < rest.len() ==> rest[k] == ws[k + 1]);
                        lemma_all_ids_lower(rest, b as int);
                        assert(window_ids(b, n).contains(i));
                        assert(new_ids(last, b, n).contains(i));
                    }
                }
            }
        }
        assert(refreshes_disjoint(last, ws)) by {
            assert(forall|i: int| new_ids(last, b, n).contains(i) ==> i < b + n);
            assert(forall|i: int| enqueued_ids(last1, rest).contains(i) ==> i > fetched_bound(last1));
        }
    }
}

/// The sliding-window law: over any run of manifest refreshes whose window
/// bases and window ends never move backwards, the scheduled ids are
/// exactly the union of all the advertised windows — gaps jumped over and
/// re-advertised ids alike — and no id is ever scheduled twice.
pub proof fn lemma_sliding_window(ws: Seq<(u64, nat)>)
    requires
        windows_wf(ws),
    ensures
        enqueued_ids(Option::None, ws) == all_window_ids(ws),
        refreshes_disjoint(Option::None, ws),
{
    lemma_sliding_window_rec(Option::None, ws);
    lemma_all_ids_lower(ws, 0);
    assert(enqueued_ids(Option::None, ws) =~= all_window_ids(ws));
}

} // verus!
