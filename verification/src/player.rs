//! The local music player: a playlist queue, a playback clock per track and
//! the output sink, composed into one state machine.
//!
//! Every public operation is specified against `PlayerModel`, the
//! mathematical value of the player, by a transition function
//! (`play_model`, `next_model`, `tick_model`, `add_model`, ...); the queue
//! laws at the end of this file are proved over those transitions.
//!
//! The driver reads files, probes durations and runs the device; it hands
//! the results in as plain values together with the current reading of a
//! monotonic clock in milliseconds.

use vstd::prelude::*;

use crate::clock::PlayStatus;
use crate::lyrics::{cursor_rest, LyricModel, Lyrics};
use crate::media::{Media, Source};
use crate::pathstr::{file_name, file_name_of};
use crate::playlist::{ItemModel, PlayList, PlayListItem};
use crate::sink::AudioSink;

verus! {

/// The mathematical value of the whole player.
#[verifier::ext_equal]
pub struct PlayerModel {
    pub current_time: u64,
    pub total_time: u64,
    pub queue: Seq<ItemModel>,
    pub sink: AudioSink,
    pub current_lyric: Option<Seq<char>>,
    pub initialized: bool,
}

/// The player as constructed: nothing queued, a fresh sink, never played.
pub open spec fn init_model() -> PlayerModel {
    PlayerModel {
        current_time: 0,
        total_time: 0,
        queue: Seq::empty(),
        sink: AudioSink { volume: crate::sink::MAX_VOLUME, paused: false, live: false, queued: 0 },
        current_lyric: Option::None,
        initialized: false,
    }
}

/// Playing means: a track was ever loaded, the sink is not paused, and the
/// queue is not empty.
pub open spec fn is_playing_model(p: PlayerModel) -> bool {
    p.initialized && !p.sink.paused && p.queue.len() > 0
}

/// The queue with the head's playback clock replaced.
pub open spec fn with_head_status(q: Seq<ItemModel>, s: PlayStatus) -> Seq<ItemModel> {
    q.update(0, ItemModel { status: s, ..q[0] })
}

/// `play`: unpause the sink and start the head's clock if it is not running.
pub open spec fn play_model(p: PlayerModel, now: u64) -> PlayerModel {
    let sink = AudioSink { paused: false, ..p.sink };
    if p.queue.len() > 0 {
        PlayerModel {
            sink,
            queue: with_head_status(p.queue, p.queue[0].status.spec_started(now)),
            ..p
        }
    } else {
        PlayerModel { sink, ..p }
    }
}

/// `pause`: pause the sink and fold the head's running period into its
/// accumulated time.
pub open spec fn pause_model(p: PlayerModel, now: u64) -> PlayerModel {
    let sink = AudioSink { paused: true, ..p.sink };
    if p.queue.len() > 0 {
        PlayerModel {
            sink,
            queue: with_head_status(p.queue, p.queue[0].status.spec_paused(now)),
            ..p
        }
    } else {
        PlayerModel { sink, ..p }
    }
}

/// `resume`: unpause the sink and restart the head's clock if it was paused;
/// a head that never started stays waiting.
pub open spec fn resume_model(p: PlayerModel, now: u64) -> PlayerModel {
    let sink = AudioSink { paused: false, ..p.sink };
    if p.queue.len() > 0 {
        PlayerModel {
            sink,
            queue: with_head_status(p.queue, p.queue[0].status.spec_resumed(now)),
            ..p
        }
    } else {
        PlayerModel { sink, ..p }
    }
}

/// `stop`: drop everything the sink holds.
pub open spec fn stop_model(p: PlayerModel) -> PlayerModel {
    PlayerModel { sink: AudioSink { live: false, queued: 0, ..p.sink }, ..p }
}

/// Whether `next` has a track to advance past.
pub open spec fn next_ok(p: PlayerModel) -> bool {
    p.queue.len() >= 1
}

/// `next`: drop the head and stop the sink; if a track remains, rebind the
/// sink to it — preserving the volume setting — and start it playing.
pub open spec fn next_model(p: PlayerModel, now: u64) -> PlayerModel {
    if p.queue.len() >= 1 {
        let q = p.queue.subrange(1, p.queue.len() as int);
        if q.len() > 0 {
            let sink = AudioSink { volume: p.sink.volume, paused: false, live: true, queued: 1 };
            PlayerModel {
                queue: with_head_status(q, q[0].status.spec_started(now)),
                sink,
                ..p
            }
        } else {
            PlayerModel {
                queue: q,
                sink: AudioSink { live: false, queued: 0, ..p.sink },
                ..p
            }
        }
    } else {
        p
    }
}

/// `tick`: if the head's clock has reached the track's duration, advance to
/// the next track; otherwise refresh the observable position and move the
/// lyric cursor past every line already due. A waiting head starts its clock
/// once the player is actually playing; an empty queue stops the sink.
pub open spec fn tick_model(p: PlayerModel, now: u64) -> PlayerModel {
    if p.queue.len() > 0 {
        let head = p.queue[0];
        match head.status {
            PlayStatus::Waiting => {
                if is_playing_model(p) {
                    PlayerModel { queue: with_head_status(p.queue, PlayStatus::Playing(now, 0)), ..p }
                } else {
                    p
                }
            },
            PlayStatus::Playing(anchor, acc) => {
                let e = head.status.spec_elapsed(now);
                if e >= head.duration {
                    next_model(p, now)
                } else {
                    PlayerModel {
                        current_time: e as u64,
                        total_time: head.duration,
                        queue: p.queue.update(0, ItemModel {
                            lyrics_index: cursor_rest(head.lyrics, head.lyrics_index, e as u64),
                            ..head
                        }),
                        ..p
                    }
                }
            },
            PlayStatus::Stopped(acc) => {
                PlayerModel { current_time: acc, total_time: head.duration, ..p }
            },
        }
    } else {
        stop_model(p)
    }
}

/// Which add requests are accepted: a local file whose duration could be
/// probed and is not zero.
pub open spec fn add_accepts(media: Media, probed: Option<u64>) -> bool {
    &&& media.src matches Source::Local(_)
    &&& probed matches Option::Some(d) && d > 0
}

/// The track descriptor that an accepted add inserts.
pub open spec fn new_item_model(path: Seq<char>, duration: u64, lyrics: Seq<LyricModel>) -> ItemModel {
    ItemModel {
        name: file_name(path),
        duration,
        current_pos: 0,
        status: PlayStatus::Waiting,
        path,
        lyrics,
        lyrics_index: 0,
    }
}

/// `add_to_list` of an accepted local track: if `once` was asked or the
/// queue is empty, the sink is rebuilt bound to the new track — volume
/// preserved — and the queue is replaced; otherwise the track is appended.
/// Playback then starts at once and the position snapshot is refreshed.
pub open spec fn add_model(
    p: PlayerModel,
    path: Seq<char>,
    duration: u64,
    lyrics: Seq<LyricModel>,
    now: u64,
    once: bool,
) -> PlayerModel {
    let item = new_item_model(path, duration, lyrics);
    let replaced = once || p.queue.len() == 0;
    let queue = if replaced { seq![item] } else { p.queue.push(item) };
    let sink = if replaced {
        AudioSink { volume: p.sink.volume, paused: false, live: true, queued: 1 }
    } else {
        p.sink
    };
    let loaded = PlayerModel { queue, sink, initialized: true, ..p };
    tick_model(play_model(loaded, now), now)
}

/// The local music player.
pub struct MusicPlayer {
    pub current_time: u64,
    pub total_time: u64,
    pub play_list: PlayList,
    pub sink: AudioSink,
    pub current_lyric: Option<String>,
    pub initialized: bool,
    /// The latest clock reading any operation was given; every call must
    /// pass a reading at least this large (the clock is monotonic).
    pub last_now: Ghost<u64>,
}

impl View for MusicPlayer {
    type V = PlayerModel;

    open spec fn view(&self) -> PlayerModel {
        PlayerModel {
            current_time: self.current_time,
            total_time: self.total_time,
            queue: self.play_list@,
            sink: self.sink,
            current_lyric: match self.current_lyric {
                Option::Some(ref l) => Option::Some(l@),
                Option::None => Option::None,
            },
            initialized: self.initialized,
        }
    }
}

impl MusicPlayer {
    /// The player's invariant: the sink volume is in range and every queued
    /// track is well-formed at the latest clock reading.
    pub open spec fn wf(self) -> bool {
        &&& self.sink.wf()
        &&& forall|i: int| 0 <= i < self.play_list.lists@.len()
            ==> ((#[trigger] self.play_list.lists@[i])@).wf(self.last_now@)
    }

    /// A fresh player with an empty queue.
    pub fn new() -> (p: MusicPlayer)
        ensures
            p.wf(),
            p@ == init_model(),
            p.last_now@ == 0,
    {
        let p = MusicPlayer {
            current_time: 0,
            total_time: 0,
            play_list: PlayList { lists: Vec::new() },
            sink: AudioSink::new(),
            current_lyric: Option::None,
            initialized: false,
            last_now: Ghost(0),
        };
        proof {
            assert(p@ =~= init_model());
        }
        p
    }

    /// Unpause the sink and start the head track's clock if it is not
    /// already running.
    pub fn play(&mut self, now: u64) -> (r: bool)
        requires
            old(self).wf(),
            old(self).last_now@ <= now,
        ensures
            r,
            final(self).wf(),
            final(self).last_now@ == now,
            final(self)@ == play_model(old(self)@, now),
    {
        self.sink.play();
        if self.play_list.lists.len() > 0 {
            let s = self.play_list.lists[0].status;
            proof {
                crate::clock::lemma_wf_later(s, self.last_now@, now);
            }
            let s2 = s.started(now);
            let item = &mut self.play_list.lists[0];
            item.status = s2;
        }
        self.last_now = Ghost(now);
        proof {
            lemma_queue_wf_later(old(self).play_list.lists@, old(self).last_now@, now);
            assert(self.wf());
            assert(self@ =~= play_model(old(self)@, now));
        }
        true
    }

    /// Pause the sink and the head track's clock.
    pub fn pause(&mut self, now: u64) -> (r: bool)
        requires
            old(self).wf(),
            old(self).last_now@ <= now,
        ensures
            r,
            final(self).wf(),
            final(self).last_now@ == now,
            final(self)@ == pause_model(old(self)@, now),
    {
        self.sink.pause();
        if self.play_list.lists.len() > 0 {
            let s = self.play_list.lists[0].status;
            proof {
                crate::clock::lemma_wf_later(s, self.last_now@, now);
            }
            let s2 = s.paused(now);
            let item = &mut self.play_list.lists[0];
            item.status = s2;
        }
        self.last_now = Ghost(now);
        proof {
            lemma_queue_wf_later(old(self).play_list.lists@, old(self).last_now@, now);
            assert(self.wf());
            assert(self@ =~= pause_model(old(self)@, now));
        }
        true
    }

    /// Unpause the sink and resume the head track's clock if it was paused.
    pub fn resume(&mut self, now: u64) -> (r: bool)
        requires
            old(self).wf(),
            old(self).last_now@ <= now,
        ensures
            r,
            final(self).wf(),
            final(self).last_now@ == now,
            final(self)@ == resume_model(old(self)@, now),
    {
        self.sink.play();
        if self.play_list.lists.len() > 0 {
            let s = self.play_list.lists[0].status;
            proof {
                crate::clock::lemma_wf_later(s, self.last_now@, now);
            }
            let s2 = s.resumed(now);
            let item = &mut self.play_list.lists[0];
            item.status = s2;
        }
        self.last_now = Ghost(now);
        proof {
            lemma_queue_wf_later(old(self).play_list.lists@, old(self).last_now@, now);
            assert(self.wf());
            assert(self@ =~= resume_model(old(self)@, now));
        }
        true
    }

    /// Stop the sink, dropping all queued audio.
    pub fn stop(&mut self) -> (r: bool)
        requires
            old(self).wf(),
        ensures
            r,
            final(self).wf(),
            final(self).last_now == old(self).last_now,
            final(self)@ == stop_model(old(self)@),
    {
        self.sink.stop();
        proof {
            assert(self@ =~= stop_model(old(self)@));
        }
        true
    }

    /// Drop the head track. If a track remains, the sink is rebuilt bound to
    /// it with the volume setting preserved, and it starts playing; if the
    /// queue is drained, the sink is stopped. On an empty queue this does
    /// nothing and reports failure.
    pub fn next(&mut self, now: u64) -> (r: bool)
        requires
            old(self).wf(),
            old(self).last_now@ <= now,
        ensures
            r == next_ok(old(self)@),
            final(self).wf(),
            final(self).last_now@ == now,
            final(self)@ == next_model(old(self)@, now),
    {
        if self.play_list.lists.len() >= 1 {
            self.play_list.advance();
            self.sink.stop();
            if self.play_list.lists.len() > 0 {
                self.sink.rebind();
                let s = self.play_list.lists[0].status;
                proof {
                    assert(s == old(self)@.queue[1].status);
                    crate::clock::lemma_wf_later(s, self.last_now@, now);
                }
                let s2 = s.started(now);
                let item = &mut self.play_list.lists[0];
                item.status = s2;
            }
            self.last_now = Ghost(now);
            proof {
                lemma_queue_wf_later(old(self).play_list.lists@, old(self).last_now@, now);
                assert(self.wf());
                assert(self@ =~= next_model(old(self)@, now));
            }
            true
        } else {
            self.last_now = Ghost(now);
            proof {
                lemma_queue_wf_later(old(self).play_list.lists@, old(self).last_now@, now);
                assert(self.wf());
                assert(self@ =~= next_model(old(self)@, now));
            }
            false
        }
    }

    /// Whether the player is actually playing.
    pub fn is_playing(&self) -> (r: bool)
        ensures
            r == is_playing_model(self@),
    {
        self.initialized && !self.sink.is_paused() && !self.play_list.lists.is_empty()
    }

    /// One poll from the driver: advance the head track's clock state,
    /// auto-advance to the next track when it has run out, refresh the
    /// position snapshot and the lyric cursor, and stop the sink when the
    /// queue is empty. Polling never changes the elapsed-time accounting.
    pub fn tick(&mut self, now: u64)
        requires
            old(self).wf(),
            old(self).last_now@ <= now,
        ensures
            final(self).wf(),
            final(self).last_now@ == now,
            final(self)@ == tick_model(old(self)@, now),
    {
        let playing = self.is_playing();
        if self.play_list.lists.len() > 0 {
            let status = self.play_list.lists[0].status;
            proof {
                crate::clock::lemma_wf_later(status, self.last_now@, now);
            }
            match status {
                PlayStatus::Waiting => {
                    if playing {
                        let item = &mut self.play_list.lists[0];
                        item.status = PlayStatus::Playing(now, 0);
                    }
                    self.last_now = Ghost(now);
                    proof {
                        lemma_queue_wf_later(old(self).play_list.lists@, old(self).last_now@, now);
                        assert(self.wf());
                        assert(self@ =~= tick_model(old(self)@, now));
                    }
                },
                PlayStatus::Playing(anchor, acc) => {
                    let elapsed = acc + (now - anchor);
                    let duration = self.play_list.lists[0].duration;
                    if elapsed >= duration {
                        self.next(now);
                        proof {
                            assert(self@ =~= tick_model(old(self)@, now));
                        }
                    } else {
                        self.current_time = elapsed;
                        self.total_time = duration;
                        let item = &mut self.play_list.lists[0];
                        let ghost item0 = *item;
                        let ghost target = cursor_rest(item0@.lyrics, item0@.lyrics_index, elapsed);
                        while item.lyrics_index + 1 < item.lyrics.list.len()
                            && elapsed > item.lyrics.list[item.lyrics_index + 1].time
                            invariant
                                *item == (PlayListItem { lyrics_index: item.lyrics_index, ..item0 }),
                                item.lyrics_index == 0 || item.lyrics_index < item.lyrics.list.len(),
                                cursor_rest(item0@.lyrics, item.lyrics_index as nat, elapsed) == target,
                            decreases item.lyrics.list.len() - item.lyrics_index,
                        {
                            item.lyrics_index = item.lyrics_index + 1;
                        }
                        proof {
                            assert(item@ =~= ItemModel { lyrics_index: target, ..item0@ });
                        }
                        self.last_now = Ghost(now);
                        proof {
                            lemma_queue_wf_later(old(self).play_list.lists@, old(self).last_now@, now);
                            assert(self.wf());
                            crate::lyrics::lemma_cursor_rest_bounds(
                                item0@.lyrics,
                                item0@.lyrics_index,
                                elapsed,
                            );
                            assert(self@ =~= tick_model(old(self)@, now));
                        }
                    }
                },
                PlayStatus::Stopped(d) => {
                    self.current_time = d;
                    self.total_time = self.play_list.lists[0].duration;
                    self.last_now = Ghost(now);
                    proof {
                        lemma_queue_wf_later(old(self).play_list.lists@, old(self).last_now@, now);
                        assert(self.wf());
                        assert(self@ =~= tick_model(old(self)@, now));
                    }
                },
            }
        } else {
            self.sink.stop();
            self.last_now = Ghost(now);
            proof {
                lemma_queue_wf_later(old(self).play_list.lists@, old(self).last_now@, now);
                assert(self.wf());
                assert(self@ =~= tick_model(old(self)@, now));
            }
        }
    }

    /// Load a local track. The driver probes the file's total duration
    /// (`probed`, in milliseconds; `None` when the file is unreadable or
    /// undecodable, `Some(0)` when no duration is known) and parses the
    /// sibling lyric file. A track without a usable duration is rejected and
    /// nothing changes; anything but a local file is rejected likewise. On
    /// success the track is queued — replacing the queue if `once` was asked
    /// or it was empty — and playback starts at once.
    pub fn add_to_list(&mut self, media: Media, probed: Option<u64>, lyrics: Lyrics, now: u64, once: bool) -> (ok: bool)
        requires
            old(self).wf(),
            old(self).last_now@ <= now,
        ensures
            ok == add_accepts(media, probed),
            !ok ==> *final(self) == *old(self),
            ok ==> final(self).wf() && final(self).last_now@ == now,
            media.src matches Source::Local(path)
                ==> probed matches Option::Some(d)
                ==> d > 0
                ==> final(self)@ == add_model(old(self)@, path@, d, lyrics@, now, once),
    {
        match media.src {
            Source::Local(path) => {
                let d = match probed {
                    Option::Some(d) => d,
                    Option::None => {
                        return false;
                    },
                };
                if d == 0 {
                    return false;
                }
                let ghost path_view = path@;
                let ghost lyr_view = lyrics@;
                let name = file_name_of(path.as_str());
                if once || self.play_list.is_empty() {
                    self.sink.stop();
                    self.sink.rebind();
                }
                let item = PlayListItem {
                    name,
                    duration: d,
                    current_pos: 0,
                    status: PlayStatus::Waiting,
                    path,
                    lyrics,
                    lyrics_index: 0,
                };
                self.play_list.push(item, once);
                self.initialized = true;
                proof {
                    let loaded = PlayerModel {
                        queue: if once || old(self)@.queue.len() == 0 {
                            seq![new_item_model(path_view, d, lyr_view)]
                        } else {
                            old(self)@.queue.push(new_item_model(path_view, d, lyr_view))
                        },
                        sink: if once || old(self)@.queue.len() == 0 {
                            AudioSink {
                                volume: old(self)@.sink.volume,
                                paused: false,
                                live: true,
                                queued: 1,
                            }
                        } else {
                            old(self)@.sink
                        },
                        initialized: true,
                        ..old(self)@
                    };
                    assert(self@ =~= loaded);
                }
                self.play(now);
                self.tick(now);
                true
            },
            Source::Http(_) => false,
            Source::M3u8(_) => false,
        }
    }

    /// The active track, if there is one.
    pub fn playing_song(&self) -> (r: Option<&PlayListItem>)
        ensures
            match r {
                Option::Some(item) => self@.queue.len() > 0 && item@ == self@.queue[0],
                Option::None => self@.queue.len() == 0,
            },
    {
        self.play_list.head()
    }

    /// The current lyric line, or a placeholder when none is set.
    pub fn current_lyric(&self) -> (r: &str)
        ensures
            match self.current_lyric {
                Option::Some(ref l) => r@ == l@,
                Option::None => r@ == "No Lyrics"@,
            },
    {
        match &self.current_lyric {
            Option::Some(l) => l.as_str(),
            Option::None => "No Lyrics",
        }
    }

    /// Whether the active track has any lyric lines.
    pub fn has_lyrics(&self) -> (r: bool)
        ensures
            r == (self@.queue.len() > 0 && self@.queue[0].lyrics.len() > 0),
    {
        !self.play_list.lists.is_empty() && self.play_list.lists[0].lyrics.list.len() > 0
    }

    /// The sink volume, in thousandths of full volume.
    pub fn volume(&self) -> (v: u64)
        ensures
            v == self@.sink.volume,
    {
        self.sink.volume()
    }

    /// Set the sink volume; every request is clamped to the valid range.
    pub fn set_volume(&mut self, v: i64) -> (r: bool)
        requires
            old(self).wf(),
        ensures
            r,
            final(self).wf(),
            final(self).last_now == old(self).last_now,
            final(self)@ == (PlayerModel {
                sink: AudioSink { volume: AudioSink::spec_clamped(v), ..old(self)@.sink },
                ..old(self)@
            }),
    {
        self.sink.set_volume(v);
        proof {
            assert(self@ =~= PlayerModel {
                sink: AudioSink { volume: AudioSink::spec_clamped(v), ..old(self)@.sink },
                ..old(self)@
            });
        }
        true
    }

}

/// Every track of a well-formed queue stays well-formed when the clock
/// moves forward. Used by the operations above after they update the head.
proof fn lemma_queue_wf_later(q: Seq<PlayListItem>, t0: u64, now: u64)
    requires
        forall|i: int| 0 <= i < q.len() ==> ((#[trigger] q[i])@).wf(t0),
        t0 <= now,
    ensures
        forall|i: int| 0 <= i < q.len() ==> ((#[trigger] q[i])@).wf(now),
{
    assert forall|i: int| 0 <= i < q.len() implies ((#[trigger] q[i])@).wf(now) by {
        crate::clock::lemma_wf_later(q[i]@.status, t0, now);
    }
}

/// The player after `k` successive `next` calls, all at clock reading `now`.
pub open spec fn iterate_next(p: PlayerModel, now: u64, k: nat) -> PlayerModel
    decreases k,
{
    if k == 0 {
        p
    } else {
        iterate_next(next_model(p, now), now, (k - 1) as nat)
    }
}

/// Queue-advance law: on a queue of `n` tracks, each of the first `n - 1`
/// `next` calls leaves the sink bound to the promoted track, the `n`-th —
/// and only the `n`-th — stops the sink, the queue is then empty, and a
/// further `next` reports failure and changes nothing. The volume setting
/// survives the whole run.
pub proof fn lemma_queue_advance(p: PlayerModel, now: u64)
    ensures
        iterate_next(p, now, p.queue.len()).queue.len() == 0,
        p.queue.len() >= 1 ==> {
            let end = iterate_next(p, now, p.queue.len());
            !end.sink.live && end.sink.queued == 0 && end.sink.volume == p.sink.volume
        },
        forall|k: nat| 1 <= k < p.queue.len() ==> (#[trigger] iterate_next(p, now, k)).sink.live,
        p.queue.len() == 0 ==> next_model(p, now) == p && !next_ok(p),
    decreases p.queue.len(),
{
    if p.queue.len() >= 1 {
        let p1 = next_model(p, now);
        assert(p1.queue.len() == p.queue.len() - 1);
        lemma_queue_advance(p1, now);
        assert forall|k: nat| 1 <= k < p.queue.len() implies (#[trigger] iterate_next(p, now, k)).sink.live by {
            if k == 1 {
                assert(iterate_next(p, now, 1) == iterate_next(p1, now, 0));
            } else {
                assert(iterate_next(p, now, k) == iterate_next(p1, now, (k - 1) as nat));
            }
        }
    }
}

/// The player's operations drive the head track's clock exactly as the
/// clock events of `crate::clock` describe: `play` is a start, `pause` a
/// pause, `resume` a start when the track was paused and a mere poll when
/// it never started, and a `tick` that does not end the track is a poll.
/// Together with `crate::clock::lemma_elapsed_is_playing_time`, the
/// position a player reports therefore equals the summed playing periods
/// of its call history, however often it was polled.
pub proof fn lemma_player_ops_are_clock_events(p: PlayerModel, now: u64)
    requires
        p.queue.len() > 0,
    ensures
        play_model(p, now).queue[0].status == crate::clock::apply_event(
            p.queue[0].status,
            crate::clock::ClockEvent::Start(now),
        ),
        pause_model(p, now).queue[0].status == crate::clock::apply_event(
            p.queue[0].status,
            crate::clock::ClockEvent::Pause(now),
        ),
        p.queue[0].status is Stopped ==> resume_model(p, now).queue[0].status
            == crate::clock::apply_event(p.queue[0].status, crate::clock::ClockEvent::Start(now)),
        !(p.queue[0].status is Stopped) ==> resume_model(p, now).queue[0].status
            == crate::clock::apply_event(p.queue[0].status, crate::clock::ClockEvent::Poll(now)),
        (p.queue[0].status matches PlayStatus::Playing(anchor, acc)
            && p.queue[0].status.spec_elapsed(now) < p.queue[0].duration)
            ==> tick_model(p, now).queue[0].status == crate::clock::apply_event(
                p.queue[0].status,
                crate::clock::ClockEvent::Poll(now),
            ),
{
}

/// Replace-queue law: an accepted add with `once` always leaves exactly the
/// one new track in the queue — whatever was queued before — already
/// playing from the start, with the sink bound to it and the volume
/// setting preserved.
pub proof fn lemma_replace_queue(
    p: PlayerModel,
    path: Seq<char>,
    duration: u64,
    lyrics: Seq<LyricModel>,
    now: u64,
)
    requires
        duration > 0,
    ensures
        ({
            let q = add_model(p, path, duration, lyrics, now, true);
            &&& q.queue =~= seq![
                ItemModel {
                    status: PlayStatus::Playing(now, 0),
                    ..new_item_model(path, duration, lyrics)
                },
            ]
            &&& q.sink == (AudioSink { volume: p.sink.volume, paused: false, live: true, queued: 1 })
            &&& q.current_time == 0
            &&& q.total_time == duration
        }),
{
    let item = new_item_model(path, duration, lyrics);
    let loaded = PlayerModel {
        queue: seq![item],
        sink: AudioSink { volume: p.sink.volume, paused: false, live: true, queued: 1 },
        initialized: true,
        ..p
    };
    let played = play_model(loaded, now);
    assert(played.queue =~= seq![ItemModel { status: PlayStatus::Playing(now, 0), ..item }]);
    let ticked = tick_model(played, now);
    assert(ticked.queue =~= played.queue);
}

} // verus!
