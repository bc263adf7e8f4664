//! The playback clock of one track.
//!
//! A track's position is a tagged state, not a running counter: `Waiting`
//! (never started), `Playing(anchor, acc)` (playing since `anchor` with `acc`
//! milliseconds credited from earlier play periods), or `Stopped(acc)`
//! (paused with `acc` milliseconds on the clock). The elapsed time is always
//! recomputed from the anchor, so polling frequency cannot introduce drift.
//!
//! All times are milliseconds read from a monotonic clock by the caller.

use vstd::prelude::*;

verus! {

/// Playback state of one track, in milliseconds of a monotonic clock.
#[derive(Clone, Copy, Debug, PartialEq, Eq, Structural)]
pub enum PlayStatus {
    /// Never started.
    Waiting,
    /// Playing since the first field (the anchor), with the second field
    /// already accumulated from earlier play periods.
    Playing(u64, u64),
    /// Paused with the given accumulated play time.
    Stopped(u64),
}

impl PlayStatus {
    /// Well-formed at clock reading `now`: anchors lie in the past and the
    /// accumulated time never exceeds the moment it was accumulated at, so
    /// `spec_elapsed` stays within `now` and within `u64`.
    pub open spec fn wf(self, now: u64) -> bool {
        match self {
            PlayStatus::Waiting => true,
            PlayStatus::Playing(anchor, acc) => acc <= anchor && anchor <= now,
            PlayStatus::Stopped(acc) => acc <= now,
        }
    }

    /// The playback position at clock reading `now`.
    pub open spec fn spec_elapsed(self, now: u64) -> int {
        match self {
            PlayStatus::Waiting => 0,
            PlayStatus::Playing(anchor, acc) => acc + now - anchor,
            PlayStatus::Stopped(acc) => acc as int,
        }
    }

    /// The state after a play or resume at `now`: starts the clock if it is
    /// not already running, keeping the accumulated time.
    pub open spec fn spec_started(self, now: u64) -> PlayStatus {
        match self {
            PlayStatus::Waiting => PlayStatus::Playing(now, 0),
            PlayStatus::Playing(anchor, acc) => self,
            PlayStatus::Stopped(acc) => PlayStatus::Playing(now, acc),
        }
    }

    /// The state after a pause at `now`: folds the running period into the
    /// accumulated time; a clock that is not running is left as it is.
    pub open spec fn spec_paused(self, now: u64) -> PlayStatus {
        match self {
            PlayStatus::Playing(anchor, acc) => PlayStatus::Stopped((acc + now - anchor) as u64),
            _ => self,
        }
    }

    /// The state after a resume at `now`: restarts a paused clock, keeping
    /// its accumulated time; unlike `spec_started`, a clock that was never
    /// started stays `Waiting`.
    pub open spec fn spec_resumed(self, now: u64) -> PlayStatus {
        match self {
            PlayStatus::Stopped(acc) => PlayStatus::Playing(now, acc),
            _ => self,
        }
    }

    /// The playback position at `now`, recomputed from the anchor.
    pub fn elapsed(&self, now: u64) -> (e: u64)
        requires
            self.wf(now),
        ensures
            e == self.spec_elapsed(now),
    {
        match self {
            PlayStatus::Waiting => 0,
            PlayStatus::Playing(anchor, acc) => acc + (now - anchor),
            PlayStatus::Stopped(acc) => *acc,
        }
    }

    /// Start or resume the clock at `now`.
    pub fn started(&self, now: u64) -> (s: PlayStatus)
        requires
            self.wf(now),
        ensures
            s == self.spec_started(now),
            s.wf(now),
    {
        match self {
            PlayStatus::Waiting => PlayStatus::Playing(now, 0),
            PlayStatus::Playing(anchor, acc) => PlayStatus::Playing(*anchor, *acc),
            PlayStatus::Stopped(acc) => PlayStatus::Playing(now, *acc),
        }
    }

    /// Resume a paused clock at `now`, keeping its accumulated time.
    pub fn resumed(&self, now: u64) -> (s: PlayStatus)
        requires
            self.wf(now),
        ensures
            s == self.spec_resumed(now),
            s.wf(now),
    {
        match self {
            PlayStatus::Stopped(acc) => PlayStatus::Playing(now, *acc),
            PlayStatus::Waiting => PlayStatus::Waiting,
            PlayStatus::Playing(anchor, acc) => PlayStatus::Playing(*anchor, *acc),
        }
    }

    /// Pause the clock at `now`, folding the running period into the
    /// accumulated time.
    pub fn paused(&self, now: u64) -> (s: PlayStatus)
        requires
            self.wf(now),
        ensures
            s == self.spec_paused(now),
            s.wf(now),
    {
        match self {
            PlayStatus::Playing(anchor, acc) => PlayStatus::Stopped(acc + (now - anchor)),
            PlayStatus::Waiting => PlayStatus::Waiting,
            PlayStatus::Stopped(acc) => PlayStatus::Stopped(*acc),
        }
    }
}

/// Well-formedness carries forward in time.
pub proof fn lemma_wf_later(s: PlayStatus, now: u64, later: u64)
    requires
        s.wf(now),
        now <= later,
    ensures
        s.wf(later),
{
}

/// While the clock is running, the position never decreases.
pub proof fn lemma_elapsed_monotonic(s: PlayStatus, t1: u64, t2: u64)
    requires
        s.wf(t1),
        t1 <= t2,
    ensures
        s.spec_elapsed(t1) <= s.spec_elapsed(t2),
{
}

/// One call made on the clock of a track: a play or resume, a pause, or a
/// mere poll, each at the clock reading given in the event.
#[derive(Clone, Copy, Debug, PartialEq, Eq, Structural)]
pub enum ClockEvent {
    Start(u64),
    Pause(u64),
    Poll(u64),
}

impl ClockEvent {
    /// The clock reading at which the event happens.
    pub open spec fn time(self) -> u64 {
        match self {
            ClockEvent::Start(t) => t,
            ClockEvent::Pause(t) => t,
            ClockEvent::Poll(t) => t,
        }
    }
}

/// The state after one event.
pub open spec fn apply_event(s: PlayStatus, e: ClockEvent) -> PlayStatus {
    match e {
        ClockEvent::Start(t) => s.spec_started(t),
        ClockEvent::Pause(t) => s.spec_paused(t),
        ClockEvent::Poll(t) => s,
    }
}

/// The state after a whole sequence of events.
pub open spec fn run_events(s: PlayStatus, evs: Seq<ClockEvent>) -> PlayStatus
    decreases evs.len(),
{
    if evs.len() == 0 {
        s
    } else {
        run_events(apply_event(s, evs[0]), evs.subrange(1, evs.len() as int))
    }
}

/// Event times all lie in `[lo, hi]` and never go backwards.
pub open spec fn times_ordered(evs: Seq<ClockEvent>, lo: u64, hi: u64) -> bool {
    &&& forall|i: int| 0 <= i < evs.len() ==> lo <= #[trigger] evs[i].time() <= hi
    &&& forall|i: int, j: int| 0 <= i < j < evs.len() ==> #[trigger] evs[i].time() <= #[trigger] evs[j].time()
}

/// The sum of the lengths of the playing periods that the events describe,
/// measured up to the clock reading `end`. `since` is the anchor of a period
/// that is already running when the events begin, if one is.
pub open spec fn playing_time(since: Option<u64>, evs: Seq<ClockEvent>, end: u64) -> int
    decreases evs.len(),
{
    if evs.len() == 0 {
        match since {
            Option::None => 0,
            Option::Some(a) => end - a,
        }
    } else {
        let rest = evs.subrange(1, evs.len() as int);
        match evs[0] {
            ClockEvent::Start(t) => match since {
                Option::None => playing_time(Option::Some(t), rest, end),
                Option::Some(a) => playing_time(Option::Some(a), rest, end),
            },
            ClockEvent::Pause(t) => match since {
                Option::None => playing_time(Option::None, rest, end),
                Option::Some(a) => t - a + playing_time(Option::None, rest, end),
            },
            ClockEvent::Poll(t) => playing_time(since, rest, end),
        }
    }
}

/// The anchor of the running period of a state, if it is running.
pub open spec fn running_since(s: PlayStatus) -> Option<u64> {
    match s {
        PlayStatus::Playing(anchor, acc) => Option::Some(anchor),
        _ => Option::None,
    }
}

/// The time a state had accumulated before its current running period.
pub open spec fn banked(s: PlayStatus) -> int {
    match s {
        PlayStatus::Waiting => 0,
        PlayStatus::Playing(anchor, acc) => acc as int,
        PlayStatus::Stopped(acc) => acc as int,
    }
}

/// Freedom from drift: after any sequence of play, pause and poll calls, the
/// clock reads exactly the time it had already banked plus the sum of the
/// playing periods, however often it was polled in between.
pub proof fn lemma_elapsed_is_playing_time(s: PlayStatus, evs: Seq<ClockEvent>, lo: u64, end: u64)
    requires
        s.wf(lo),
        lo <= end,
        times_ordered(evs, lo, end),
    ensures
        run_events(s, evs).wf(end),
        run_events(s, evs).spec_elapsed(end) == banked(s) + playing_time(running_since(s), evs, end),
    decreases evs.len(),
{
    if evs.len() == 0 {
        lemma_wf_later(s, lo, end);
    } else {
        let t = evs[0].time();
        let s1 = apply_event(s, evs[0]);
        let rest = evs.subrange(1, evs.len() as int);
        lemma_wf_later(s, lo, t);
        assert(s1.wf(t));
        assert(times_ordered(rest, t, end)) by {
            assert(forall|i: int| 0 <= i < rest.len() ==> rest[i] == evs[i + 1]);
        }
        lemma_elapsed_is_playing_time(s1, rest, t, end);
    }
}

} // verus!
