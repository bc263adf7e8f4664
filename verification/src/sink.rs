//! The output sink, as the state the player owns and controls.
//!
//! The physical device stream is run by the embedding driver; everything the
//! players decide about it — whether it is paused, what volume it is set to,
//! whether a decode stream is bound, how many audio buffers are queued — is
//! held and updated here, and the driver mirrors this state onto the device.
//! Volume is measured in thousandths of full volume and clamped to
//! `[0, MAX_VOLUME]` on every set, and rebinding the sink to a new track
//! always preserves the volume setting.

use vstd::prelude::*;

verus! {

/// Full volume, in thousandths.
pub const MAX_VOLUME: u64 = 1000;

/// The state of the output sink: volume in thousandths of full volume,
/// whether playback is paused, whether a decode stream is currently bound
/// (`live`), and how many appended audio buffers it still holds.
#[derive(Clone, Copy, Debug, PartialEq, Eq, Structural)]
pub struct AudioSink {
    pub volume: u64,
    pub paused: bool,
    pub live: bool,
    pub queued: u64,
}

impl AudioSink {
    /// The volume never exceeds full volume.
    pub open spec fn wf(self) -> bool {
        self.volume <= MAX_VOLUME
    }

    /// A clamped volume request.
    pub open spec fn spec_clamped(v: i64) -> u64 {
        if v < 0 {
            0u64
        } else if v > MAX_VOLUME {
            MAX_VOLUME
        } else {
            v as u64
        }
    }

    /// A fresh sink: full volume, not paused, nothing bound or queued.
    pub fn new() -> (s: AudioSink)
        ensures
            s == (AudioSink { volume: MAX_VOLUME, paused: false, live: false, queued: 0 }),
    {
        AudioSink { volume: MAX_VOLUME, paused: false, live: false, queued: 0 }
    }

    /// Resume output.
    pub fn play(&mut self)
        ensures
            *final(self) == (AudioSink { paused: false, ..*old(self) }),
    {
        self.paused = false;
    }

    /// Pause output, keeping everything queued.
    pub fn pause(&mut self)
        ensures
            *final(self) == (AudioSink { paused: true, ..*old(self) }),
    {
        self.paused = true;
    }

    /// Stop output: drops all queued audio immediately and unbinds the
    /// decode stream; the volume setting survives.
    pub fn stop(&mut self)
        ensures
            *final(self) == (AudioSink { live: false, queued: 0, ..*old(self) }),
    {
        self.live = false;
        self.queued = 0;
    }

    /// Append one decoded audio buffer; the count saturates rather than
    /// wrapping.
    pub fn append(&mut self)
        ensures
            *final(self) == (AudioSink {
                queued: if old(self).queued < u64::MAX { (old(self).queued + 1) as u64 } else { u64::MAX },
                ..*old(self)
            }),
    {
        if self.queued < u64::MAX {
            self.queued = self.queued + 1;
        }
    }

    /// Rebind the sink to a freshly decoded track: the old stream is dropped
    /// and a new one starts playing with the track's one decode stream
    /// queued. The volume setting is preserved across the swap.
    pub fn rebind(&mut self)
        ensures
            *final(self) == (AudioSink {
                volume: old(self).volume,
                paused: false,
                live: true,
                queued: 1,
            }),
    {
        self.paused = false;
        self.live = true;
        self.queued = 1;
    }

    /// The current volume, in thousandths of full volume.
    pub fn volume(&self) -> (v: u64)
        ensures
            v == self.volume,
    {
        self.volume
    }

    /// Set the volume; every request is clamped to `[0, MAX_VOLUME]`.
    pub fn set_volume(&mut self, v: i64)
        ensures
            *final(self) == (AudioSink { volume: AudioSink::spec_clamped(v), ..*old(self) }),
            final(self).wf(),
    {
        let clamped: u64 = if v < 0 {
            0
        } else if v > MAX_VOLUME as i64 {
            MAX_VOLUME
        } else {
            v as u64
        };
        self.volume = clamped;
    }

    /// Whether output is paused.
    pub fn is_paused(&self) -> (p: bool)
        ensures
            p == self.paused,
    {
        self.paused
    }
}

} // verus!
