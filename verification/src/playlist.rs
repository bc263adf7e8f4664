//! The playlist queue: an ordered, finite sequence of track descriptors.
//! Insertion order is play order; the head is the active track, and it is
//! removed only when playback of it has completed or it is skipped.

use vstd::prelude::*;

use crate::clock::PlayStatus;
use crate::lyrics::{Lyric, LyricModel, Lyrics};

verus! {

/// One queued track: display name, total duration and current position in
/// milliseconds, its playback clock, its source path, its lyric lines and
/// the cursor into them.
pub struct PlayListItem {
    pub name: String,
    pub duration: u64,
    pub current_pos: u64,
    pub status: PlayStatus,
    pub path: String,
    pub lyrics: Lyrics,
    pub lyrics_index: usize,
}

/// The mathematical value of one queued track.
#[verifier::ext_equal]
pub struct ItemModel {
    pub name: Seq<char>,
    pub duration: u64,
    pub current_pos: u64,
    pub status: PlayStatus,
    pub path: Seq<char>,
    pub lyrics: Seq<LyricModel>,
    pub lyrics_index: nat,
}

impl ItemModel {
    /// Well-formed at clock reading `now`: the playback clock is, and the
    /// lyric cursor rests on a line when there are any.
    pub open spec fn wf(self, now: u64) -> bool {
        &&& self.status.wf(now)
        &&& (self.lyrics_index == 0 || self.lyrics_index < self.lyrics.len())
    }
}

impl View for PlayListItem {
    type V = ItemModel;

    open spec fn view(&self) -> ItemModel {
        ItemModel {
            name: self.name@,
            duration: self.duration,
            current_pos: self.current_pos,
            status: self.status,
            path: self.path@,
            lyrics: self.lyrics@,
            lyrics_index: self.lyrics_index as nat,
        }
    }
}

impl DeepView for PlayListItem {
    type V = ItemModel;

    open spec fn deep_view(&self) -> ItemModel {
        self.view()
    }
}

/// The playlist queue; `lists[0]` is the active track.
pub struct PlayList {
    pub lists: Vec<PlayListItem>,
}

impl View for PlayList {
    type V = Seq<ItemModel>;

    open spec fn view(&self) -> Seq<ItemModel> {
        self.lists.deep_view()
    }
}

impl PlayList {
    /// Whether the queue holds no track.
    pub fn is_empty(&self) -> (r: bool)
        ensures
            r == (self@.len() == 0),
    {
        self.lists.is_empty()
    }

    /// How many tracks are queued.
    pub fn len(&self) -> (n: usize)
        ensures
            n == self@.len(),
    {
        self.lists.len()
    }

    /// Append a track — or, when `replace_all` is asked or the queue is
    /// empty, replace the whole queue with it. (Resetting the sink on a
    /// replace is the player's part; see `MusicPlayer::add_to_list`.)
    pub fn push(&mut self, item: PlayListItem, replace_all: bool)
        ensures
            final(self)@ == if replace_all || old(self)@.len() == 0 {
                seq![item@]
            } else {
                old(self)@.push(item@)
            },
            final(self).lists@ == if replace_all || old(self)@.len() == 0 {
                seq![item]
            } else {
                old(self).lists@.push(item)
            },
    {
        let ghost item_model = item@;
        if replace_all || self.lists.is_empty() {
            self.lists.clear();
        }
        self.lists.push(item);
        proof {
            if replace_all || old(self)@.len() == 0 {
                assert(self@ =~= seq![item_model]);
            } else {
                assert(self@ =~= old(self)@.push(item_model));
            }
        }
    }

    /// Drop the head, promoting the next track; reports whether there was a
    /// head to drop.
    pub fn advance(&mut self) -> (r: bool)
        ensures
            r == (old(self)@.len() > 0),
            r ==> final(self)@ == old(self)@.subrange(1, old(self)@.len() as int),
            r ==> final(self).lists@ == old(self).lists@.subrange(1, old(self).lists@.len() as int),
            !r ==> *final(self) == *old(self),
    {
        if self.lists.len() > 0 {
            self.lists.remove(0);
            proof {
                assert(self@ =~= old(self)@.subrange(1, old(self)@.len() as int));
            }
            true
        } else {
            false
        }
    }

    /// The active track, if there is one.
    pub fn head(&self) -> (r: Option<&PlayListItem>)
        ensures
            match r {
                Option::Some(item) => self@.len() > 0 && item@ == self@[0],
                Option::None => self@.len() == 0,
            },
    {
        if self.lists.len() > 0 {
            Option::Some(&self.lists[0])
        } else {
            Option::None
        }
    }
}

} // verus!
