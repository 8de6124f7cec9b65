//! What is playing now: artist, title and progress, kept for display.

use vstd::prelude::*;

use crate::catalog::text_of;
use crate::notifier::{Notifier, NotifierView, SubscriberId};

verus! {

/// What the display shows of the track playing now, abstractly.
pub struct NowPlayingView {
    /// Seconds played.
    pub progress: u64,
    /// Length of the track in seconds.
    pub song_len: u64,
    pub artist: Seq<char>,
    pub song: Seq<char>,
}

/// Seconds of a backend query, where an unknown answer counts as zero.
pub open spec fn seconds_or_zero(q: Option<u64>) -> u64 {
    match q {
        Some(s) => s,
        None => 0,
    }
}

/// A tag read from the stream, where a missing one reads as empty.
pub open spec fn tag_or_empty(t: Option<String>) -> Seq<char> {
    match text_of(t) {
        Some(s) => s,
        None => Seq::empty(),
    }
}

pub struct NowPlaying {
    progress: u64,
    song_len: u64,
    artist: String,
    song: String,
    notifier: Notifier,
}

impl View for NowPlaying {
    type V = NowPlayingView;

    closed spec fn view(&self) -> NowPlayingView {
        NowPlayingView {
            progress: self.progress,
            song_len: self.song_len,
            artist: self.artist@,
            song: self.song@,
        }
    }
}

impl NowPlaying {
    /// The state of the change notifier.
    pub closed spec fn notices(&self) -> NotifierView {
        self.notifier@
    }

    /// Nothing playing: no progress, no length, empty tags.
    pub fn new() -> (r: NowPlaying)
        ensures
            r@ == (NowPlayingView { progress: 0, song_len: 0, artist: Seq::empty(), song: Seq::empty() }),
            r.notices().subscribers == 0,
            r.notices().pending == Seq::<SubscriberId>::empty(),
    {
        NowPlaying {
            progress: 0,
            song_len: 0,
            artist: String::new(),
            song: String::new(),
            notifier: Notifier::new(),
        }
    }

    /// Subscribes to changes.
    pub fn register_changed_cb(&mut self) -> (id: SubscriberId)
        requires
            old(self).notices().subscribers < usize::MAX,
        ensures
            id == old(self).notices().subscribers,
            final(self).notices().subscribers == old(self).notices().subscribers + 1,
            final(self).notices().pending == old(self).notices().pending,
            final(self)@ == old(self)@,
    {
        self.notifier.register()
    }

    /// Hands out the change notifications made since the last call.
    pub fn take_notifications(&mut self) -> (r: Vec<SubscriberId>)
        ensures
            r@ == old(self).notices().pending,
            final(self).notices().subscribers == old(self).notices().subscribers,
            final(self).notices().pending == Seq::<SubscriberId>::empty(),
            final(self)@ == old(self)@,
    {
        self.notifier.take_pending()
    }

    /// Replaces everything shown and notifies.
    pub fn set_contents(&mut self, progress: u64, song_len: u64, artist: String, song: String)
        ensures
            final(self)@ == (NowPlayingView { progress, song_len, artist: artist@, song: song@ }),
            final(self).notices() == old(self).notices().notified(),
    {
        self.progress = progress;
        self.song_len = song_len;
        self.artist = artist;
        self.song = song;
        self.notifier.notify();
    }

    /// Replaces artist and title and notifies.
    pub fn set_tags(&mut self, artist: String, song: String)
        ensures
            final(self)@ == (NowPlayingView { artist: artist@, song: song@, ..old(self)@ }),
            final(self).notices() == old(self).notices().notified(),
    {
        self.artist = artist;
        self.song = song;
        self.notifier.notify();
    }

    /// Replaces the progress and notifies.
    pub fn set_progress(&mut self, progress: u64, song_len: u64)
        ensures
            final(self)@ == (NowPlayingView { progress, song_len, ..old(self)@ }),
            final(self).notices() == old(self).notices().notified(),
    {
        self.progress = progress;
        self.song_len = song_len;
        self.notifier.notify();
    }

    /// The tags of a new stream: a missing tag reads as empty.
    pub fn on_tags_changed(&mut self, artist: Option<String>, title: Option<String>)
        ensures
            final(self)@ == (NowPlayingView {
                artist: tag_or_empty(artist),
                song: tag_or_empty(title),
                ..old(self)@
            }),
            final(self).notices() == old(self).notices().notified(),
    {
        let artist = match artist {
            Some(a) => a,
            None => String::new(),
        };
        let title = match title {
            Some(t) => t,
            None => String::new(),
        };
        self.set_tags(artist, title);
    }

    /// One periodic poll of the backend's position and duration, in
    /// seconds; an unknown answer counts as zero. The progress changes, and
    /// subscribers hear of it, only when a value differs from the one shown.
    pub fn poll_progress(&mut self, position: Option<u64>, duration: Option<u64>) -> (changed: bool)
        ensures
            changed == (seconds_or_zero(position) != old(self)@.progress || seconds_or_zero(duration)
                != old(self)@.song_len),
            changed ==> final(self)@ == (NowPlayingView {
                progress: seconds_or_zero(position),
                song_len: seconds_or_zero(duration),
                ..old(self)@
            }),
            changed ==> final(self).notices() == old(self).notices().notified(),
            !changed ==> final(self)@ == old(self)@ && final(self).notices() == old(self).notices(),
    {
        let new_position = match position {
            Some(s) => s,
            None => 0,
        };
        let new_duration = match duration {
            Some(s) => s,
            None => 0,
        };
        if new_position != self.progress || new_duration != self.song_len {
            self.set_progress(new_position, new_duration);
            true
        } else {
            false
        }
    }

    /// Seconds played and length of the track, in seconds.
    pub fn get_song_progress(&self) -> (r: (u64, u64))
        ensures
            r == (self@.progress, self@.song_len),
    {
        (self.progress, self.song_len)
    }

    pub fn get_artist(&self) -> (r: String)
        ensures
            r@ == self@.artist,
    {
        self.artist.clone()
    }

    pub fn get_song_name(&self) -> (r: String)
        ensures
            r@ == self@.song,
    {
        self.song.clone()
    }
}

} // verus!
