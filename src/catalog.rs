//! Plain records of the track catalog, and the album index built from them.
//!
//! Reading and writing the catalog's storage is left to the caller; the
//! records here carry the values that the player and the views need.

use std::collections::VecDeque;

use vstd::prelude::*;

verus! {

/// Text of an optional tag, as characters.
pub open spec fn text_of(t: Option<String>) -> Option<Seq<char>> {
    match t {
        Some(s) => Some(s@),
        None => None,
    }
}

/// Copies an optional tag, keeping it exactly.
pub fn copy_text(t: &Option<String>) -> (r: Option<String>)
    ensures
        r == *t,
{
    match t {
        Some(s) => Some(s.clone()),
        None => None,
    }
}

/// Whether two optional tags hold the same text.
pub fn same_text(a: &Option<String>, b: &Option<String>) -> (r: bool)
    ensures
        r == (text_of(*a) == text_of(*b)),
{
    match (a, b) {
        (Some(x), Some(y)) => x.eq(y),
        (None, None) => true,
        _ => false,
    }
}

/// A track of the catalog: a file path and the tags read from it. `id` is
/// set once the track has been stored.
#[derive(Debug)]
pub struct Track {
    pub id: Option<i32>,
    pub path: String,
    pub title: Option<String>,
    pub artist: Option<String>,
    pub album: Option<String>,
    pub track_num: Option<i32>,
}

impl Track {
    /// Two tracks describe the same file with the same tags; the storage
    /// id does not take part.
    pub open spec fn same_as(&self, o: &Track) -> bool {
        &&& self.path@ == o.path@
        &&& text_of(self.title) == text_of(o.title)
        &&& text_of(self.artist) == text_of(o.artist)
        &&& text_of(self.album) == text_of(o.album)
        &&& self.track_num == o.track_num
    }
}

impl Clone for Track {
    fn clone(&self) -> (r: Track)
        ensures
            r == *self,
    {
        Track {
            id: self.id,
            path: self.path.clone(),
            title: copy_text(&self.title),
            artist: copy_text(&self.artist),
            album: copy_text(&self.album),
            track_num: self.track_num,
        }
    }
}

impl PartialEq for Track {
    fn eq(&self, o: &Track) -> (r: bool) {
        self.path.eq(&o.path) && same_text(&self.title, &o.title) && same_text(&self.artist, &o.artist)
            && same_text(&self.album, &o.album) && self.track_num == o.track_num
    }
}

impl vstd::std_specs::cmp::PartialEqSpecImpl for Track {
    open spec fn obeys_eq_spec() -> bool {
        true
    }

    open spec fn eq_spec(&self, o: &Track) -> bool {
        self.same_as(o)
    }
}

/// A track to be stored, whose id the storage picks.
#[derive(Debug)]
pub struct TrackNoId {
    pub path: String,
    pub title: Option<String>,
    pub artist: Option<String>,
    pub album: Option<String>,
    pub track_num: Option<i32>,
}

impl From<Track> for TrackNoId {
    fn from(t: Track) -> (r: TrackNoId) {
        TrackNoId { path: t.path, title: t.title, artist: t.artist, album: t.album, track_num: t.track_num }
    }
}

impl vstd::std_specs::convert::FromSpecImpl<Track> for TrackNoId {
    open spec fn obeys_from_spec() -> bool {
        true
    }

    open spec fn from_spec(t: Track) -> TrackNoId {
        TrackNoId { path: t.path, title: t.title, artist: t.artist, album: t.album, track_num: t.track_num }
    }
}

/// A directory or file whose contents the catalog follows.
#[derive(Debug)]
pub struct TrackedPath {
    pub id: Option<i32>,
    pub path: String,
}

impl Clone for TrackedPath {
    fn clone(&self) -> (r: TrackedPath)
        ensures
            r == *self,
    {
        TrackedPath { id: self.id, path: self.path.clone() }
    }
}

impl PartialEq for TrackedPath {
    fn eq(&self, o: &TrackedPath) -> (r: bool) {
        self.id == o.id && self.path.eq(&o.path)
    }
}

impl vstd::std_specs::cmp::PartialEqSpecImpl for TrackedPath {
    open spec fn obeys_eq_spec() -> bool {
        true
    }

    open spec fn eq_spec(&self, o: &TrackedPath) -> bool {
        self.id == o.id && self.path@ == o.path@
    }
}

/// A tracked path to be stored, whose id the storage picks.
#[derive(Debug)]
pub struct TrackedPathNoId {
    pub path: String,
}

impl From<TrackedPath> for TrackedPathNoId {
    fn from(t: TrackedPath) -> (r: TrackedPathNoId) {
        TrackedPathNoId { path: t.path }
    }
}

impl vstd::std_specs::convert::FromSpecImpl<TrackedPath> for TrackedPathNoId {
    open spec fn obeys_from_spec() -> bool {
        true
    }

    open spec fn from_spec(t: TrackedPath) -> TrackedPathNoId {
        TrackedPathNoId { path: t.path }
    }
}

/// Hands out stored tracks one at a time, in the order given.
pub struct TrackIter {
    tracks: VecDeque<Track>,
}

impl View for TrackIter {
    type V = Seq<Track>;

    closed spec fn view(&self) -> Seq<Track> {
        self.tracks@
    }
}

impl TrackIter {
    pub fn from_tracks(tracks: &Vec<Track>) -> (r: TrackIter)
        ensures
            r@ == tracks@,
    {
        let mut q: VecDeque<Track> = VecDeque::new();
        let mut i: usize = 0;
        while i < tracks.len()
            invariant
                i <= tracks@.len(),
                q@ == tracks@.subrange(0, i as int),
            decreases tracks@.len() - i,
        {
            q.push_back(tracks[i].clone());
            i = i + 1;
            assert(q@ =~= tracks@.subrange(0, i as int));
        }
        assert(tracks@.subrange(0, tracks@.len() as int) =~= tracks@);
        TrackIter { tracks: q }
    }

    /// The next track, if any is left.
    pub fn next(&mut self) -> (r: Option<Track>)
        ensures
            old(self)@.len() == 0 ==> r is None && final(self)@ == old(self)@,
            old(self)@.len() > 0 ==> r == Some(old(self)@[0]) && final(self)@ == old(self)@.drop_first(),
    {
        let r = self.tracks.pop_front();
        assert(old(self)@.len() > 0 ==> old(self)@.subrange(1, old(self)@.len() as int) =~= old(self)@.drop_first());
        r
    }
}

/// Hands out tracked paths one at a time, in the order given.
pub struct TrackedPathIter {
    tracked_paths: VecDeque<TrackedPath>,
}

impl View for TrackedPathIter {
    type V = Seq<TrackedPath>;

    closed spec fn view(&self) -> Seq<TrackedPath> {
        self.tracked_paths@
    }
}

impl TrackedPathIter {
    pub fn from_paths(paths: &Vec<TrackedPath>) -> (r: TrackedPathIter)
        ensures
            r@ == paths@,
    {
        let mut q: VecDeque<TrackedPath> = VecDeque::new();
        let mut i: usize = 0;
        while i < paths.len()
            invariant
                i <= paths@.len(),
                q@ == paths@.subrange(0, i as int),
            decreases paths@.len() - i,
        {
            q.push_back(paths[i].clone());
            i = i + 1;
            assert(q@ =~= paths@.subrange(0, i as int));
        }
        assert(paths@.subrange(0, paths@.len() as int) =~= paths@);
        TrackedPathIter { tracked_paths: q }
    }

    /// The next tracked path, if any is left.
    pub fn next(&mut self) -> (r: Option<TrackedPath>)
        ensures
            old(self)@.len() == 0 ==> r is None && final(self)@ == old(self)@,
            old(self)@.len() > 0 ==> r == Some(old(self)@[0]) && final(self)@ == old(self)@.drop_first(),
    {
        let r = self.tracked_paths.pop_front();
        assert(old(self)@.len() > 0 ==> old(self)@.subrange(1, old(self)@.len() as int)
            =~= old(self)@.drop_first());
        r
    }
}

/// The tracks of one album.
#[derive(Debug)]
pub struct Album {
    pub album: String,
    pub track_list: Vec<Track>,
}

/// Whether a track belongs to the album of this title.
pub open spec fn in_album(t: Track, title: Seq<char>) -> bool {
    text_of(t.album) == Some(title)
}

/// The test for tracks of the album with this title.
pub open spec fn of_album(title: Seq<char>) -> spec_fn(Track) -> bool {
    |t: Track| in_album(t, title)
}

/// `k` is the album of one of `tracks`.
pub open spec fn is_album_of(tracks: Seq<Track>, k: Seq<char>) -> bool {
    exists|i: int| 0 <= i < tracks.len() && #[trigger] text_of(tracks[i].album) == Some(k)
}

fn lists_key(keys: &Vec<String>, k: &String) -> (r: bool)
    ensures
        r == exists|j: int| 0 <= j < keys@.len() && #[trigger] keys@[j]@ == k@,
{
    let mut j: usize = 0;
    while j < keys.len()
        invariant
            j <= keys@.len(),
            forall|m: int| 0 <= m < j ==> #[trigger] keys@[m]@ != k@,
        decreases keys@.len() - j,
    {
        if keys[j].eq(k) {
            return true;
        }
        j = j + 1;
    }
    false
}

impl Album {
    /// The tracks of the album with this title, in the order given.
    pub fn get_album(title: &str, tracks: &Vec<Track>) -> (r: Album)
        ensures
            r.album@ == title@,
            r.track_list@ == tracks@.filter(of_album(title@)),
    {
        let key = title.to_owned();
        let mut list: Vec<Track> = Vec::new();
        let mut i: usize = 0;
        while i < tracks.len()
            invariant
                i <= tracks@.len(),
                key@ == title@,
                list@ == tracks@.subrange(0, i as int).filter(of_album(title@)),
            decreases tracks@.len() - i,
        {
            let ghost before = tracks@.subrange(0, i as int);
            let keep = match &tracks[i].album {
                Some(a) => a.eq(&key),
                None => false,
            };
            if keep {
                list.push(tracks[i].clone());
            }
            i = i + 1;
            proof {
                let after = tracks@.subrange(0, i as int);
                assert(after.drop_last() =~= before);
                assert(after.last() == tracks@[i - 1]);
                reveal(Seq::filter);
                assert(keep == of_album(title@)(tracks@[i - 1]));
            }
        }
        assert(tracks@.subrange(0, tracks@.len() as int) =~= tracks@);
        Album { album: key, track_list: list }
    }

    /// Every album title that some track carries, each once.
    pub fn get_all_album_keys(tracks: &Vec<Track>) -> (r: Vec<String>)
        ensures
            forall|j: int| 0 <= j < r@.len() ==> is_album_of(tracks@, #[trigger] r@[j]@),
            forall|k: Seq<char>| is_album_of(tracks@, k) ==> exists|j: int| 0 <= j < r@.len() && #[trigger] r@[j]@ == k,
            forall|j1: int, j2: int| 0 <= j1 < j2 < r@.len() ==> r@[j1]@ != r@[j2]@,
    {
        let mut keys: Vec<String> = Vec::new();
        let mut i: usize = 0;
        while i < tracks.len()
            invariant
                i <= tracks@.len(),
                forall|j: int| 0 <= j < keys@.len() ==> is_album_of(tracks@.subrange(0, i as int), #[trigger] keys@[j]@),
                forall|k: Seq<char>| is_album_of(tracks@.subrange(0, i as int), k) ==>
                    exists|j: int| 0 <= j < keys@.len() && #[trigger] keys@[j]@ == k,
                forall|j1: int, j2: int| 0 <= j1 < j2 < keys@.len() ==> keys@[j1]@ != keys@[j2]@,
            decreases tracks@.len() - i,
        {
            let ghost before = tracks@.subrange(0, i as int);
            let ghost old_keys = keys@;
            match &tracks[i].album {
                Some(a) => {
                    if !lists_key(&keys, a) {
                        keys.push(a.clone());
                    }
                },
                None => {},
            }
            i = i + 1;
            proof {
                let after = tracks@.subrange(0, i as int);
                assert forall|j: int| 0 <= j < keys@.len() implies is_album_of(after, #[trigger] keys@[j]@) by {
                    if j < old_keys.len() {
                        let m = choose|m: int| 0 <= m < before.len() && #[trigger] text_of(before[m].album) == Some(keys@[j]@);
                        assert(after[m] == before[m]);
                    } else {
                        assert(text_of(after[i - 1].album) == Some(keys@[j]@));
                    }
                }
                assert forall|k: Seq<char>| is_album_of(after, k) implies
                    exists|j: int| 0 <= j < keys@.len() && #[trigger] keys@[j]@ == k by {
                    let m = choose|m: int| 0 <= m < after.len() && #[trigger] text_of(after[m].album) == Some(k);
                    if m < i - 1 {
                        assert(before[m] == after[m]);
                        assert(is_album_of(before, k));
                        let j = choose|j: int| 0 <= j < old_keys.len() && #[trigger] old_keys[j]@ == k;
                        assert(keys@[j] == old_keys[j]);
                    } else {
                        if exists|j: int| 0 <= j < old_keys.len() && #[trigger] old_keys[j]@ == k {
                            let j = choose|j: int| 0 <= j < old_keys.len() && #[trigger] old_keys[j]@ == k;
                            assert(keys@[j] == old_keys[j]);
                        } else {
                            assert(keys@[keys@.len() - 1]@ == k);
                        }
                    }
                }
            }
        }
        assert(tracks@.subrange(0, tracks@.len() as int) =~= tracks@);
        keys
    }

    /// The album's tracks, in order.
    pub fn iter_tracks(&self) -> (r: &Vec<Track>)
        ensures
            r@ == self.track_list@,
    {
        &self.track_list
    }
}

} // verus!
