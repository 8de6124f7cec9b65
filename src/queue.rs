//! The playback queue: tracks interleaved with directives that shuffle or
//! repeat, a cursor on the item last handed out, and the resolution of
//! "what plays next".

use rand::seq::SliceRandom;
use vstd::prelude::*;

use crate::catalog::{text_of, Track};
use crate::notifier::{Notifier, NotifierView, SubscriberId};

verus! {

/// How many resolution steps one `next_song` may take before it gives the
/// queue up as cyclic and clears it.
pub const MAX_RESOLUTION_STEPS: usize = 1000;

/// One entry of the queue: something to play, or a directive that changes
/// how the queue is walked.
#[derive(Debug)]
pub enum QueueItem {
    /// A file to play, by path.
    Path(String),
    /// A catalog track to play.
    Track(Track),
    /// Put the items after the cursor in a random order.
    ShuffleAfter,
    /// Put the whole queue in a random order.
    ShuffleAll,
    /// Go back to the start of the queue.
    RepeatQueue,
    /// Play the item before this one the given number of extra times.
    RepeatSongTimes(usize),
    /// Play the item before this one again, for ever.
    RepeatSongForever,
}

impl QueueItem {
    /// Items that can be handed to the player.
    pub open spec fn is_playable(self) -> bool {
        self is Path || self is Track
    }

    /// Directives that replay the item before them.
    pub open spec fn is_repeat(self) -> bool {
        self is RepeatSongTimes || self is RepeatSongForever
    }

    /// The path of a playable item.
    pub open spec fn path_view(self) -> Option<Seq<char>> {
        match self {
            QueueItem::Path(p) => Some(p@),
            QueueItem::Track(t) => Some(t.path@),
            _ => None,
        }
    }

    pub fn new_from_path(path: &str) -> (r: QueueItem)
        ensures
            r is Path,
            r.path_view() == Some(path@),
    {
        QueueItem::Path(path.to_owned())
    }

    pub fn new_from_track(track: Track) -> (r: QueueItem)
        ensures
            r == QueueItem::Track(track),
    {
        QueueItem::Track(track)
    }

    /// The path to play, for the items that can be played.
    pub fn get_path(&self) -> (r: Option<&str>)
        ensures
            text_of_str(r) == self.path_view(),
    {
        match self {
            QueueItem::Path(p) => Some(p.as_str()),
            QueueItem::Track(t) => Some(t.path.as_str()),
            _ => None,
        }
    }
}

/// Text of an optional borrowed string, as characters.
pub open spec fn text_of_str(t: Option<&str>) -> Option<Seq<char>> {
    match t {
        Some(s) => Some(s@),
        None => None,
    }
}

impl Clone for QueueItem {
    fn clone(&self) -> (r: QueueItem)
        ensures
            r == *self,
    {
        match self {
            QueueItem::Path(p) => QueueItem::Path(p.clone()),
            QueueItem::Track(t) => QueueItem::Track(t.clone()),
            QueueItem::ShuffleAfter => QueueItem::ShuffleAfter,
            QueueItem::ShuffleAll => QueueItem::ShuffleAll,
            QueueItem::RepeatQueue => QueueItem::RepeatQueue,
            QueueItem::RepeatSongTimes(n) => QueueItem::RepeatSongTimes(*n),
            QueueItem::RepeatSongForever => QueueItem::RepeatSongForever,
        }
    }
}

/// What a queue is, abstractly.
pub struct QueueView {
    /// The items, in queue order.
    pub items: Seq<QueueItem>,
    /// The item last handed out; `None` before the start.
    pub cursor: Option<usize>,
    /// How many times the repeat directive after the cursor has replayed.
    pub repeat_count: usize,
}

impl QueueView {
    /// The index looked at next.
    pub open spec fn next_index(self) -> int {
        match self.cursor {
            Some(c) => c + 1,
            None => 0,
        }
    }

    /// The cursor stands on an item, and a repeat count is only kept while a
    /// repeat directive follows the cursor.
    pub open spec fn wf(self) -> bool {
        &&& self.cursor matches Some(c) ==> c < self.items.len()
        &&& self.repeat_count != 0 ==> {
            &&& self.next_index() < self.items.len()
            &&& self.items[self.next_index()].is_repeat()
        }
    }

    /// The item under the cursor, where it can be played.
    pub open spec fn current_playable(self) -> Option<QueueItem> {
        match self.cursor {
            Some(c) => if c < self.items.len() && self.items[c as int].is_playable() {
                Some(self.items[c as int])
            } else {
                None
            },
            None => None,
        }
    }

    /// The same items with the cursor moved and the repeat count reset.
    pub open spec fn moved_to(self, cursor: Option<usize>) -> QueueView {
        QueueView { items: self.items, cursor, repeat_count: 0 }
    }

    /// The same state holding other items.
    pub open spec fn with_items(self, items: Seq<QueueItem>) -> QueueView {
        QueueView { items, cursor: self.cursor, repeat_count: self.repeat_count }
    }
}

/// The empty queue.
pub open spec fn cleared() -> QueueView {
    QueueView { items: Seq::empty(), cursor: None, repeat_count: 0 }
}

/// `b` is `a` with the items from `start` on put in some order.
pub open spec fn shuffled(a: Seq<QueueItem>, start: int, b: Seq<QueueItem>) -> bool {
    &&& b.len() == a.len()
    &&& b.subrange(0, start) == a.subrange(0, start)
    &&& b.to_multiset() == a.to_multiset()
}

/// One step of resolving the next song.
pub enum Step {
    /// Resolution ends in this state, handing out this item (or none).
    Yield(QueueView, Option<QueueItem>),
    /// Resolution goes on from this state.
    Advance(QueueView),
    /// The items of this state from the index given on are put in a random
    /// order, then resolution goes on.
    Shuffle(QueueView, int),
}

/// Saturating increment of a repeat count.
pub open spec fn bumped(n: usize) -> usize {
    if n < usize::MAX {
        (n + 1) as usize
    } else {
        n
    }
}

/// What the item after the cursor makes of the queue.
pub open spec fn step(s: QueueView) -> Step {
    let i = s.next_index();
    if i >= s.items.len() {
        Step::Yield(s.moved_to(None), None)
    } else {
        let here = s.moved_to(Some(i as usize));
        match s.items[i] {
            QueueItem::Path(_) => Step::Yield(here, Some(s.items[i])),
            QueueItem::Track(_) => Step::Yield(here, Some(s.items[i])),
            QueueItem::RepeatSongTimes(n) => if s.repeat_count < n && s.current_playable() is Some {
                Step::Yield(
                    QueueView { repeat_count: (s.repeat_count + 1) as usize, ..s },
                    s.current_playable(),
                )
            } else {
                Step::Advance(here)
            },
            QueueItem::RepeatSongForever => if s.current_playable() is Some {
                Step::Yield(
                    QueueView { repeat_count: bumped(s.repeat_count), ..s },
                    s.current_playable(),
                )
            } else {
                Step::Advance(here)
            },
            QueueItem::ShuffleAll => Step::Shuffle(s.moved_to(Some(0)), 0),
            QueueItem::ShuffleAfter => Step::Shuffle(here, i),
            QueueItem::RepeatQueue => Step::Advance(s.moved_to(None)),
        }
    }
}

/// Resolving from `s` with at most `fuel` steps can end in state `t`
/// handing out `r`. When the steps run out the queue is cleared.
pub open spec fn resolves(s: QueueView, fuel: nat, t: QueueView, r: Option<QueueItem>) -> bool
    decreases fuel,
{
    if fuel == 0 {
        t == cleared() && r is None
    } else {
        match step(s) {
            Step::Yield(s2, r2) => t == s2 && r == r2,
            Step::Advance(s2) => resolves(s2, (fuel - 1) as nat, t, r),
            Step::Shuffle(s2, start) => exists|p: Seq<QueueItem>|
                #[trigger] shuffled(s2.items, start, p) && resolves(
                    s2.with_items(p),
                    (fuel - 1) as nat,
                    t,
                    r,
                ),
        }
    }
}

proof fn lemma_advance_step(s: QueueView, s2: QueueView, fuel: nat)
    requires
        fuel > 0,
        step(s) == Step::Advance(s2),
    ensures
        forall|t: QueueView, r: Option<QueueItem>|
            resolves(s2, (fuel - 1) as nat, t, r) ==> #[trigger] resolves(s, fuel, t, r),
{
}

proof fn lemma_shuffle_step(s: QueueView, s2: QueueView, start: int, p: Seq<QueueItem>, fuel: nat)
    requires
        fuel > 0,
        step(s) == Step::Shuffle(s2, start),
        shuffled(s2.items, start, p),
    ensures
        forall|t: QueueView, r: Option<QueueItem>|
            resolves(s2.with_items(p), (fuel - 1) as nat, t, r) ==> #[trigger] resolves(s, fuel, t, r),
{
    assert forall|t: QueueView, r: Option<QueueItem>|
        resolves(s2.with_items(p), (fuel - 1) as nat, t, r) implies #[trigger] resolves(s, fuel, t, r) by {
        assert(shuffled(s2.items, start, p));
        assert(step(s) matches Step::Shuffle(a, b) && a == s2 && b == start);
        assert(resolves(s, fuel, t, r) == (exists|q: Seq<QueueItem>|
            #[trigger] shuffled(s2.items, start, q) && resolves(s2.with_items(q), (fuel - 1) as nat, t, r)));
    }
}

/// Path of an item handed out, if any.
pub open spec fn path_of(r: Option<QueueItem>) -> Option<Seq<char>> {
    match r {
        Some(item) => item.path_view(),
        None => None,
    }
}

/// Relies on rand's `SliceRandom::shuffle` with `thread_rng`: the items from
/// `start` on come back in a random order, those before stay in place.
#[verifier::external_body]
fn shuffle_from(items: &mut Vec<QueueItem>, start: usize)
    requires
        start <= old(items)@.len(),
    ensures
        shuffled(old(items)@, start as int, final(items)@),
{
    items[start..].shuffle(&mut rand::thread_rng());
}

/// What the item after the cursor is, without its contents.
enum Peeked {
    Playable,
    RepeatTimes(usize),
    RepeatForever,
    ShuffleAll,
    ShuffleAfter,
    RepeatQueue,
}

pub struct Queue {
    items: Vec<QueueItem>,
    cur_idx: Option<usize>,
    cur_repeat_count: usize,
    notifier: Notifier,
}

impl View for Queue {
    type V = QueueView;

    closed spec fn view(&self) -> QueueView {
        QueueView { items: self.items@, cursor: self.cur_idx, repeat_count: self.cur_repeat_count }
    }
}

impl Queue {
    /// The state of the queue's change notifier.
    pub closed spec fn notices(&self) -> NotifierView {
        self.notifier@
    }

    pub open spec fn wf(&self) -> bool {
        self@.wf()
    }

    pub fn new() -> (r: Queue)
        ensures
            r@ == cleared(),
            r.wf(),
            r.notices().subscribers == 0,
            r.notices().pending == Seq::<SubscriberId>::empty(),
    {
        Queue { items: Vec::new(), cur_idx: None, cur_repeat_count: 0, notifier: Notifier::new() }
    }

    /// Empties the queue and notifies.
    pub fn clear_queue(&mut self)
        ensures
            final(self)@ == cleared(),
            final(self).wf(),
            final(self).notices() == old(self).notices().notified(),
    {
        self.items = Vec::new();
        self.cur_idx = None;
        self.cur_repeat_count = 0;
        self.notifier.notify();
    }

    fn current_queue_item(&self) -> (r: Option<QueueItem>)
        ensures
            r == self@.current_playable(),
    {
        match self.cur_idx {
            Some(c) => if c < self.items.len() {
                match &self.items[c] {
                    QueueItem::Path(_) => Some(self.items[c].clone()),
                    QueueItem::Track(_) => Some(self.items[c].clone()),
                    _ => None,
                }
            } else {
                None
            },
            None => None,
        }
    }

    fn peek(&self, i: usize) -> (r: Peeked)
        requires
            i < self@.items.len(),
        ensures
            match self@.items[i as int] {
                QueueItem::Path(_) => r is Playable,
                QueueItem::Track(_) => r is Playable,
                QueueItem::RepeatSongTimes(n) => r == Peeked::RepeatTimes(n),
                QueueItem::RepeatSongForever => r is RepeatForever,
                QueueItem::ShuffleAll => r is ShuffleAll,
                QueueItem::ShuffleAfter => r is ShuffleAfter,
                QueueItem::RepeatQueue => r is RepeatQueue,
            },
    {
        match &self.items[i] {
            QueueItem::Path(_) => Peeked::Playable,
            QueueItem::Track(_) => Peeked::Playable,
            QueueItem::RepeatSongTimes(n) => Peeked::RepeatTimes(*n),
            QueueItem::RepeatSongForever => Peeked::RepeatForever,
            QueueItem::ShuffleAll => Peeked::ShuffleAll,
            QueueItem::ShuffleAfter => Peeked::ShuffleAfter,
            QueueItem::RepeatQueue => Peeked::RepeatQueue,
        }
    }

    /// Resolves what plays next, following the directives after the cursor,
    /// and notifies once. A queue whose directives do not reach an item to
    /// play within the step cap is cleared.
    pub fn next_song(&mut self) -> (r: Option<QueueItem>)
        requires
            old(self).wf(),
        ensures
            final(self).wf(),
            resolves(old(self)@, MAX_RESOLUTION_STEPS as nat, final(self)@, r),
            final(self).notices() == old(self).notices().notified(),
    {
        let mut steps: usize = 0;
        while steps < MAX_RESOLUTION_STEPS
            invariant
                self.wf(),
                steps <= MAX_RESOLUTION_STEPS,
                self.notices() == old(self).notices(),
                forall|t: QueueView, r: Option<QueueItem>|
                    #[trigger] resolves(self@, (MAX_RESOLUTION_STEPS - steps) as nat, t, r) ==> resolves(
                        old(self)@,
                        MAX_RESOLUTION_STEPS as nat,
                        t,
                        r,
                    ),
            decreases MAX_RESOLUTION_STEPS - steps,
        {
            let ghost s = self@;
            let ghost fuel = (MAX_RESOLUTION_STEPS - steps) as nat;
            let len = self.items.len();
            let next_idx: usize = match self.cur_idx {
                Some(c) => c + 1,
                None => 0,
            };
            if next_idx >= len {
                self.cur_idx = None;
                self.cur_repeat_count = 0;
                self.notifier.notify();
                assert(step(s) == Step::Yield(self@, None));
                assert(resolves(s, fuel, self@, None));
                return None;
            }
            let peeked = self.peek(next_idx);
            match peeked {
                Peeked::Playable => {
                    let item = self.items[next_idx].clone();
                    self.cur_idx = Some(next_idx);
                    self.cur_repeat_count = 0;
                    self.notifier.notify();
                    assert(step(s) == Step::Yield(self@, Some(item)));
                    assert(resolves(s, fuel, self@, Some(item)));
                    return Some(item);
                },
                Peeked::RepeatTimes(n) => {
                    let current = self.current_queue_item();
                    if self.cur_repeat_count < n && current.is_some() {
                        self.cur_repeat_count = self.cur_repeat_count + 1;
                        self.notifier.notify();
                        assert(step(s) == Step::Yield(self@, current));
                        assert(resolves(s, fuel, self@, current));
                        return current;
                    }
                    self.cur_idx = Some(next_idx);
                    self.cur_repeat_count = 0;
                    proof {
                        lemma_advance_step(s, self@, fuel);
                    }
                },
                Peeked::RepeatForever => {
                    let current = self.current_queue_item();
                    if current.is_some() {
                        self.cur_repeat_count = self.cur_repeat_count.saturating_add(1);
                        self.notifier.notify();
                        assert(step(s) == Step::Yield(self@, current));
                        assert(resolves(s, fuel, self@, current));
                        return current;
                    }
                    self.cur_idx = Some(next_idx);
                    self.cur_repeat_count = 0;
                    proof {
                        lemma_advance_step(s, self@, fuel);
                    }
                },
                Peeked::ShuffleAll => {
                    shuffle_from(&mut self.items, 0);
                    self.cur_idx = Some(0);
                    self.cur_repeat_count = 0;
                    assert(self@ == s.moved_to(Some(0)).with_items(self@.items));
                    proof {
                        lemma_shuffle_step(s, s.moved_to(Some(0)), 0, self@.items, fuel);
                    }
                },
                Peeked::ShuffleAfter => {
                    shuffle_from(&mut self.items, next_idx);
                    self.cur_idx = Some(next_idx);
                    self.cur_repeat_count = 0;
                    assert(self@ == s.moved_to(Some(next_idx)).with_items(self@.items));
                    proof {
                        lemma_shuffle_step(s, s.moved_to(Some(next_idx)), next_idx as int, self@.items, fuel);
                    }
                },
                Peeked::RepeatQueue => {
                    self.cur_idx = None;
                    self.cur_repeat_count = 0;
                    proof {
                        lemma_advance_step(s, self@, fuel);
                    }
                },
            }
            steps = steps + 1;
            assert forall|t: QueueView, r: Option<QueueItem>|
                #[trigger] resolves(self@, (MAX_RESOLUTION_STEPS - steps) as nat, t, r) implies resolves(
                    old(self)@,
                    MAX_RESOLUTION_STEPS as nat,
                    t,
                    r,
                ) by {
                assert(resolves(self@, (fuel - 1) as nat, t, r) ==> resolves(s, fuel, t, r));
            }
        }
        assert(resolves(self@, (MAX_RESOLUTION_STEPS - steps) as nat, cleared(), None));
        self.clear_queue();
        None
    }

    /// Swaps in new contents and puts the cursor before the start.
    pub fn replace_queue(&mut self, new_queue: Vec<QueueItem>)
        ensures
            final(self)@ == (QueueView { items: new_queue@, cursor: None, repeat_count: 0 }),
            final(self).wf(),
            final(self).notices() == old(self).notices().notified(),
    {
        self.items = new_queue;
        self.cur_idx = None;
        self.cur_repeat_count = 0;
        self.notifier.notify();
    }

    /// Moves the cursor onto the item at `index`; an index past the end
    /// changes nothing. Notifies either way.
    pub fn set_queue_index(&mut self, index: usize)
        requires
            old(self).wf(),
        ensures
            final(self).wf(),
            index < old(self)@.items.len() ==> final(self)@ == old(self)@.moved_to(Some(index)),
            index >= old(self)@.items.len() ==> final(self)@ == old(self)@,
            final(self).notices() == old(self).notices().notified(),
    {
        if index < self.items.len() {
            self.cur_idx = Some(index);
            self.cur_repeat_count = 0;
        }
        self.notifier.notify();
    }

    /// Resolves the next song as `next_song` does and hands out the path
    /// to play. Notifies once more when there is one.
    pub fn play_queue(&mut self) -> (r: Option<String>)
        requires
            old(self).wf(),
        ensures
            final(self).wf(),
            exists|item: Option<QueueItem>|
                #[trigger] resolves(old(self)@, MAX_RESOLUTION_STEPS as nat, final(self)@, item)
                    && text_of(r) == path_of(item),
            r is Some ==> final(self).notices() == old(self).notices().notified().notified(),
            r is None ==> final(self).notices() == old(self).notices().notified(),
    {
        let next = self.next_song();
        let path = match &next {
            Some(item) => match item.get_path() {
                Some(p) => Some(p.to_owned()),
                None => None,
            },
            None => None,
        };
        if path.is_some() {
            self.notifier.notify();
        }
        assert(resolves(old(self)@, MAX_RESOLUTION_STEPS as nat, self@, next));
        path
    }

    /// Appends a file to play, by path.
    pub fn add_song(&mut self, path: &str)
        requires
            old(self).wf(),
        ensures
            final(self).wf(),
            final(self)@.items.len() == old(self)@.items.len() + 1,
            final(self)@.items.last() is Path,
            final(self)@.items.last().path_view() == Some(path@),
            final(self)@.items.drop_last() == old(self)@.items,
            final(self)@.cursor == old(self)@.cursor,
            final(self)@.repeat_count == old(self)@.repeat_count,
            final(self).notices() == old(self).notices().notified(),
    {
        self.items.push(QueueItem::new_from_path(path));
        self.notifier.notify();
        assert(self@.items.drop_last() =~= old(self)@.items);
    }

    /// Appends a catalog track.
    pub fn add_track(&mut self, track: &Track)
        requires
            old(self).wf(),
        ensures
            final(self).wf(),
            final(self)@.items == old(self)@.items.push(QueueItem::Track(*track)),
            final(self)@.cursor == old(self)@.cursor,
            final(self)@.repeat_count == old(self)@.repeat_count,
            final(self).notices() == old(self).notices().notified(),
    {
        self.items.push(QueueItem::new_from_track(track.clone()));
        self.notifier.notify();
    }

    /// A copy of the items, in queue order.
    pub fn get_queue_contents(&self) -> (r: Vec<QueueItem>)
        ensures
            r@ == self@.items,
    {
        let mut out: Vec<QueueItem> = Vec::new();
        let mut i: usize = 0;
        while i < self.items.len()
            invariant
                i <= self.items@.len(),
                out@ == self.items@.subrange(0, i as int),
            decreases self.items@.len() - i,
        {
            out.push(self.items[i].clone());
            i = i + 1;
            assert(out@ =~= self.items@.subrange(0, i as int));
        }
        assert(self.items@.subrange(0, self.items@.len() as int) =~= self.items@);
        out
    }

    /// The index of the item last handed out, if any.
    pub fn get_queue_position(&self) -> (r: Option<usize>)
        requires
            self.wf(),
        ensures
            r == self@.cursor,
            r matches Some(c) ==> c < self@.items.len(),
    {
        self.cur_idx
    }

    /// Subscribes to changes of the queue.
    pub fn register_queue_change_cb(&mut self) -> (id: SubscriberId)
        requires
            old(self).notices().subscribers < usize::MAX,
        ensures
            id == old(self).notices().subscribers,
            final(self).notices().subscribers == old(self).notices().subscribers + 1,
            final(self).notices().pending == old(self).notices().pending,
            final(self)@ == old(self)@,
    {
        self.notifier.register()
    }

    /// Hands out the change notifications made since the last call.
    pub fn take_notifications(&mut self) -> (r: Vec<SubscriberId>)
        ensures
            r@ == old(self).notices().pending,
            final(self).notices().subscribers == old(self).notices().subscribers,
            final(self).notices().pending == Seq::<SubscriberId>::empty(),
            final(self)@ == old(self)@,
    {
        self.notifier.take_pending()
    }
}

/// In a queue that holds only items to play, the next song is the item
/// after the cursor, and past the last item nothing is handed out and the
/// cursor goes back before the start: items come out in queue order.
pub proof fn lemma_plain_queue_plays_in_order(s: QueueView, t: QueueView, r: Option<QueueItem>)
    requires
        s.wf(),
        forall|i: int| 0 <= i < s.items.len() ==> #[trigger] s.items[i].is_playable(),
        resolves(s, MAX_RESOLUTION_STEPS as nat, t, r),
    ensures
        s.next_index() < s.items.len() ==> {
            &&& r == Some(s.items[s.next_index()])
            &&& t == s.moved_to(Some(s.next_index() as usize))
        },
        s.next_index() >= s.items.len() ==> r is None && t == s.moved_to(None),
        t.wf(),
{
    if s.next_index() < s.items.len() {
        assert(s.items[s.next_index()].is_playable());
    }
}

/// An empty queue hands out nothing and leaves the cursor before the start.
pub proof fn lemma_empty_queue_yields_nothing(s: QueueView, t: QueueView, r: Option<QueueItem>)
    requires
        s.items.len() == 0,
        resolves(s, MAX_RESOLUTION_STEPS as nat, t, r),
    ensures
        r is None,
        t.cursor is None,
        t.items.len() == 0,
{
}

/// In a queue of one item to play followed by `RepeatSongForever`, every
/// call hands out that item and the cursor stays on it.
pub proof fn lemma_repeat_forever_never_advances(s: QueueView, t: QueueView, r: Option<QueueItem>)
    requires
        s.wf(),
        s.items.len() == 2,
        s.items[0].is_playable(),
        s.items[1] is RepeatSongForever,
        s.cursor != Some(1usize),
        resolves(s, MAX_RESOLUTION_STEPS as nat, t, r),
    ensures
        r == Some(s.items[0]),
        t.items == s.items,
        t.cursor == Some(0usize),
        t.wf(),
{
}

/// A `ShuffleAll` directive after the cursor keeps every item, only
/// reorders them, and puts the cursor on the first item.
pub proof fn lemma_shuffle_all_keeps_items(s: QueueView, p: Seq<QueueItem>)
    requires
        s.wf(),
        0 <= s.next_index() < s.items.len(),
        s.items[s.next_index()] is ShuffleAll,
        shuffled(s.items, 0, p),
    ensures
        step(s) == Step::Shuffle(s.moved_to(Some(0usize)), 0),
        p.to_multiset() == s.items.to_multiset(),
        s.moved_to(Some(0usize)).with_items(p).cursor == Some(0usize),
        s.moved_to(Some(0usize)).with_items(p).wf(),
{
}

/// Resolving the next song never adds or drops items: the queue ends with
/// the items it had, in some order, unless it was cleared.
pub proof fn lemma_resolution_keeps_items(s: QueueView, fuel: nat, t: QueueView, r: Option<QueueItem>)
    requires
        resolves(s, fuel, t, r),
    ensures
        t == cleared() || t.items.to_multiset() == s.items.to_multiset(),
    decreases fuel,
{
    if fuel > 0 {
        match step(s) {
            Step::Yield(s2, r2) => {},
            Step::Advance(s2) => {
                lemma_resolution_keeps_items(s2, (fuel - 1) as nat, t, r);
            },
            Step::Shuffle(s2, start) => {
                let p = choose|p: Seq<QueueItem>|
                    #[trigger] shuffled(s2.items, start, p) && resolves(s2.with_items(p), (fuel - 1) as nat, t, r);
                lemma_resolution_keeps_items(s2.with_items(p), (fuel - 1) as nat, t, r);
            },
        }
    }
}

/// Resolution hands out only items that can be played.
pub proof fn lemma_resolution_hands_out_playable(s: QueueView, fuel: nat, t: QueueView, r: Option<QueueItem>)
    requires
        resolves(s, fuel, t, r),
    ensures
        r matches Some(item) ==> item.is_playable() && item.path_view() is Some,
    decreases fuel,
{
    if fuel > 0 {
        match step(s) {
            Step::Yield(s2, r2) => {},
            Step::Advance(s2) => {
                lemma_resolution_hands_out_playable(s2, (fuel - 1) as nat, t, r);
            },
            Step::Shuffle(s2, start) => {
                let p = choose|p: Seq<QueueItem>|
                    #[trigger] shuffled(s2.items, start, p) && resolves(s2.with_items(p), (fuel - 1) as nat, t, r);
                lemma_resolution_hands_out_playable(s2.with_items(p), (fuel - 1) as nat, t, r);
            },
        }
    }
}

/// A queue of `RepeatQueue` directives alone sends resolution round for
/// ever: it ends in the cleared queue, handing out nothing.
pub proof fn lemma_directive_cycle_clears(s: QueueView, t: QueueView, r: Option<QueueItem>)
    requires
        s.items.len() > 0,
        forall|i: int| 0 <= i < s.items.len() ==> #[trigger] s.items[i] is RepeatQueue,
        s.cursor is None,
        s.repeat_count == 0,
        resolves(s, MAX_RESOLUTION_STEPS as nat, t, r),
    ensures
        t == cleared(),
        r is None,
{
    lemma_cycle_runs_out(s, MAX_RESOLUTION_STEPS as nat, t, r);
}

proof fn lemma_cycle_runs_out(s: QueueView, fuel: nat, t: QueueView, r: Option<QueueItem>)
    requires
        s.items.len() > 0,
        forall|i: int| 0 <= i < s.items.len() ==> #[trigger] s.items[i] is RepeatQueue,
        s.cursor is None,
        s.repeat_count == 0,
        resolves(s, fuel, t, r),
    ensures
        t == cleared(),
        r is None,
    decreases fuel,
{
    if fuel > 0 {
        assert(s.items[0] is RepeatQueue);
        assert(s.moved_to(None) == s);
        assert(step(s) == Step::Advance(s));
        lemma_cycle_runs_out(s, (fuel - 1) as nat, t, r);
    }
}

} // verus!
