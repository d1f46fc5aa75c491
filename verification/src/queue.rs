//! The play queue: the tracks in play order and which of them is current.

use crate::copied::Copied;
use crate::model::{Track, TrackView};
use crate::player::RepeatMode;
use vstd::prelude::*;

verus! {

/// The tracks in play order. There is a current one exactly when there is any.
#[derive(Debug, Clone, PartialEq, Eq)]
pub struct Queue {
    tracks: Vec<Track>,
    current: Option<usize>,
    shuffle: bool,
    repeat: RepeatMode,
}

/// The model of a `Queue`.
#[verifier::ext_equal]
pub struct QueueView {
    pub tracks: Seq<TrackView>,
    pub current: Option<int>,
    pub shuffle: bool,
    pub repeat: RepeatMode,
}

/// The list without the entry at `i`.
pub open spec fn without<T>(s: Seq<T>, i: int) -> Seq<T> {
    s.take(i) + s.skip(i + 1)
}

/// The list with `x` put in so that it stands at `i`.
pub open spec fn with_at<T>(s: Seq<T>, i: int, x: T) -> Seq<T> {
    s.take(i) + seq![x] + s.skip(i)
}

/// The list with its entry at `from` taken out and put back so that it stands at `to`.
pub open spec fn moved<T>(s: Seq<T>, from: int, to: int) -> Seq<T> {
    with_at(without(s, from), to, s[from])
}

/// Where the entry at `i` stands once the entry at `from` has been moved to `to`.
pub open spec fn moved_index(i: int, from: int, to: int) -> int {
    if i == from {
        to
    } else if from < i <= to {
        i - 1
    } else if to <= i < from {
        i + 1
    } else {
        i
    }
}

/// The list with its entries from `k` on put in the order that `picks` chooses:
/// each place in turn takes, of the entries not placed yet, the one the next pick
/// counts to. A pick counts round; without one the entry already there stays.
pub open spec fn shuffled<T>(s: Seq<T>, k: int, picks: Seq<usize>) -> Seq<T>
    decreases s.len() - k,
{
    if k < 0 || k >= s.len() || picks.len() == 0 {
        s
    } else {
        shuffled(
            moved(s, k + picks[0] as int % (s.len() - k), k),
            k + 1,
            picks.drop_first(),
        )
    }
}

impl QueueView {
    pub open spec fn empty() -> QueueView {
        QueueView { tracks: Seq::empty(), current: None, shuffle: false, repeat: RepeatMode::Off }
    }

    pub open spec fn wf(self) -> bool {
        match self.current {
            Some(i) => 0 <= i < self.tracks.len(),
            None => self.tracks.len() == 0,
        }
    }

    /// The current track.
    pub open spec fn playing(self) -> Option<TrackView> {
        match self.current {
            Some(i) => Some(self.tracks[i]),
            None => None,
        }
    }

    pub open spec fn at(self, i: int) -> QueueView {
        QueueView { current: Some(i), ..self }
    }

    /// The tracks added at the end; the first of them becomes current in an empty queue.
    pub open spec fn pushed_back(self, ts: Seq<TrackView>) -> QueueView {
        QueueView {
            tracks: self.tracks + ts,
            current: if self.current is None && ts.len() > 0 {
                Some(0)
            } else {
                self.current
            },
            ..self
        }
    }

    /// The tracks put in right after the current one.
    pub open spec fn pushed_next(self, ts: Seq<TrackView>) -> QueueView {
        match self.current {
            None => self.pushed_back(ts),
            Some(i) => QueueView {
                tracks: self.tracks.take(i + 1) + ts + self.tracks.skip(i + 1),
                ..self
            },
        }
    }

    /// What follows the current track: itself when one track repeats, the next
    /// one, or the first when the whole queue repeats.
    pub open spec fn next_index(self) -> Option<int> {
        match self.current {
            None => None,
            Some(i) => if self.repeat is One {
                Some(i)
            } else if i + 1 < self.tracks.len() {
                Some(i + 1)
            } else if self.repeat is All {
                Some(0)
            } else {
                None
            },
        }
    }

    /// What precedes the current track, by the same rules.
    pub open spec fn prev_index(self) -> Option<int> {
        match self.current {
            None => None,
            Some(i) => if self.repeat is One {
                Some(i)
            } else if i > 0 {
                Some(i - 1)
            } else if self.repeat is All {
                Some(self.tracks.len() - 1)
            } else {
                None
            },
        }
    }

    pub open spec fn moved_to(self, next: Option<int>) -> QueueView {
        match next {
            Some(i) => self.at(i),
            None => self,
        }
    }

    /// Without the entry at `i`: the current track keeps playing, unless it is the
    /// one that left, in which case what followed it becomes current.
    pub open spec fn removed(self, i: int) -> QueueView {
        if 0 <= i < self.tracks.len() {
            QueueView {
                tracks: without(self.tracks, i),
                current: match self.current {
                    None => None,
                    Some(c) => if self.tracks.len() == 1 {
                        None
                    } else if i < c || c == self.tracks.len() - 1 {
                        Some(c - 1)
                    } else {
                        Some(c)
                    },
                },
                ..self
            }
        } else {
            self
        }
    }

    /// One entry moved; the current track stays current.
    pub open spec fn reordered(self, from: int, to: int) -> QueueView {
        if 0 <= from < self.tracks.len() && 0 <= to < self.tracks.len() {
            QueueView {
                tracks: moved(self.tracks, from, to),
                current: match self.current {
                    None => None,
                    Some(c) => Some(moved_index(c, from, to)),
                },
                ..self
            }
        } else {
            self
        }
    }

    pub open spec fn cleared(self) -> QueueView {
        QueueView { tracks: Seq::empty(), current: None, ..self }
    }

    /// Turning shuffle on reorders what is still to come; turning it off leaves
    /// the order as it stands.
    pub open spec fn with_shuffle(self, on: bool, picks: Seq<usize>) -> QueueView {
        QueueView {
            tracks: if on && !self.shuffle {
                shuffled(
                    self.tracks,
                    match self.current {
                        Some(c) => c + 1,
                        None => 0,
                    },
                    picks,
                )
            } else {
                self.tracks
            },
            shuffle: on,
            ..self
        }
    }

    /// The next `count` tracks in play order.
    pub open spec fn upcoming(self, count: int) -> Seq<TrackView> {
        match self.current {
            None => Seq::empty(),
            Some(c) => {
                let rest = self.tracks.skip(c + 1);
                if count < rest.len() {
                    rest.take(count)
                } else {
                    rest
                }
            },
        }
    }
}

impl View for Queue {
    type V = QueueView;

    closed spec fn view(&self) -> QueueView {
        QueueView {
            tracks: self.tracks.deep_view(),
            current: match self.current {
                Some(i) => Some(i as int),
                None => None,
            },
            shuffle: self.shuffle,
            repeat: self.repeat,
        }
    }
}

impl Default for Queue {
    fn default() -> (r: Queue)
        ensures
            r@ == QueueView::empty(),
            r.wf(),
    {
        let r = Queue {
            tracks: Vec::new(),
            current: None,
            shuffle: false,
            repeat: RepeatMode::Off,
        };
        assert(r@ =~= QueueView::empty());
        r
    }
}

/// Moves one entry of a list: taken out at `from`, put back to stand at `to`.
fn move_entry(v: &mut Vec<Track>, from: usize, to: usize)
    requires
        from < old(v)@.len(),
        to < old(v)@.len(),
    ensures
        final(v).deep_view() == moved(old(v).deep_view(), from as int, to as int),
        final(v)@.len() == old(v)@.len(),
{
    let t = v.remove(from);
    v.insert(to, t);
    assert(v.deep_view() =~= moved(old(v).deep_view(), from as int, to as int));
}

impl Queue {
    /// There is a current track exactly when there is any track.
    pub open spec fn wf(self) -> bool {
        self@.wf()
    }

    pub fn tracks(&self) -> (r: &Vec<Track>)
        ensures
            r.deep_view() == self@.tracks,
    {
        &self.tracks
    }

    pub fn current_index(&self) -> (r: Option<usize>)
        ensures
            self@.current == match r {
                Some(i) => Some(i as int),
                None => None,
            },
    {
        self.current
    }

    pub fn current(&self) -> (r: Option<Track>)
        requires
            self.wf(),
        ensures
            r.deep_view() == self@.playing(),
    {
        match self.current {
            Some(i) => Some(self.tracks[i].copy()),
            None => None,
        }
    }

    pub fn len(&self) -> (r: usize)
        ensures
            r == self@.tracks.len(),
    {
        self.tracks.len()
    }

    pub fn is_empty(&self) -> (r: bool)
        ensures
            r == (self@.tracks.len() == 0),
    {
        self.tracks.len() == 0
    }

    /// Adds tracks at the end.
    pub fn push_back(&mut self, ts: Vec<Track>)
        requires
            old(self).wf(),
        ensures
            final(self)@ == old(self)@.pushed_back(ts.deep_view()),
            final(self).wf(),
    {
        let mut ts = ts;
        if self.current.is_none() && ts.len() > 0 {
            self.current = Some(0);
        }
        let ghost added = ts.deep_view();
        self.tracks.append(&mut ts);
        assert(self@ =~= old(self)@.pushed_back(added));
    }

    /// Puts tracks in right after the current one.
    pub fn push_next(&mut self, ts: Vec<Track>)
        requires
            old(self).wf(),
        ensures
            final(self)@ == old(self)@.pushed_next(ts.deep_view()),
            final(self).wf(),
    {
        match self.current {
            None => {
                self.push_back(ts);
            },
            Some(i) => {
                let ghost added = ts.deep_view();
                let mut ts = ts;
                assert(i < self.tracks.len());
                let mut rest = self.tracks.split_off(i + 1);
                self.tracks.append(&mut ts);
                self.tracks.append(&mut rest);
                assert(self@.tracks =~= old(self)@.tracks.take(i + 1) + added + old(
                    self,
                )@.tracks.skip(i + 1));
                assert(self@ =~= old(self)@.pushed_next(added));
            },
        }
    }

    /// Steps to the track that follows, if one does.
    pub fn advance(&mut self) -> (r: Option<Track>)
        requires
            old(self).wf(),
        ensures
            final(self)@ == old(self)@.moved_to(old(self)@.next_index()),
            final(self).wf(),
            r.deep_view() == match old(self)@.next_index() {
                Some(i) => Some(old(self)@.tracks[i]),
                None => None,
            },
    {
        let n = self.tracks.len();
        let next: Option<usize> = match self.current {
            None => None,
            Some(i) => match self.repeat {
                RepeatMode::One => Some(i),
                RepeatMode::Off => if i + 1 < n {
                    Some(i + 1)
                } else {
                    None
                },
                RepeatMode::All => if i + 1 < n {
                    Some(i + 1)
                } else {
                    Some(0)
                },
            },
        };
        match next {
            None => None,
            Some(i) => {
                self.current = Some(i);
                Some(self.tracks[i].copy())
            },
        }
    }

    /// Steps to the track that precedes, if one does.
    pub fn previous(&mut self) -> (r: Option<Track>)
        requires
            old(self).wf(),
        ensures
            final(self)@ == old(self)@.moved_to(old(self)@.prev_index()),
            final(self).wf(),
            r.deep_view() == match old(self)@.prev_index() {
                Some(i) => Some(old(self)@.tracks[i]),
                None => None,
            },
    {
        let prev: Option<usize> = match self.current {
            None => None,
            Some(i) => match self.repeat {
                RepeatMode::One => Some(i),
                RepeatMode::Off => if i > 0 {
                    Some(i - 1)
                } else {
                    None
                },
                RepeatMode::All => if i > 0 {
                    Some(i - 1)
                } else {
                    Some(self.tracks.len() - 1)
                },
            },
        };
        match prev {
            None => None,
            Some(i) => {
                self.current = Some(i);
                Some(self.tracks[i].copy())
            },
        }
    }

    /// Makes the entry at `idx` current; nothing happens past the end.
    pub fn jump_to(&mut self, idx: usize) -> (r: Option<Track>)
        requires
            old(self).wf(),
        ensures
            final(self).wf(),
            if idx < old(self)@.tracks.len() {
                &&& final(self)@ == old(self)@.at(idx as int)
                &&& r.deep_view() == Some(old(self)@.tracks[idx as int])
            } else {
                &&& final(self)@ == old(self)@
                &&& r is None
            },
    {
        if idx < self.tracks.len() {
            self.current = Some(idx);
            Some(self.tracks[idx].copy())
        } else {
            None
        }
    }

    /// Takes the entry at `i` out; nothing happens past the end.
    pub fn remove(&mut self, i: usize)
        requires
            old(self).wf(),
        ensures
            final(self)@ == old(self)@.removed(i as int),
            final(self).wf(),
    {
        if i < self.tracks.len() {
            let n = self.tracks.len();
            match self.current {
                None => {},
                Some(c) => {
                    if n == 1 {
                        self.current = None;
                    } else if i < c || c == n - 1 {
                        self.current = Some(c - 1);
                    }
                },
            }
            self.tracks.remove(i);
            assert(self@.tracks =~= without(old(self)@.tracks, i as int));
            assert(self@ =~= old(self)@.removed(i as int));
        }
    }

    /// Moves the entry at `from` to stand at `to`; nothing happens past the end.
    pub fn move_item(&mut self, from: usize, to: usize)
        requires
            old(self).wf(),
        ensures
            final(self)@ == old(self)@.reordered(from as int, to as int),
            final(self).wf(),
    {
        if from < self.tracks.len() && to < self.tracks.len() {
            move_entry(&mut self.tracks, from, to);
            match self.current {
                None => {},
                Some(c) => {
                    if c == from {
                        self.current = Some(to);
                    } else if from < c && c <= to {
                        self.current = Some(c - 1);
                    } else if to <= c && c < from {
                        self.current = Some(c + 1);
                    }
                },
            }
            assert(self@ =~= old(self)@.reordered(from as int, to as int));
        }
    }

    pub fn clear(&mut self)
        requires
            old(self).wf(),
        ensures
            final(self)@ == old(self)@.cleared(),
            final(self).wf(),
    {
        self.tracks.clear();
        self.current = None;
        assert(self@ =~= old(self)@.cleared());
    }

    pub fn set_repeat(&mut self, m: RepeatMode)
        requires
            old(self).wf(),
        ensures
            final(self)@ == (QueueView { repeat: m, ..old(self)@ }),
            final(self).wf(),
    {
        self.repeat = m;
    }

    /// Turns shuffle on or off. The order chosen is `picks`, drawn by the caller.
    pub fn set_shuffle(&mut self, on: bool, picks: &Vec<usize>)
        requires
            old(self).wf(),
        ensures
            final(self)@ == old(self)@.with_shuffle(on, picks@),
            final(self).wf(),
    {
        if on && !self.shuffle {
            let n = self.tracks.len();
            assert(self.current is Some ==> self.current->0 < n);
            let start: usize = match self.current {
                Some(c) => c + 1,
                None => 0,
            };
            let mut k: usize = start;
            let mut j: usize = 0;
            assert(picks@.skip(0) =~= picks@);
            while k < self.tracks.len() && j < picks.len()
                invariant
                    start <= k <= self.tracks@.len(),
                    j <= picks@.len(),
                    self.tracks@.len() == old(self)@.tracks.len(),
                    self.current == old(self).current,
                    self.repeat == old(self).repeat,
                    shuffled(self.tracks.deep_view(), k as int, picks@.skip(j as int)) == shuffled(
                        old(self)@.tracks,
                        start as int,
                        picks@,
                    ),
                decreases self.tracks@.len() - k,
            {
                let left: usize = self.tracks.len() - k;
                let from: usize = k + picks[j] % left;
                assert(picks@.skip(j as int)[0] == picks@[j as int]);
                assert(picks@.skip(j as int).drop_first() =~= picks@.skip(j + 1));
                move_entry(&mut self.tracks, from, k);
                k += 1;
                j += 1;
            }
            assert(self.tracks.deep_view() == shuffled(old(self)@.tracks, start as int, picks@));
        }
        self.shuffle = on;
        assert(self@ =~= old(self)@.with_shuffle(on, picks@));
        proof {
            lemma_shuffled_len(
                old(self)@.tracks,
                match old(self)@.current {
                    Some(c) => c + 1,
                    None => 0,
                },
                picks@,
            );
        }
    }
}

/// Shuffling neither adds nor drops an entry.
pub proof fn lemma_shuffled_len<T>(s: Seq<T>, k: int, picks: Seq<usize>)
    ensures
        shuffled(s, k, picks).len() == s.len(),
    decreases s.len() - k,
{
    if k < 0 || k >= s.len() || picks.len() == 0 {
    } else {
        lemma_shuffled_len(
            moved(s, k + picks[0] as int % (s.len() - k), k),
            k + 1,
            picks.drop_first(),
        );
    }
}

/// Moving an entry keeps every entry.
pub proof fn moving_keeps_every_entry<T>(s: Seq<T>, from: int, to: int)
    requires
        0 <= from < s.len(),
        0 <= to < s.len(),
    ensures
        moved(s, from, to).to_multiset() == s.to_multiset(),
        moved(s, from, to).len() == s.len(),
{
    broadcast use vstd::seq_lib::group_to_multiset_ensures;

    let rest = without(s, from);
    assert(rest =~= s.remove(from));
    assert(moved(s, from, to) =~= rest.insert(to, s[from]));
    vstd::seq_lib::to_multiset_remove(s, from);
    vstd::seq_lib::to_multiset_insert(rest, to, s[from]);
    assert(s.to_multiset().count(s[from]) > 0) by {
        assert(s.contains(s[from]));
    }
    assert(moved(s, from, to).to_multiset() =~= s.to_multiset());
}

/// Moving an entry carries every entry to the place `moved_index` names.
pub proof fn moving_carries_each_entry<T>(s: Seq<T>, from: int, to: int, i: int)
    requires
        0 <= from < s.len(),
        0 <= to < s.len(),
        0 <= i < s.len(),
    ensures
        0 <= moved_index(i, from, to) < s.len(),
        moved(s, from, to)[moved_index(i, from, to)] == s[i],
{
}

/// Whatever is moved in the queue, what is playing stays what is playing.
pub proof fn reordering_keeps_what_plays(q: QueueView, from: int, to: int)
    requires
        q.wf(),
    ensures
        q.reordered(from, to).wf(),
        q.reordered(from, to).playing() == q.playing(),
{
    if 0 <= from < q.tracks.len() && 0 <= to < q.tracks.len() && q.current is Some {
        moving_carries_each_entry(q.tracks, from, to, q.current->0);
    }
}

/// Shuffling keeps every entry, and everything before the place it starts at.
pub proof fn shuffling_keeps_every_entry<T>(s: Seq<T>, k: int, picks: Seq<usize>)
    requires
        0 <= k,
    ensures
        shuffled(s, k, picks).to_multiset() == s.to_multiset(),
        shuffled(s, k, picks).len() == s.len(),
        forall|i: int| 0 <= i < k && i < s.len() ==> shuffled(s, k, picks)[i] == s[i],
    decreases s.len() - k,
{
    if k >= s.len() || picks.len() == 0 {
    } else {
        let from = k + picks[0] as int % (s.len() - k);
        let next = moved(s, from, k);
        moving_keeps_every_entry(s, from, k);
        shuffling_keeps_every_entry(next, k + 1, picks.drop_first());
        assert forall|i: int| 0 <= i < k && i < s.len() implies shuffled(s, k, picks)[i] == s[i] by {
            assert(next[i] == s[i]);
        }
    }
}

/// Turning shuffle on or off keeps every track, and keeps what is playing.
pub proof fn shuffle_keeps_what_plays(q: QueueView, on: bool, picks: Seq<usize>)
    requires
        q.wf(),
    ensures
        q.with_shuffle(on, picks).wf(),
        q.with_shuffle(on, picks).playing() == q.playing(),
        q.with_shuffle(on, picks).tracks.to_multiset() == q.tracks.to_multiset(),
{
    let k = match q.current {
        Some(c) => c + 1,
        None => 0,
    };
    shuffling_keeps_every_entry(q.tracks, k, picks);
}

/// Removing an entry other than the current one keeps what is playing.
pub proof fn removing_another_keeps_what_plays(q: QueueView, i: int)
    requires
        q.wf(),
        q.current != Some(i),
    ensures
        q.removed(i).wf(),
        q.removed(i).playing() == q.playing(),
{
}

} // verus!
