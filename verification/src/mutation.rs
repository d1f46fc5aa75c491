//! Optimistic edits: what was changed on screen before the server agreed, kept so
//! that a refusal can put it back.

use crate::copied::Copied;
use crate::model::{Playlist, PlaylistId, PlaylistView, Track, TrackView};
use crate::queue;
use vstd::prelude::*;

verus! {

/// One edit, with what it takes to undo it.
#[derive(Debug, Clone, PartialEq, Eq)]
pub enum Mutation {
    CreatePlaylist { temp: Playlist },
    RenamePlaylist { id: PlaylistId, previous: String, next: String },
    DeletePlaylist { id: PlaylistId, index: usize, snapshot: Playlist },
    RemoveTracks { playlist: PlaylistId, removed: Vec<(usize, Track)> },
    AddTracks { playlist: PlaylistId, count: usize },
}

/// The model of a `Mutation`.
#[verifier::ext_equal]
pub enum MutationView {
    CreatePlaylist { temp: PlaylistView },
    RenamePlaylist { id: Seq<char>, previous: Seq<char>, next: Seq<char> },
    DeletePlaylist { id: Seq<char>, index: usize, snapshot: PlaylistView },
    RemoveTracks { playlist: Seq<char>, removed: Seq<(usize, TrackView)> },
    AddTracks { playlist: Seq<char>, count: usize },
}

impl DeepView for Mutation {
    type V = MutationView;

    open spec fn deep_view(&self) -> MutationView {
        match self {
            Mutation::CreatePlaylist { temp } => MutationView::CreatePlaylist {
                temp: temp.deep_view(),
            },
            Mutation::RenamePlaylist { id, previous, next } => MutationView::RenamePlaylist {
                id: id.deep_view(),
                previous: previous@,
                next: next@,
            },
            Mutation::DeletePlaylist { id, index, snapshot } => MutationView::DeletePlaylist {
                id: id.deep_view(),
                index: *index,
                snapshot: snapshot.deep_view(),
            },
            Mutation::RemoveTracks { playlist, removed } => MutationView::RemoveTracks {
                playlist: playlist.deep_view(),
                removed: removed.deep_view(),
            },
            Mutation::AddTracks { playlist, count } => MutationView::AddTracks {
                playlist: playlist.deep_view(),
                count: *count,
            },
        }
    }
}

impl Copied for Mutation {
    fn copy(&self) -> (r: Self) {
        match self {
            Mutation::CreatePlaylist { temp } => Mutation::CreatePlaylist { temp: temp.copy() },
            Mutation::RenamePlaylist { id, previous, next } => Mutation::RenamePlaylist {
                id: id.copy(),
                previous: previous.clone(),
                next: next.clone(),
            },
            Mutation::DeletePlaylist { id, index, snapshot } => Mutation::DeletePlaylist {
                id: id.copy(),
                index: *index,
                snapshot: snapshot.copy(),
            },
            Mutation::RemoveTracks { playlist, removed } => Mutation::RemoveTracks {
                playlist: playlist.copy(),
                removed: removed.copy(),
            },
            Mutation::AddTracks { playlist, count } => Mutation::AddTracks {
                playlist: playlist.copy(),
                count: *count,
            },
        }
    }
}

/// An edit under way, and the playlist that was open when it was made: what it took off
/// the screen goes back there and nowhere else.
#[derive(Debug, PartialEq, Eq)]
pub struct Underway {
    pub edit: Mutation,
    pub shown: Option<PlaylistId>,
}

/// The model of an `Underway`.
#[verifier::ext_equal]
pub struct UnderwayView {
    pub edit: MutationView,
    pub shown: Option<Seq<char>>,
}

impl DeepView for Underway {
    type V = UnderwayView;

    open spec fn deep_view(&self) -> UnderwayView {
        UnderwayView { edit: self.edit.deep_view(), shown: self.shown.deep_view() }
    }
}

impl Copied for Underway {
    fn copy(&self) -> (r: Self) {
        Underway { edit: self.edit.copy(), shown: self.shown.copy() }
    }
}

/// The edits under way, each with the token its answer will carry. No two of them have
/// the same one.
#[derive(Debug, PartialEq, Eq)]
pub struct PendingLog {
    entries: Vec<(u64, Underway)>,
    next: u64,
}

/// The model of a `PendingLog`.
#[verifier::ext_equal]
pub struct PendingView {
    pub entries: Seq<(u64, UnderwayView)>,
    pub next: u64,
}

/// The latest entry with this token.
pub open spec fn token_at(entries: Seq<(u64, UnderwayView)>, token: u64) -> Option<int>
    decreases entries.len(),
{
    if entries.len() == 0 {
        None
    } else if entries.last().0 == token {
        Some(entries.len() - 1)
    } else {
        token_at(entries.drop_last(), token)
    }
}

impl PendingView {
    pub open spec fn empty() -> PendingView {
        PendingView { entries: Seq::empty(), next: 0 }
    }

    /// With one edit more, under the next token.
    pub open spec fn begun(self, m: UnderwayView) -> PendingView {
        PendingView {
            entries: self.entries.push((self.next, m)),
            next: (self.next + 1) as u64,
        }
    }

    /// The edit a token names.
    pub open spec fn find(self, token: u64) -> Option<UnderwayView> {
        match token_at(self.entries, token) {
            Some(i) => Some(self.entries[i].1),
            None => None,
        }
    }

    /// Without the edit a token names.
    pub open spec fn settled(self, token: u64) -> PendingView {
        match token_at(self.entries, token) {
            Some(i) => PendingView { entries: queue::without(self.entries, i), ..self },
            None => self,
        }
    }

    /// Tokens are handed out in ascending order, and no token handed out yet is free
    /// again: each is below the next one.
    pub open spec fn wf(self) -> bool {
        &&& forall|i: int| 0 <= i < self.entries.len() ==> (#[trigger] self.entries[i]).0 < self.next
        &&& forall|i: int, j: int|
            0 <= i < j < self.entries.len() ==> (#[trigger] self.entries[i]).0 < (
            #[trigger] self.entries[j]).0
    }
}

proof fn lemma_token_at(entries: Seq<(u64, UnderwayView)>, token: u64)
    ensures
        match token_at(entries, token) {
            Some(i) => 0 <= i < entries.len() && entries[i].0 == token && (forall|k: int|
                i < k < entries.len() ==> (#[trigger] entries[k]).0 != token),
            None => forall|k: int| 0 <= k < entries.len() ==> (#[trigger] entries[k]).0 != token,
        },
    decreases entries.len(),
{
    if entries.len() > 0 {
        lemma_token_at(entries.drop_last(), token);
        assert forall|k: int| 0 <= k < entries.len() - 1 implies (#[trigger] entries[k])
            == entries.drop_last()[k] by {}
    }
}

/// A token finds the edit it was handed out for, and settling that edit leaves the others.
pub proof fn a_token_names_its_own_edit(log: PendingView, m: UnderwayView)
    requires
        log.next < u64::MAX,
    ensures
        log.begun(m).find(log.next) == Some(m),
        log.begun(m).settled(log.next).entries == log.entries,
        forall|t: u64| t != log.next ==> #[trigger] log.begun(m).find(t) == log.find(t),
{
    let after = log.begun(m);
    assert(after.entries.drop_last() =~= log.entries);
    assert(queue::without(after.entries, log.entries.len() as int) =~= log.entries);
    assert forall|t: u64| t != log.next implies #[trigger] after.find(t) == log.find(t) by {
        lemma_token_at(log.entries, t);
    }
}

impl View for PendingLog {
    type V = PendingView;

    closed spec fn view(&self) -> PendingView {
        PendingView { entries: pairs(self.entries@), next: self.next }
    }
}

/// The model of a list of tagged edits.
pub open spec fn pairs(s: Seq<(u64, Underway)>) -> Seq<(u64, UnderwayView)> {
    Seq::new(s.len(), |i: int| (s[i].0, s[i].1.deep_view()))
}

impl Clone for PendingLog {
    fn clone(&self) -> (r: Self)
        ensures
            r@ == self@,
    {
        proof {
            use_type_invariant(self);
        }
        let mut entries: Vec<(u64, Underway)> = Vec::new();
        let mut i: usize = 0;
        while i < self.entries.len()
            invariant
                i <= self.entries@.len(),
                entries@.len() == i,
                forall|k: int|
                    0 <= k < i ==> (#[trigger] entries@[k]).0 == self.entries@[k].0
                        && entries@[k].1.deep_view() == self.entries@[k].1.deep_view(),
            decreases self.entries@.len() - i,
        {
            entries.push((self.entries[i].0, self.entries[i].1.copy()));
            i += 1;
        }
        let r = PendingLog { entries, next: self.next };
        assert(r@ =~= self@);
        r
    }
}

impl Default for PendingLog {
    fn default() -> (r: PendingLog)
        ensures
            r@ == PendingView::empty(),
    {
        let r = PendingLog { entries: Vec::new(), next: 0 };
        assert(r@ =~= PendingView::empty());
        r
    }
}

impl PendingLog {
    #[verifier::type_invariant]
    spec fn no_token_twice(self) -> bool {
        &&& forall|i: int|
            0 <= i < self.entries@.len() ==> (#[trigger] self.entries@[i]).0 < self.next
        &&& forall|i: int, j: int|
            0 <= i < j < self.entries@.len() ==> (#[trigger] self.entries@[i]).0 < (
            #[trigger] self.entries@[j]).0
    }

    pub fn is_empty(&self) -> (r: bool)
        ensures
            r == (self@.entries.len() == 0),
    {
        self.entries.len() == 0
    }

    /// The token the next edit will get.
    pub fn peek_token(&self) -> (r: u64)
        ensures
            r == self@.next,
    {
        self.next
    }

    /// Records an edit and hands out its token.
    pub fn begin(&mut self, m: Underway) -> (r: u64)
        requires
            old(self)@.next < u64::MAX,
        ensures
            r == old(self)@.next,
            final(self)@ == old(self)@.begun(m.deep_view()),
            final(self)@.wf(),
    {
        proof {
            use_type_invariant(&*self);
        }
        let token = self.next;
        let mut entries: Vec<(u64, Underway)> = Vec::new();
        std::mem::swap(&mut entries, &mut self.entries);
        entries.push((token, m));
        self.next = token + 1;
        self.entries = entries;
        assert(self@ =~= old(self)@.begun(m.deep_view()));
        token
    }

    /// Takes the edit a token names out of the log.
    pub fn take(&mut self, token: u64) -> (r: Option<Underway>)
        ensures
            r.deep_view() == old(self)@.find(token),
            final(self)@ == old(self)@.settled(token),
            final(self)@.wf(),
    {
        proof {
            use_type_invariant(&*self);
        }
        let mut i: usize = self.entries.len();
        while i > 0
            invariant
                i <= self.entries@.len(),
                *self == *old(self),
                self.no_token_twice(),
                forall|k: int| i <= k < self.entries@.len() ==> (#[trigger] self.entries@[k]).0 != token,
            decreases i,
        {
            i -= 1;
            if self.entries[i].0 == token {
                proof {
                    lemma_token_at(old(self)@.entries, token);
                    assert(old(self)@.entries[i as int].0 == token);
                    assert forall|k: int| i < k < old(self)@.entries.len() implies (#[trigger] old(
                        self,
                    )@.entries[k]).0 != token by {
                        assert(self.entries@[k].0 != token);
                    }
                    assert(token_at(old(self)@.entries, token) == Some(i as int));
                }
                let mut entries: Vec<(u64, Underway)> = Vec::new();
                std::mem::swap(&mut entries, &mut self.entries);
                let (_, m) = entries.remove(i);
                self.entries = entries;
                assert(self@.entries =~= queue::without(old(self)@.entries, i as int));
                return Some(m);
            }
        }
        proof {
            lemma_token_at(old(self)@.entries, token);
            assert forall|k: int| 0 <= k < old(self)@.entries.len() implies (#[trigger] old(
                self,
            )@.entries[k]).0 != token by {
                assert(self.entries@[k].0 != token);
            }
        }
        None
    }
}

/// The place at or before `i` where a list of this length can take an entry.
pub open spec fn place(i: int, len: nat) -> int {
    if i < len {
        i
    } else {
        len as int
    }
}

/// The list without the named entries, the highest taken out first.
pub open spec fn dropped(s: Seq<TrackView>, removed: Seq<(usize, TrackView)>) -> Seq<TrackView>
    decreases removed.len(),
{
    if removed.len() == 0 {
        s
    } else {
        let i = removed.last().0 as int;
        dropped(
            if i < s.len() {
                queue::without(s, i)
            } else {
                s
            },
            removed.drop_last(),
        )
    }
}

/// The list with the named entries put back, the lowest first.
pub open spec fn restored(s: Seq<TrackView>, removed: Seq<(usize, TrackView)>) -> Seq<TrackView>
    decreases removed.len(),
{
    if removed.len() == 0 {
        s
    } else {
        let base = restored(s, removed.drop_last());
        queue::with_at(base, place(removed.last().0 as int, base.len()), removed.last().1)
    }
}

/// Entries of `s` with their places, in order.
pub open spec fn taken_from(removed: Seq<(usize, TrackView)>, s: Seq<TrackView>) -> bool {
    &&& forall|k: int|
        0 <= k < removed.len() ==> (#[trigger] removed[k]).0 < s.len() && removed[k].1
            == s[removed[k].0 as int]
    &&& forall|j: int, k: int|
        0 <= j < k < removed.len() ==> (#[trigger] removed[j]).0 < (#[trigger] removed[k]).0
}

/// Entries taken out of a list and put back leave it as it was.
pub proof fn putting_back_restores_the_list(s: Seq<TrackView>, removed: Seq<(usize, TrackView)>)
    requires
        taken_from(removed, s),
    ensures
        restored(dropped(s, removed), removed) == s,
    decreases removed.len(),
{
    if removed.len() > 0 {
        let last = removed.last();
        let rest = removed.drop_last();
        let i = last.0 as int;
        let shorter = queue::without(s, i);
        assert forall|k: int| 0 <= k < rest.len() implies (#[trigger] rest[k]).0 < shorter.len()
            && rest[k].1 == shorter[rest[k].0 as int] by {
            assert(rest[k] == removed[k]);
            assert(removed[k].0 < removed[removed.len() - 1].0);
            assert(shorter[rest[k].0 as int] == s[rest[k].0 as int]);
        }
        assert forall|j: int, k: int| 0 <= j < k < rest.len() implies (#[trigger] rest[j]).0
            < (#[trigger] rest[k]).0 by {
            assert(rest[j] == removed[j] && rest[k] == removed[k]);
        }
        putting_back_restores_the_list(shorter, rest);
        assert(removed[removed.len() - 1].0 < s.len());
        assert(queue::with_at(shorter, i, s[i]) =~= s);
    }
}

/// Takes the named entries out of a list.
pub fn drop_rows(v: &mut Vec<Track>, removed: &Vec<(usize, Track)>)
    ensures
        final(v).deep_view() == dropped(old(v).deep_view(), removed.deep_view()),
{
    let mut k: usize = removed.len();
    assert(removed.deep_view().take(k as int) =~= removed.deep_view());
    while k > 0
        invariant
            k <= removed@.len(),
            dropped(v.deep_view(), removed.deep_view().take(k as int)) == dropped(
                old(v).deep_view(),
                removed.deep_view(),
            ),
        decreases k,
    {
        let i: usize = removed[k - 1].0;
        let ghost upto = removed.deep_view().take(k as int);
        assert(upto.last() == removed.deep_view()[k - 1]);
        assert(upto.drop_last() =~= removed.deep_view().take(k - 1));
        if i < v.len() {
            let ghost before = v.deep_view();
            v.remove(i);
            assert(v.deep_view() =~= queue::without(before, i as int));
        }
        k -= 1;
    }
}

/// Puts the named entries back into a list.
pub fn restore_rows(v: &mut Vec<Track>, removed: &Vec<(usize, Track)>)
    ensures
        final(v).deep_view() == restored(old(v).deep_view(), removed.deep_view()),
{
    let mut k: usize = 0;
    while k < removed.len()
        invariant
            k <= removed@.len(),
            v.deep_view() == restored(old(v).deep_view(), removed.deep_view().take(k as int)),
        decreases removed@.len() - k,
    {
        let ghost before = v.deep_view();
        let ghost upto = removed.deep_view().take(k + 1);
        assert(upto.last() == removed.deep_view()[k as int]);
        assert(upto.drop_last() =~= removed.deep_view().take(k as int));
        let i: usize = if removed[k].0 < v.len() {
            removed[k].0
        } else {
            v.len()
        };
        v.insert(i, removed[k].1.copy());
        assert(v.deep_view() =~= queue::with_at(before, i as int, removed.deep_view()[k as int].1));
        k += 1;
    }
    assert(removed.deep_view().take(k as int) =~= removed.deep_view());
}

} // verus!
