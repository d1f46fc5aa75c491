//! What a source is for: that what was changed is read back, that a search finds what
//! matches, and that what failed changed nothing.

use crate::background::ReplyView;
use crate::laws_settings::a_number_is_written_as_it_is;
use crate::mock::{self, MockView};
use crate::model::{PlaylistView, Privacy, SourceErrorView, TrackView};
use crate::reducer;
use crate::tasks::{MutationTaskView, RequestView, TaskView};
use crate::text;
use vstd::prelude::*;

verus! {

/// What the library's playlists are answered with.
pub open spec fn listed(s: MockView) -> ReplyView {
    s.serving(RequestView::LibraryPlaylists).1
}

/// A playlist that was made is listed, last and under the id that its making was answered
/// with; the others are listed as they were.
pub proof fn a_playlist_that_was_made_is_listed(
    s: MockView,
    token: u64,
    title: Seq<char>,
    description: Option<Seq<char>>,
    privacy: Privacy,
)
    requires
        s.fail_next is None,
    ensures
        ({
            let task = TaskView::Mutate {
                token,
                task: MutationTaskView::Create { title, description, privacy },
            };
            let (t, reply) = s.asking(task);
            &&& reply matches Some(ReplyView::Created(id)) && (listed(t) matches ReplyView::Playlists(
                after,
            ) && after.len() == s.playlists.len() + 1 && after.drop_last() == s.playlists
                && after.last().id == id && after.last().title == title && after.last().privacy
                == privacy && after.last().description == description && !after.last().is_system)
            &&& t.tracks == s.tracks && t.albums == s.albums && t.artists == s.artists
        }),
{
    let task = TaskView::Mutate {
        token,
        task: MutationTaskView::Create { title, description, privacy },
    };
    assert(s.asking(task).0.playlists.drop_last() =~= s.playlists);
}

/// Two playlists that are made one after the other have two ids.
pub proof fn each_playlist_has_its_own_id(s: MockView, t: MockView)
    requires
        s.next_id < t.next_id,
    ensures
        s.fresh_id() != t.fresh_id(),
{
    let head = "mock-pl-"@;
    let a = s.fresh_id();
    let b = t.fresh_id();
    a_number_is_written_as_it_is((s.next_id + 1) as nat);
    a_number_is_written_as_it_is((t.next_id + 1) as nat);
    assert(a.skip(head.len() as int) =~= text::decimal((s.next_id + 1) as nat));
    assert(b.skip(head.len() as int) =~= text::decimal((t.next_id + 1) as nat));
}

/// A playlist that was renamed is listed under its new name, and is otherwise what it was;
/// so are the others. One that there is not cannot be renamed.
pub proof fn a_playlist_that_was_renamed_has_its_name(
    s: MockView,
    token: u64,
    id: Seq<char>,
    title: Seq<char>,
)
    requires
        s.fail_next is None,
    ensures
        ({
            let task = TaskView::Mutate { token, task: MutationTaskView::Rename { id, title } };
            let (t, reply) = s.asking(task);
            match reducer::playlist_at(s.playlists, id) {
                Some(i) => reply == Some(ReplyView::Done) && (listed(t) matches ReplyView::Playlists(
                    after,
                ) && after.len() == s.playlists.len() && after[i] == (PlaylistView {
                    title,
                    ..s.playlists[i]
                }) && (forall|k: int|
                    0 <= k < after.len() && k != i ==> #[trigger] after[k] == s.playlists[k])),
                None => reply == Some(ReplyView::Failed(SourceErrorView::NotFound(id))) && listed(t)
                    == listed(s),
            }
        }),
{
    reducer::lemma_playlist_at(s.playlists, id);
}

proof fn lemma_without_playlist(ps: Seq<PlaylistView>, id: Seq<char>, p: PlaylistView)
    ensures
        mock::without_playlist(ps, id).contains(p) <==> ps.contains(p) && p.id != id,
    decreases ps.len(),
{
    if ps.len() > 0 {
        let rest = ps.drop_last();
        lemma_without_playlist(rest, id, p);
        let left = mock::without_playlist(rest, id);
        let got = mock::without_playlist(ps, id);
        if left.contains(p) {
            let k = choose|k: int| 0 <= k < left.len() && left[k] == p;
            assert(got[k] == p);
            let j = choose|j: int| 0 <= j < rest.len() && rest[j] == p;
            assert(ps[j] == p);
        }
        if ps.contains(p) && p.id != id && !left.contains(p) {
            let k = choose|k: int| 0 <= k < ps.len() && ps[k] == p;
            if k < rest.len() {
                assert(rest[k] == p);
            }
            assert(got[got.len() - 1] == p);
        }
        if got.contains(p) && !left.contains(p) {
            let k = choose|k: int| 0 <= k < got.len() && got[k] == p;
            if k < left.len() {
                assert(left[k] == p);
            }
            assert(ps[ps.len() - 1] == p);
        }
    }
}

/// A playlist that was deleted is no longer listed, and every other is.
pub proof fn a_playlist_that_was_deleted_is_gone(
    s: MockView,
    token: u64,
    id: Seq<char>,
    p: PlaylistView,
)
    requires
        s.fail_next is None,
    ensures
        ({
            let task = TaskView::Mutate { token, task: MutationTaskView::Delete { id } };
            let (t, reply) = s.asking(task);
            &&& reply == Some(ReplyView::Done)
            &&& listed(t) matches ReplyView::Playlists(after) && (after.contains(p)
                <==> s.playlists.contains(p) && p.id != id)
        }),
{
    lemma_without_playlist(s.playlists, id, p);
}

proof fn lemma_matching(ts: Seq<TrackView>, q: Seq<char>, x: TrackView)
    ensures
        mock::matching(ts, q).contains(x) <==> ts.contains(x) && text::passes(q, x.title),
        mock::matching(ts, q).len() <= ts.len(),
    decreases ts.len(),
{
    if ts.len() > 0 {
        let rest = ts.drop_last();
        lemma_matching(rest, q, x);
        let left = mock::matching(rest, q);
        let got = mock::matching(ts, q);
        if left.contains(x) {
            let k = choose|k: int| 0 <= k < left.len() && left[k] == x;
            assert(got[k] == x);
            let j = choose|j: int| 0 <= j < rest.len() && rest[j] == x;
            assert(ts[j] == x);
        }
        if ts.contains(x) && text::passes(q, x.title) && !left.contains(x) {
            let k = choose|k: int| 0 <= k < ts.len() && ts[k] == x;
            if k < rest.len() {
                assert(rest[k] == x);
            }
            assert(got[got.len() - 1] == x);
        }
        if got.contains(x) && !left.contains(x) {
            let k = choose|k: int| 0 <= k < got.len() && got[k] == x;
            if k < left.len() {
                assert(left[k] == x);
            }
            assert(ts[ts.len() - 1] == x);
        }
    }
}

/// A search finds exactly the tracks whose titles hold what was searched for.
pub proof fn a_search_finds_what_matches(s: MockView, q: Seq<char>, x: TrackView)
    requires
        s.fail_next is None,
    ensures
        s.asking(TaskView::Search(q)).1 matches Some(ReplyView::Tracks(found)) && (found.contains(x)
            <==> s.tracks.contains(x) && text::passes(q, x.title)),
{
    lemma_matching(s.tracks, q, x);
}

/// Each list that is asked for is answered with itself.
pub proof fn each_list_is_answered_with_itself(s: MockView, id: Seq<char>, name: Seq<char>)
    requires
        s.fail_next is None,
    ensures
        s.asking(TaskView::LoadHome).1 == Some(ReplyView::Shelves(s.shelves)),
        s.asking(TaskView::LoadPlaylists).1 == Some(ReplyView::Playlists(s.playlists)),
        s.asking(TaskView::LoadSongs).1 == Some(ReplyView::Tracks(s.tracks)),
        s.asking(TaskView::LoadAlbums).1 == Some(ReplyView::Albums(s.albums)),
        s.asking(TaskView::LoadArtists).1 == Some(ReplyView::Artists(s.artists)),
        s.asking(TaskView::OpenArtist { id, name }).1 == Some(ReplyView::Tracks(s.artist_tracks)),
        s.asking(TaskView::OpenAlbum { id, name }).1 == Some(ReplyView::Tracks(s.album_tracks)),
{
}

/// What failed changed nothing, is answered with the failure that was set up, and the next
/// call works out again. Every call is recorded, in the order it was made.
pub proof fn what_failed_changed_nothing(s: MockView, r: RequestView)
    ensures
        ({
            let (t, reply) = s.serving(r);
            &&& t.requests == s.requests.push(r)
            &&& t.fail_next is None
            &&& s.fail_next matches Some(e) ==> reply == ReplyView::Failed(e) && t == (MockView {
                requests: t.requests,
                fail_next: None,
                ..s
            })
            &&& t.authenticated == s.authenticated
        }),
{
}

} // verus!
