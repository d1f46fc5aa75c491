//! What comes of the background: that what was asked for is fetched, and that what was
//! fetched is shown, kept or played.

use crate::app::{HomeRowView, Pane, StateView, ToastKind};
use crate::app_loop;
use crate::background::{self, KeptView, Means, ReplyView, SpawnView};
use crate::cache::{self, CacheView, CacheWorkView};
use crate::config::BehaviourConfig;
use crate::event::{AppEvent, EventView, InputAction};
use crate::laws_intents::{has_no_marks, lists, on, same_lists, says, what_is_chosen_is_downloaded};
use crate::model::{
    AlbumView, ArtistView, DownloadedTrackView, HomeShelfView, PlaylistView, SourceErrorView,
    TrackView,
};
use crate::player::PlayerCommandView;
use crate::reducer;
use crate::tasks::{RequestView, TaskView};
use vstd::prelude::*;

verus! {

/// What is chosen is downloaded as soon as there is a place for it, whether or not the
/// source is there; where there is none, the user is told and nothing starts.
pub proof fn what_is_chosen_starts_to_download(
    s: StateView,
    b: BehaviourConfig,
    source: bool,
    kept: KeptView,
)
    requires
        s.modal is None,
        s.targets().len() > 0,
    ensures
        s.dispatched(InputAction::Download, b).task matches Some(task) && ({
            let t = s.dispatched(InputAction::Download, b).state;
            let there = t.spawning(task, Means { source, kept, storage: true });
            let nowhere = t.spawning(task, Means { source, kept, storage: false });
            &&& there == (t, SpawnView::Download(s.targets()))
            &&& nowhere.1 is Nothing
            &&& says(t, nowhere.0, ToastKind::Error)
            &&& same_lists(nowhere.0, s)
        }),
{
    what_is_chosen_is_downloaded(s, b);
    reveal(StateView::spawning);
    reveal(StateView::told);
    reveal(StateView::toasted);
    let t = s.dispatched(InputAction::Download, b).state;
    let m = Means { source, kept, storage: false };
    let task = TaskView::Download(s.targets());
    assert(t.spawning(task, m).0.toasts.drop_last() =~= t.toasts);
}

/// The files of exactly the downloads that were removed are deleted.
pub proof fn removed_downloads_are_deleted(s: StateView, ts: Seq<TrackView>, m: Means)
    ensures
        ({
            let (t, spawn) = s.spawning(TaskView::DeleteDownloads(ts), m);
            &&& t == s
            &&& m.storage ==> spawn == SpawnView::Delete(ts)
            &&& !m.storage ==> spawn is Nothing
        }),
{
    reveal(StateView::spawning);
}

/// With the source there, a task that asks it for something asks for exactly that.
pub proof fn what_is_asked_for_is_requested(s: StateView, m: Means, id: Seq<char>, name: Seq<char>)
    requires
        m.source,
    ensures
        s.spawning(TaskView::LoadHome, m).1.request() == Some(RequestView::HomeShelves),
        s.spawning(TaskView::LoadPlaylists, m).1.request() == Some(RequestView::LibraryPlaylists),
        s.spawning(TaskView::LoadSongs, m).1.request() == Some(RequestView::LibrarySongs),
        s.spawning(TaskView::LoadAlbums, m).1.request() == Some(RequestView::LibraryAlbums),
        s.spawning(TaskView::LoadArtists, m).1.request() == Some(RequestView::LibraryArtists),
        s.spawning(TaskView::OpenPlaylist(id), m).1.request() == Some(
            RequestView::PlaylistTracks(id),
        ),
        s.spawning(TaskView::OpenArtist { id, name }, m).1.request() == Some(
            RequestView::ArtistTracks(id),
        ),
        s.spawning(TaskView::OpenAlbum { id, name }, m).1.request() == Some(
            RequestView::AlbumTracks(id),
        ),
        s.spawning(TaskView::Search(name), m).1.request() == Some(RequestView::SearchSongs(name)),
        s.spawning(TaskView::SearchArtists(name), m).1.request() == Some(
            RequestView::SearchArtists(name),
        ),
{
    reveal(StateView::spawning);
}

/// Without the source nothing is asked of it, and the user is told that it is not there.
pub proof fn without_a_source_nothing_is_requested(s: StateView, task: TaskView, m: Means)
    requires
        !m.source,
    ensures
        s.spawning(task, m).1.request() is None,
        s.spawning(task, m).1 is Nothing && !(task is Download) && !(task is DeleteDownloads)
            && !(task is LoadDownloads) ==> says(s, s.spawning(task, m).0, ToastKind::Info),
{
    reveal(StateView::spawning);
    reveal(StateView::showing_kept);
    reveal(StateView::told);
    reveal(StateView::toasted);
    assert(s.toasts.push(s.spawning(task, m).0.toasts.last()).drop_last() =~= s.toasts);
}

/// The list that a pane fetches is the one it shows: once its answer is there, the pane has
/// exactly those rows, every other list is as it was, and the wait is over.
#[verifier::spinoff_prover]
pub proof fn what_a_pane_fetches_is_what_it_shows(
    s: StateView,
    b: BehaviourConfig,
    reply: ReplyView,
    ev: AppEvent,
)
    requires
        s.modal is None,
        s.dispatched(InputAction::Refresh, b).task is Some,
        background::answered(s.dispatched(InputAction::Refresh, b).task->0, reply) == Some(
            ev.deep_view(),
        ),
        !(reply is Failed),
    ensures
        ({
            let t = s.after(ev);
            &&& !t.loading
            &&& t.pane == s.pane
            &&& s.pane is Home ==> (reply matches ReplyView::Shelves(v) && t.home_rows
                == reducer::feed_rows(v) && same_lists(
                StateView { home_rows: s.home_rows, ..t },
                s,
            ))
            &&& s.pane is Playlists ==> (reply matches ReplyView::Playlists(v) && t.playlists == v
                && same_lists(StateView { playlists: s.playlists, ..t }, s))
            &&& s.pane is Songs ==> (reply matches ReplyView::Tracks(v) && (s.open_playlist is None
                ==> t.tracks == v && lists(t, v)) && (s.open_playlist is Some ==> t.tracks
                == s.tracks) && same_lists(StateView { tracks: s.tracks, ..t }, s))
            &&& s.pane is Albums ==> (reply matches ReplyView::Albums(v) && t.albums == v
                && same_lists(StateView { albums: s.albums, ..t }, s))
            &&& s.pane is Artists ==> (reply matches ReplyView::Artists(v) && t.artists == v
                && same_lists(StateView { artists: s.artists, ..t }, s))
            &&& !(s.pane is Downloads) && !(s.pane is Search) && !(s.pane is Queue)
        }),
{
    reveal(StateView::after);
    reveal(StateView::after_load);
    reveal(StateView::clamped);
}

/// A pane that lists what the account has is answered with its own kind of rows: such an
/// answer always means something.
pub proof fn the_right_answer_means_something(
    shelves: Seq<HomeShelfView>,
    playlists: Seq<PlaylistView>,
    tracks: Seq<TrackView>,
    albums: Seq<AlbumView>,
    artists: Seq<ArtistView>,
    id: Seq<char>,
    name: Seq<char>,
)
    ensures
        app_loop::fetch_of(Pane::Home) matches Some(task) && background::answered(
            task,
            ReplyView::Shelves(shelves),
        ) is Some,
        app_loop::fetch_of(Pane::Playlists) matches Some(task) && background::answered(
            task,
            ReplyView::Playlists(playlists),
        ) is Some,
        app_loop::fetch_of(Pane::Songs) matches Some(task) && background::answered(
            task,
            ReplyView::Tracks(tracks),
        ) is Some,
        app_loop::fetch_of(Pane::Albums) matches Some(task) && background::answered(
            task,
            ReplyView::Albums(albums),
        ) is Some,
        app_loop::fetch_of(Pane::Artists) matches Some(task) && background::answered(
            task,
            ReplyView::Artists(artists),
        ) is Some,
        background::answered(TaskView::OpenPlaylist(id), ReplyView::Tracks(tracks)) is Some,
        background::answered(TaskView::OpenArtist { id, name }, ReplyView::Tracks(tracks)) is Some,
        background::answered(TaskView::OpenAlbum { id, name }, ReplyView::Tracks(tracks)) is Some,
        background::answered(TaskView::Search(name), ReplyView::Tracks(tracks)) is Some,
        background::answered(TaskView::SearchArtists(name), ReplyView::Artists(artists)) is Some,
        app_loop::fetch_of(Pane::Downloads) == Some(TaskView::LoadDownloads),
        app_loop::fetch_of(Pane::Search) is None,
        app_loop::fetch_of(Pane::Queue) is None,
{
}

/// A search shows what was found for the query there is, and touches nothing of the
/// library.
pub proof fn a_search_shows_what_was_found(
    s: StateView,
    q: Seq<char>,
    ts: Seq<TrackView>,
    ev: AppEvent,
)
    requires
        s.search_query == q,
    ensures
        background::answered(TaskView::Search(q), ReplyView::Tracks(ts)) is Some,
        background::answered(TaskView::Search(q), ReplyView::Tracks(ts)) == Some(ev.deep_view())
            ==> {
            let t = s.after(ev);
            &&& t.search_results == ts
            &&& same_lists(StateView { search_results: s.search_results, ..t }, s)
            &&& t.pane == s.pane && t.search_query == q && !t.loading
            &&& s.pane is Search ==> lists(t, ts)
        },
{
    reveal(StateView::after);
    reveal(StateView::after_load);
    reveal(StateView::clamped);
}

/// A search for artists shows those that were found, in place of the library's.
pub proof fn a_search_for_artists_shows_who_was_found(
    s: StateView,
    q: Seq<char>,
    found: Seq<ArtistView>,
    ev: AppEvent,
)
    requires
        s.search_query == q,
    ensures
        background::answered(TaskView::SearchArtists(q), ReplyView::Artists(found)) is Some,
        background::answered(TaskView::SearchArtists(q), ReplyView::Artists(found)) == Some(
            ev.deep_view(),
        ) ==> {
            let t = s.after(ev);
            &&& t.artists == found
            &&& same_lists(StateView { artists: s.artists, ..t }, s)
            &&& t.pane == s.pane && !t.loading
        },
{
    reveal(StateView::after);
    reveal(StateView::after_load);
    reveal(StateView::clamped);
}

/// Pressing Enter on a playlist ends in its tracks: they are the list on screen, under the
/// playlist's own id.
pub proof fn an_opened_playlist_shows_its_tracks(
    s: StateView,
    b: BehaviourConfig,
    row: int,
    ts: Seq<TrackView>,
    ev: AppEvent,
)
    requires
        s.modal is None,
        s.pane is Playlists,
        s.open_playlist is None,
        on(s, row),
    ensures
        ({
            let step = s.dispatched(InputAction::Confirm, b);
            let t = step.state.after(ev);
            step.task matches Some(task) && (background::answered(task, ReplyView::Tracks(ts))
                == Some(ev.deep_view()) ==> t.open_playlist == Some(s.playlists[row].id) && lists(
                t,
                ts,
            ) && t.selected == 0 && has_no_marks(t) && !t.loading && same_lists(
                StateView { tracks: s.tracks, ..t },
                s,
            ))
        }),
{
    reveal(StateView::entered);
    reveal(StateView::descended);
    reveal(StateView::after);
    reveal(StateView::after_load);
    reveal(StateView::from_the_top);
    reveal(StateView::unmarked);
}

/// Pressing Enter on an artist ends in the artist's tracks, under their name.
pub proof fn an_opened_artist_shows_their_tracks(
    s: StateView,
    b: BehaviourConfig,
    row: int,
    ts: Seq<TrackView>,
    ev: AppEvent,
)
    requires
        s.modal is None,
        s.pane is Artists,
        s.open_artist is None,
        on(s, row),
    ensures
        ({
            let step = s.dispatched(InputAction::Confirm, b);
            let t = step.state.after(ev);
            step.task matches Some(task) && (background::answered(task, ReplyView::Tracks(ts))
                == Some(ev.deep_view()) ==> t.open_artist == Some(
                (s.artists[row].id, s.artists[row].name),
            ) && lists(t, ts) && t.selected == 0 && has_no_marks(t) && !t.loading && same_lists(
                StateView { artist_tracks: s.artist_tracks, ..t },
                s,
            ))
        }),
{
    reveal(StateView::entered);
    reveal(StateView::descended);
    reveal(StateView::after);
    reveal(StateView::after_load);
    reveal(StateView::from_the_top);
    reveal(StateView::unmarked);
}

/// Pressing Enter on an album ends in the album's tracks, under its title.
pub proof fn an_opened_album_shows_its_tracks(
    s: StateView,
    b: BehaviourConfig,
    row: int,
    ts: Seq<TrackView>,
    ev: AppEvent,
)
    requires
        s.modal is None,
        s.pane is Albums,
        s.open_album is None,
        on(s, row),
    ensures
        ({
            let step = s.dispatched(InputAction::Confirm, b);
            let t = step.state.after(ev);
            step.task matches Some(task) && (background::answered(task, ReplyView::Tracks(ts))
                == Some(ev.deep_view()) ==> t.open_album == Some(
                (s.albums[row].id, s.albums[row].title),
            ) && lists(t, ts) && t.selected == 0 && has_no_marks(t) && !t.loading && same_lists(
                StateView { album_tracks: s.album_tracks, ..t },
                s,
            ))
        }),
{
    reveal(StateView::entered);
    reveal(StateView::descended);
    reveal(StateView::after);
    reveal(StateView::after_load);
    reveal(StateView::from_the_top);
    reveal(StateView::unmarked);
}

/// A list that is fetched again while it is open keeps the cursor where it was, as far as
/// the list still goes there.
#[verifier::spinoff_prover]
pub proof fn a_playlist_fetched_again_keeps_the_cursor(
    s: StateView,
    id: Seq<char>,
    ts: Seq<TrackView>,
    ev: AppEvent,
)
    requires
        s.open_playlist == Some(id),
        background::answered(TaskView::OpenPlaylist(id), ReplyView::Tracks(ts)) == Some(
            ev.deep_view(),
        ),
    ensures
        ({
            let t = s.after(ev);
            &&& t.open_playlist == Some(id) && t.tracks == ts && t.marked == s.marked
            &&& s.selected < t.visible().len() ==> t.selected == s.selected
            &&& s.selected >= t.visible().len() > 0 ==> t.selected + 1 == t.visible().len()
        }),
{
    reveal(StateView::after);
    reveal(StateView::after_load);
    reveal(StateView::from_the_top);
    let loaded = StateView { open_playlist: Some(id), tracks: ts, ..s.loaded() };
    lemma_clamped(loaded);
    assert(s.after(ev) == loaded.clamped());
}

proof fn lemma_clamped(s: StateView)
    ensures
        ({
            let t = s.clamped();
            let n = s.visible().len();
            &&& t.visible() == s.visible()
            &&& t.open_playlist == s.open_playlist && t.tracks == s.tracks && t.marked == s.marked
            &&& s.selected < n ==> t.selected == s.selected
            &&& s.selected >= n > 0 ==> t.selected + 1 == n
        }),
{
    reveal(StateView::clamped);
}

/// An answer that is a failure is said to the user in its own words, ends the wait, and
/// changes no list.
pub proof fn a_failure_is_said(s: StateView, task: TaskView, e: SourceErrorView, ev: AppEvent)
    requires
        tasks_that_ask(task),
    ensures
        background::answered(task, ReplyView::Failed(e)) is Some,
        background::answered(task, ReplyView::Failed(e)) == Some(ev.deep_view()) ==> {
            let t = s.after(ev);
            &&& says(s, t, ToastKind::Error)
            &&& t.toasts.last().text == e.message()
            &&& !t.loading
            &&& same_lists(t, s)
            &&& t.open_playlist == s.open_playlist && t.open_artist == s.open_artist
            &&& t.open_album == s.open_album && t.selected == s.selected
        },
{
    reveal(StateView::after);
    reveal(StateView::told);
    reveal(StateView::toasted);
    assert(s.after(ev).toasts.drop_last() =~= s.toasts || !(ev is Error));
}

/// The tasks that ask the source for a list.
pub open spec fn tasks_that_ask(task: TaskView) -> bool {
    ||| task is LoadHome
    ||| task is LoadPlaylists
    ||| task is LoadSongs
    ||| task is LoadAlbums
    ||| task is LoadArtists
    ||| task is OpenPlaylist
    ||| task is OpenArtist
    ||| task is OpenAlbum
    ||| task is Search
    ||| task is SearchArtists
}

/// The rows of the home feed are those of its shelves one after the other: a heading, and
/// under it the cards of the shelf in their order.
pub proof fn a_feed_is_its_shelves(shelves: Seq<HomeShelfView>, shelf: HomeShelfView)
    ensures
        ({
            let before = reducer::feed_rows(shelves);
            let rows = reducer::feed_rows(shelves.push(shelf));
            &&& rows.len() == before.len() + 1 + shelf.items.len()
            &&& rows.take(before.len() as int) == before
            &&& rows[before.len() as int] == HomeRowView::Shelf(shelf.title)
            &&& forall|i: int|
                0 <= i < shelf.items.len() ==> #[trigger] rows[before.len() + 1 + i]
                    == HomeRowView::Item(shelf.items[i])
        }),
        reducer::feed_rows(Seq::empty()).len() == 0,
{
    assert(shelves.push(shelf).drop_last() =~= shelves);
    let before = reducer::feed_rows(shelves);
    assert(reducer::feed_rows(shelves.push(shelf)).take(before.len() as int) =~= before);
}

/// A playlist whose tracks are kept shows them at once, whether or not the source is there;
/// one of which nothing is kept leaves what is on screen.
pub proof fn what_is_kept_shows_at_once(s: StateView, id: Seq<char>, m: Means)
    ensures
        ({
            let t = s.spawning(TaskView::OpenPlaylist(id), m).0;
            match m.kept {
                KeptView::Tracks(Some(ts)) if ts.len() > 0 => t.open_playlist == Some(id) && t.tracks
                    == ts && t.selected == 0,
                _ => same_lists(t, s) && t.open_playlist == s.open_playlist && t.selected
                    == s.selected,
            }
        }),
{
    reveal(StateView::spawning);
    reveal(StateView::showing_kept);
    reveal(StateView::told);
    reveal(StateView::toasted);
}

/// A playlist is queued as it is kept, without asking the source; what is not kept is
/// fetched under the playlist's id.
pub proof fn a_kept_playlist_is_queued_at_once(
    s: StateView,
    id: Seq<char>,
    title: Seq<char>,
    next: bool,
    m: Means,
)
    ensures
        ({
            let task = TaskView::EnqueuePlaylist { id, title, play_next: next };
            let (t, spawn) = s.spawning(task, m);
            match m.kept {
                KeptView::Tracks(Some(ts)) if ts.len() > 0 => !t.loading && (
                spawn matches SpawnView::Event(EventView::EnqueueTracks { tracks, play_next, toast })
                    && tracks == ts && play_next == next && toast is Some),
                _ => m.source ==> t == s && spawn.request() == Some(
                    RequestView::PlaylistTracks(id),
                ) && (spawn matches SpawnView::FetchPlaylist { play_next, .. } && play_next == next),
            }
        }),
{
    reveal(StateView::spawning);
}

/// An album is fetched under its id in order to be queued.
pub proof fn an_album_is_fetched_to_be_queued(
    s: StateView,
    id: Seq<char>,
    title: Seq<char>,
    next: bool,
    m: Means,
)
    requires
        m.source,
    ensures
        ({
            let task = TaskView::EnqueueAlbum { id, title, play_next: next };
            let (t, spawn) = s.spawning(task, m);
            &&& t == s
            &&& spawn.request() == Some(RequestView::AlbumTracks(id))
            &&& spawn matches SpawnView::FetchAlbum { play_next, .. } && play_next == next
        }),
{
    reveal(StateView::spawning);
}

/// A list that was fetched in order to be queued goes to the player, all of it and in its
/// order, to where it was to go; the wait is over and the user is told.
pub proof fn a_fetched_list_is_queued(
    s: StateView,
    cookie_auth: bool,
    kind: Seq<char>,
    title: Seq<char>,
    next: bool,
    ts: Seq<TrackView>,
    ev: AppEvent,
)
    requires
        ts.len() > 0,
        ev.deep_view() == background::list_fetched(kind, title, next, Ok(ts)),
    ensures
        ({
            let step = s.took(cookie_auth, ev);
            &&& step.sent == seq![
                if next {
                    PlayerCommandView::EnqueueNext(ts)
                } else {
                    PlayerCommandView::EnqueueBack(ts)
                },
            ]
            &&& !step.state.loading
            &&& says(s, step.state, ToastKind::Success)
            &&& same_lists(s, step.state)
            &&& step.state.pane == s.pane && step.state.selected == s.selected
        }),
{
    reveal(StateView::told);
    reveal(StateView::toasted);
    assert(s.took(cookie_auth, ev).state.toasts.drop_last() =~= s.toasts);
}

/// A list that is empty, or could not be fetched, queues nothing, and the user is told.
pub proof fn a_list_that_is_not_there_queues_nothing(
    s: StateView,
    cookie_auth: bool,
    kind: Seq<char>,
    title: Seq<char>,
    next: bool,
    outcome: Result<Seq<TrackView>, SourceErrorView>,
    ev: AppEvent,
)
    requires
        outcome matches Ok(ts) ==> ts.len() == 0,
        ev.deep_view() == background::list_fetched(kind, title, next, outcome),
    ensures
        s.took(cookie_auth, ev).sent.len() == 0,
        says(s, s.took(cookie_auth, ev).state, ToastKind::Error),
        !s.took(cookie_auth, ev).state.loading,
        same_lists(s, s.took(cookie_auth, ev).state),
{
    reveal(StateView::after);
    reveal(StateView::told);
    reveal(StateView::toasted);
    assert(s.took(cookie_auth, ev).state.toasts.drop_last() =~= s.toasts);
}

/// Only what was fetched in order to be queued reaches the player.
pub proof fn other_answers_stay_from_the_player(s: StateView, cookie_auth: bool, ev: AppEvent)
    requires
        !(ev is EnqueueTracks),
        !(ev is ArtLoaded),
    ensures
        s.took(cookie_auth, ev).sent.len() == 0,
        !background::looks_expired(cookie_auth, ev.deep_view()) ==> s.took(cookie_auth, ev).state
            == s.after(ev),
{
}

/// A library answer without a row, under a cookie, and no other, is remarked on.
pub proof fn an_empty_library_is_remarked_on(s: StateView, cookie_auth: bool, ev: EventView)
    ensures
        ({
            let t = s.hinted(cookie_auth, ev);
            let empty = match ev {
                EventView::PlaylistsLoaded(v) => v.len() == 0,
                EventView::LibrarySongsLoaded(v) => v.len() == 0,
                EventView::AlbumsLoaded(v) => v.len() == 0,
                EventView::ArtistsLoaded(v) => v.len() == 0,
                _ => false,
            };
            if cookie_auth && empty {
                says(s, t, ToastKind::Info) && same_lists(s, t)
            } else {
                t == s
            }
        }),
{
    reveal(StateView::told);
    reveal(StateView::toasted);
    if background::looks_expired(cookie_auth, ev) {
        assert(s.hinted(cookie_auth, ev).toasts.drop_last() =~= s.toasts);
    }
}

/// What was fetched of a playlist is what is kept of it: opened again, it shows that at
/// once, and what is kept of any other playlist is as it was.
pub proof fn what_was_fetched_is_kept(
    c: CacheView,
    id: Seq<char>,
    other: Seq<char>,
    ts: Seq<TrackView>,
)
    requires
        other != id,
    ensures
        cache::work_of(EventView::PlaylistTracksLoaded { id, tracks: ts }) matches Some(work) && ({
            let after = c.after(work);
            &&& background::kept_for(TaskView::OpenPlaylist(id), Some(after)).tracks() == Some(ts)
            &&& background::kept_for(TaskView::OpenPlaylist(other), Some(after))
                == background::kept_for(TaskView::OpenPlaylist(other), Some(c))
            &&& after.playlists == c.playlists && after.songs == c.songs && after.downloads
                == c.downloads
        }),
        forall|title: Seq<char>, next: bool|
            background::kept_for(
                TaskView::EnqueuePlaylist { id, title, play_next: next },
                Some(c),
            ) == background::kept_for(TaskView::OpenPlaylist(id), Some(c)),
{
    cache::a_read_gives_back_what_was_kept(c, id, ts, other);
}

/// A library that came with rows is what is kept of it; one without leaves what was kept.
pub proof fn a_library_is_kept_where_it_has_rows(
    c: CacheView,
    ps: Seq<PlaylistView>,
    ts: Seq<TrackView>,
)
    ensures
        match cache::work_of(EventView::PlaylistsLoaded(ps)) {
            Some(work) => ps.len() > 0 && c.after(work) == (CacheView { playlists: ps, ..c }),
            None => ps.len() == 0,
        },
        match cache::work_of(EventView::LibrarySongsLoaded(ts)) {
            Some(work) => ts.len() > 0 && c.after(work) == (CacheView { songs: ts, ..c }),
            None => ts.len() == 0,
        },
{
}

/// A download that was saved is listed once, as the track it was made of, and is no longer
/// listed once it is removed. The other downloads stay.
pub proof fn a_saved_download_is_listed_until_it_is_removed(
    c: CacheView,
    t: TrackView,
    path: Seq<char>,
    size: u64,
    now: u64,
)
    ensures
        ({
            let d = background::index_entry(t, path, size, now);
            let saved = c.after(CacheWorkView::SaveDownloaded(d));
            let gone = saved.after(CacheWorkView::RemoveDownloaded(t.video_id));
            &&& saved.downloads.contains(d)
            &&& d.video_id == t.video_id && d.title == t.title && d.artists == t.artists && d.album
                == t.album && d.duration_secs == t.duration
            &&& d.file_path == path && d.file_size_bytes == size && d.downloaded_at == now
            &&& forall|i: int|
                0 <= i < gone.downloads.len() ==> (#[trigger] gone.downloads[i]).video_id
                    != t.video_id
            &&& forall|i: int|
                0 <= i < saved.downloads.len() - 1 ==> (#[trigger] saved.downloads[i]).video_id
                    != t.video_id
            &&& gone.downloads == c.after(CacheWorkView::RemoveDownloaded(t.video_id)).downloads
            &&& saved.lists == c.lists && gone.lists == c.lists
        }),
        forall|d: DownloadedTrackView|
            d.video_id != t.video_id ==> (c.after(
                CacheWorkView::RemoveDownloaded(t.video_id),
            ).downloads.contains(d) <==> #[trigger] c.downloads.contains(d)),
{
    let d = background::index_entry(t, path, size, now);
    let left = cache::without_download(c.downloads, t.video_id);
    let saved = c.after(CacheWorkView::SaveDownloaded(d));
    assert(saved.downloads[left.len() as int] == d);
    assert(left.push(d).drop_last() =~= left);
    lemma_without_download(c.downloads, t.video_id);
    lemma_without_download(left, t.video_id);
}

proof fn lemma_without_download(ds: Seq<DownloadedTrackView>, id: Seq<char>)
    ensures
        forall|i: int|
            0 <= i < cache::without_download(ds, id).len() ==> (#[trigger] cache::without_download(
                ds,
                id,
            )[i]).video_id != id,
        forall|d: DownloadedTrackView|
            d.video_id != id ==> (cache::without_download(ds, id).contains(d)
                <==> #[trigger] ds.contains(d)),
        (forall|i: int| 0 <= i < ds.len() ==> (#[trigger] ds[i]).video_id != id)
            ==> cache::without_download(ds, id) == ds,
    decreases ds.len(),
{
    if ds.len() > 0 {
        let rest = ds.drop_last();
        lemma_without_download(rest, id);
        let left = cache::without_download(rest, id);
        assert forall|d: DownloadedTrackView| d.video_id != id implies (
        cache::without_download(ds, id).contains(d) <==> #[trigger] ds.contains(d)) by {
            if rest.contains(d) {
                let k = choose|k: int| 0 <= k < rest.len() && rest[k] == d;
                assert(ds[k] == d);
                let j = choose|j: int| 0 <= j < left.len() && left[j] == d;
                assert(cache::without_download(ds, id)[j] == d);
            } else if ds.contains(d) {
                let k = choose|k: int| 0 <= k < ds.len() && ds[k] == d;
                if k < rest.len() {
                    assert(rest[k] == d);
                }
                assert(left.push(d)[left.len() as int] == d);
            } else if cache::without_download(ds, id).contains(d) {
                let got = cache::without_download(ds, id);
                let j = choose|j: int| 0 <= j < got.len() && got[j] == d;
                if j < left.len() {
                    assert(left[j] == d);
                } else {
                    assert(ds[ds.len() - 1] == d);
                }
            }
        }
        if forall|i: int| 0 <= i < ds.len() ==> (#[trigger] ds[i]).video_id != id {
            assert forall|i: int| 0 <= i < rest.len() implies (#[trigger] rest[i]).video_id != id by {
                assert(ds[i].video_id != id);
            }
            assert(ds[ds.len() - 1].video_id != id);
            assert(cache::without_download(ds, id) =~= ds);
        }
    } else {
        assert(cache::without_download(ds, id) =~= ds);
    }
}

/// The downloads that are kept are what their pane shows, with or without the source.
pub proof fn the_downloads_show_what_is_kept(s: StateView, c: CacheView, m: Means, ev: AppEvent)
    requires
        m.kept == background::kept_for(TaskView::LoadDownloads, Some(c)),
    ensures
        s.spawning(TaskView::LoadDownloads, m).1 matches SpawnView::Event(e) && (e == ev.deep_view()
            ==> ({
            let t = s.spawning(TaskView::LoadDownloads, m).0.after(ev);
            &&& t.downloaded_tracks.len() == c.downloads.len()
            &&& forall|i: int|
                0 <= i < c.downloads.len() ==> #[trigger] t.downloaded_tracks[i]
                    == c.downloads[i].track()
            &&& same_lists(StateView { downloaded_tracks: s.downloaded_tracks, ..t }, s)
            &&& !t.loading
        })),
{
    reveal(StateView::spawning);
    reveal(StateView::after);
    reveal(StateView::after_load);
    reveal(StateView::clamped);
}

/// Downloads of which no list is kept, or none that can be read, end the wait and show
/// nothing new.
pub proof fn downloads_that_cannot_be_read_show_nothing(s: StateView, m: Means)
    requires
        !(m.kept matches KeptView::Downloads(Some(_))),
    ensures
        s.spawning(TaskView::LoadDownloads, m).1 is Nothing,
        s.spawning(TaskView::LoadDownloads, m).0 == (StateView { loading: false, ..s }),
{
    reveal(StateView::spawning);
}

/// What is kept is looked up for the tasks it is kept for, and where there is nothing to
/// look in, nothing is found.
pub proof fn only_what_is_kept_is_looked_up(task: TaskView, c: CacheView)
    ensures
        background::kept_for(task, None) is Nothing,
        background::kept_for(task, Some(c)) is Downloads <==> task is LoadDownloads,
        background::kept_for(task, Some(c)) is Tracks <==> task is OpenPlaylist || task
            is EnqueuePlaylist,
{
}

/// What was kept fills the lists as far as it has rows; what could not be read, or has none,
/// leaves them as they are. Nothing else changes.
pub proof fn what_was_kept_fills_the_lists(
    s: StateView,
    playlists: Option<Seq<PlaylistView>>,
    songs: Option<Seq<TrackView>>,
    downloads: Option<Seq<DownloadedTrackView>>,
)
    ensures
        ({
            let t = s.preloaded(playlists, songs, downloads);
            &&& t.playlists == if playlists is Some && (playlists->0).len() > 0 {
                playlists->0
            } else {
                s.playlists
            }
            &&& t.tracks == if songs is Some && (songs->0).len() > 0 {
                songs->0
            } else {
                s.tracks
            }
            &&& downloads is None ==> t.downloaded_tracks == s.downloaded_tracks
            &&& downloads matches Some(v) ==> t.downloaded_tracks.len() == v.len() && (forall|i: int|
                0 <= i < v.len() ==> #[trigger] t.downloaded_tracks[i] == v[i].track())
            &&& t == (StateView {
                playlists: t.playlists,
                tracks: t.tracks,
                downloaded_tracks: t.downloaded_tracks,
                ..s
            })
        }),
{
    reveal(StateView::preloaded);
}

/// How many rows an answer is said to bring is how many the list it fills then has.
pub proof fn an_answer_brings_as_many_rows_as_are_said(s: StateView, ev: AppEvent)
    ensures
        ({
            let t = s.after(ev);
            let n = background::rows_in(ev.deep_view());
            &&& ev is PlaylistsLoaded ==> t.playlists.len() == n
            &&& ev is AlbumsLoaded ==> t.albums.len() == n
            &&& ev is ArtistsLoaded ==> t.artists.len() == n
            &&& ev is DownloadedTracksLoaded ==> t.downloaded_tracks.len() == n
            &&& ev is LibrarySongsLoaded && s.open_playlist is None ==> t.tracks.len() == n
            &&& ev is ArtistTracksLoaded ==> t.artist_tracks.len() == n
            &&& ev is AlbumTracksLoaded ==> t.album_tracks.len() == n
            &&& ev is PlaylistTracksLoaded ==> t.tracks.len() == n
        }),
{
    reveal(StateView::after);
    reveal(StateView::after_load);
    reveal(StateView::clamped);
    reveal(StateView::from_the_top);
    reveal(StateView::unmarked);
}

/// What was fetched in order to be queued is kept like what was fetched to be shown; what is
/// empty, or could not be fetched, is not.
pub proof fn what_was_fetched_to_be_queued_is_kept(
    id: Seq<char>,
    outcome: Result<Seq<TrackView>, SourceErrorView>,
)
    ensures
        match outcome {
            Ok(ts) => ts.len() > 0 ==> background::fetched_to_keep(id, outcome) == cache::work_of(
                EventView::PlaylistTracksLoaded { id, tracks: ts },
            ),
            Err(_) => true,
        },
        background::fetched_to_keep(id, outcome) is Some <==> (outcome matches Ok(ts) && ts.len()
            > 0),
{
}

} // verus!
