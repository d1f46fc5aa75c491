//! What work in the background starts as, and what its outcome means. The work
//! itself is done elsewhere.

use crate::app::{self, AppState, Focus, Pane, StateView, ToastKind};
use crate::art::ArtCache;
use crate::cache::{self, Cache, CacheView, CacheWork, CacheWorkView};
use crate::copied::Copied;
use crate::event::{AppEvent, EventView};
use crate::model::{
    self, Album, AlbumId, AlbumView, Artist, ArtistView, DownloadedTrack, DownloadedTrackView,
    HomeShelf, HomeShelfView, Playlist, PlaylistId, PlaylistView, SourceError, SourceErrorView,
    Track, TrackView, to_tracks,
};
use crate::tasks::{
    self, MutationTask, MutationTaskView, Request, RequestView, Task, TaskView, request_of,
};
use crate::text::{self, join3, push_decimal};
use vstd::prelude::*;

verus! {

/// What a guest is told at startup, and again if a cookie turns out to be dead.
pub const GUEST_NOTICE: &'static str =
    "guest mode \u{2014} search and queue are available; set auth.cookie_file for your library";

impl StateView {
    /// After the source has said whether it knows an account. A guest on a pane that
    /// takes one is moved to the search, and another account's rows are dropped.
    #[verifier::opaque]
    pub open spec fn settled(self, authenticated: bool) -> StateView {
        let s = StateView { guest: !authenticated, ..self };
        if authenticated || !s.pane.needs_account() {
            s
        } else {
            (StateView {
                playlists: Seq::empty(),
                tracks: Seq::empty(),
                albums: Seq::empty(),
                artists: Seq::empty(),
                home_rows: Seq::empty(),
                open_playlist: None,
                pane: Pane::Search,
                sidebar_selected: 5,
                focus: Focus::SearchInput,
                ..s
            }).told(ToastKind::Info, GUEST_NOTICE@)
        }
    }

    /// Filled with what was kept, as far as it could be read. A list that could not be
    /// is left alone, and so is a library without rows.
    #[verifier::opaque]
    pub open spec fn preloaded(
        self,
        playlists: Option<Seq<PlaylistView>>,
        songs: Option<Seq<TrackView>>,
        downloads: Option<Seq<DownloadedTrackView>>,
    ) -> StateView {
        StateView {
            playlists: match playlists {
                Some(v) if v.len() > 0 => v,
                _ => self.playlists,
            },
            tracks: match songs {
                Some(v) if v.len() > 0 => v,
                _ => self.tracks,
            },
            downloaded_tracks: match downloads {
                Some(v) => model::download_rows(v),
                None => self.downloaded_tracks,
            },
            ..self
        }
    }

    /// Showing the tracks kept for a playlist while they are fetched anew. Where none
    /// are kept, or they could not be read, everything is left alone.
    #[verifier::opaque]
    pub open spec fn showing_kept(self, id: Seq<char>, kept: Option<Seq<TrackView>>) -> StateView {
        match kept {
            Some(tracks) if tracks.len() > 0 => StateView {
                open_playlist: Some(id),
                tracks,
                selected: 0,
                scroll_offset: 0,
                ..self
            },
            _ => self,
        }
    }
}

fn drop_library(state: &mut AppState)
    ensures
        final(state)@ == (StateView {
            playlists: Seq::empty(),
            tracks: Seq::empty(),
            albums: Seq::empty(),
            artists: Seq::empty(),
            home_rows: Seq::empty(),
            open_playlist: None,
            ..old(state)@
        }),
{
    proof {
        reveal(AppState::model);
    }
    state.playlists = Vec::new();
    state.tracks = Vec::new();
    state.albums = Vec::new();
    state.artists = Vec::new();
    state.home_rows = Vec::new();
    state.open_playlist = None;
    assert(state.playlists.deep_view() =~= Seq::<PlaylistView>::empty());
    assert(state.tracks.deep_view() =~= Seq::<TrackView>::empty());
    assert(state.albums.deep_view() =~= Seq::<AlbumView>::empty());
    assert(state.artists.deep_view() =~= Seq::<ArtistView>::empty());
    assert(state.home_rows.deep_view() =~= Seq::<crate::app::HomeRowView>::empty());
}

/// Settles the interface against what the source can actually do. The handshake is
/// the only moment an expired cookie shows.
pub fn source_ready(state: &mut AppState, authenticated: bool)
    ensures
        final(state)@ == old(state)@.settled(authenticated),
{
    proof {
        reveal(StateView::settled);
    }
    state.set_guest(!authenticated);
    proof {
        app::state_shows_its_switches(&*state);
    }
    if authenticated || !state.pane.requires_auth() {
        return;
    }
    drop_library(state);
    state.set_pane(Pane::Search);
    state.set_sidebar_selected(5);
    state.set_focus(Focus::SearchInput);
    state.tell(ToastKind::Info, GUEST_NOTICE);
}

/// What came of reading something that is kept, as a model: why it could not be read is
/// of no consequence.
pub open spec fn read_view<T: DeepView>(r: Result<T, String>) -> Option<T::V> {
    match r {
        Ok(x) => Some(x.deep_view()),
        Err(_) => None,
    }
}

/// What came of reading the parts of what is kept that are shown before anything is
/// fetched.
#[derive(Debug, PartialEq, Eq)]
pub struct KeptLibrary {
    pub playlists: Result<Vec<Playlist>, String>,
    pub songs: Result<Vec<Track>, String>,
    pub downloads: Result<Vec<DownloadedTrack>, String>,
}

/// The model of a `KeptLibrary`: the parts that could be read.
#[verifier::ext_equal]
pub struct KeptLibraryView {
    pub playlists: Option<Seq<PlaylistView>>,
    pub songs: Option<Seq<TrackView>>,
    pub downloads: Option<Seq<DownloadedTrackView>>,
}

impl DeepView for KeptLibrary {
    type V = KeptLibraryView;

    open spec fn deep_view(&self) -> KeptLibraryView {
        KeptLibraryView {
            playlists: read_view(self.playlists),
            songs: read_view(self.songs),
            downloads: read_view(self.downloads),
        }
    }
}

/// Reads what is shown before anything is fetched.
pub fn read_library(cache: &Cache) -> (r: KeptLibrary)
    ensures
        r.deep_view() == (KeptLibraryView {
            playlists: Some(cache@.playlists),
            songs: Some(cache@.songs),
            downloads: Some(cache@.downloads),
        }),
{
    KeptLibrary {
        playlists: Ok(cache.load_playlists()),
        songs: Ok(cache.load_library_songs()),
        downloads: Ok(cache.get_downloaded_tracks()),
    }
}

/// Fills the state with what was kept, before the first frame, given what came of reading
/// each part of it. One that could not be read does not keep the others from the screen.
pub fn preload_from_cache(
    playlists: Result<Vec<Playlist>, String>,
    songs: Result<Vec<Track>, String>,
    downloads: Result<Vec<DownloadedTrack>, String>,
    state: &mut AppState,
)
    ensures
        final(state)@ == old(state)@.preloaded(
            read_view(playlists),
            read_view(songs),
            read_view(downloads),
        ),
{
    proof {
        reveal(StateView::preloaded);
    }
    if let Ok(v) = playlists {
        assert(v@.len() == v.deep_view().len());
        if v.len() > 0 {
            state.set_playlists(v);
        }
    }
    if let Ok(v) = songs {
        assert(v@.len() == v.deep_view().len());
        if v.len() > 0 {
            state.set_tracks(v);
        }
    }
    if let Ok(v) = downloads {
        state.set_downloaded_tracks(to_tracks(&v));
    }
}

/// Shows a playlist's kept tracks while the fetch is in flight, given what came of reading
/// them.
pub fn preload_playlist_tracks(
    kept: Result<Vec<Track>, String>,
    state: &mut AppState,
    id: &PlaylistId,
)
    ensures
        final(state)@ == old(state)@.showing_kept(id.deep_view(), read_view(kept)),
{
    proof {
        reveal(StateView::showing_kept);
    }
    if let Ok(tracks) = kept {
        assert(tracks@.len() == tracks.deep_view().len());
        if tracks.len() > 0 {
            state.open_tracks(id.copy(), tracks);
            state.set_selected(0);
            state.set_scroll_offset(0);
        }
    }
}

/// Where a part of what is kept cannot be read, the lists it would have filled stay as
/// they were, and the other parts are shown all the same.
pub proof fn one_failed_read_stops_no_other(
    s: StateView,
    playlists: Option<Seq<PlaylistView>>,
    songs: Option<Seq<TrackView>>,
    downloads: Option<Seq<DownloadedTrackView>>,
)
    ensures
        s.preloaded(None, songs, downloads) == (StateView {
            playlists: s.playlists,
            ..s.preloaded(playlists, songs, downloads)
        }),
        s.preloaded(playlists, None, downloads) == (StateView {
            tracks: s.tracks,
            ..s.preloaded(playlists, songs, downloads)
        }),
        s.preloaded(playlists, songs, None) == (StateView {
            downloaded_tracks: s.downloaded_tracks,
            ..s.preloaded(playlists, songs, downloads)
        }),
{
    reveal(StateView::preloaded);
}

/// What a user is told when a whole list was queued.
pub open spec fn list_queued_text(title: Seq<char>, n: nat, next: bool) -> Seq<char> {
    (if next {
        "playing next"@
    } else {
        "added to queue"@
    }) + ": "@ + title + " ("@ + text::decimal(n) + if n == 1 {
        " track)"@
    } else {
        " tracks)"@
    }
}

/// What a user is told when a whole list was queued.
pub fn list_queued_message(title: &str, n: usize, next: bool) -> (r: String)
    ensures
        r@ == list_queued_text(title@, n as nat, next),
{
    let mut s = (if next {
        "playing next"
    } else {
        "added to queue"
    }).to_owned();
    s.append(": ");
    s.append(title);
    s.append(" (");
    push_decimal(&mut s, n as u64);
    s.append(
        if n == 1 {
            " track)"
        } else {
            " tracks)"
        },
    );
    s
}

/// What is to be started for a task.
#[derive(Debug, Clone, PartialEq, Eq)]
pub enum Spawn {
    Nothing,
    /// The answer is already there.
    Event(AppEvent),
    /// Download these, one after the other.
    Download(Vec<Track>),
    /// Delete the files of these.
    Delete(Vec<Track>),
    /// Fetch a playlist in order to queue it.
    FetchPlaylist { id: PlaylistId, title: String, play_next: bool },
    /// Fetch an album in order to queue it.
    FetchAlbum { id: AlbumId, title: String, play_next: bool },
    /// Ask the source.
    Ask(Task),
}

/// The model of a `Spawn`.
#[verifier::ext_equal]
pub enum SpawnView {
    Nothing,
    Event(EventView),
    Download(Seq<TrackView>),
    Delete(Seq<TrackView>),
    FetchPlaylist { id: Seq<char>, title: Seq<char>, play_next: bool },
    FetchAlbum { id: Seq<char>, title: Seq<char>, play_next: bool },
    Ask(TaskView),
}

impl DeepView for Spawn {
    type V = SpawnView;

    open spec fn deep_view(&self) -> SpawnView {
        match self {
            Spawn::Nothing => SpawnView::Nothing,
            Spawn::Event(ev) => SpawnView::Event(ev.deep_view()),
            Spawn::Download(ts) => SpawnView::Download(ts.deep_view()),
            Spawn::Delete(ts) => SpawnView::Delete(ts.deep_view()),
            Spawn::FetchPlaylist { id, title, play_next } => SpawnView::FetchPlaylist {
                id: id.deep_view(),
                title: title@,
                play_next: *play_next,
            },
            Spawn::FetchAlbum { id, title, play_next } => SpawnView::FetchAlbum {
                id: id.deep_view(),
                title: title@,
                play_next: *play_next,
            },
            Spawn::Ask(task) => SpawnView::Ask(task.deep_view()),
        }
    }
}

impl SpawnView {
    /// What it asks of the source, where it asks anything.
    pub open spec fn request(self) -> Option<RequestView> {
        match self {
            SpawnView::FetchPlaylist { id, title: _, play_next: _ } => Some(
                RequestView::PlaylistTracks(id),
            ),
            SpawnView::FetchAlbum { id, title: _, play_next: _ } => Some(
                RequestView::AlbumTracks(id),
            ),
            SpawnView::Ask(task) => tasks::requested(task),
            _ => None,
        }
    }
}

impl Spawn {
    /// What it asks of the source, where it asks anything.
    pub fn request(&self) -> (r: Option<Request>)
        ensures
            r.deep_view() == self.deep_view().request(),
    {
        match self {
            Spawn::FetchPlaylist { id, .. } => Some(Request::PlaylistTracks(id.copy())),
            Spawn::FetchAlbum { id, .. } => Some(Request::AlbumTracks(id.copy())),
            Spawn::Ask(task) => request_of(task),
            _ => None,
        }
    }
}

/// What came of reading what is kept for a task.
#[derive(Debug, PartialEq, Eq)]
pub enum Kept {
    /// Nothing was read: nothing is kept for the task, or there is nowhere to read from.
    Nothing,
    /// The tracks of a playlist.
    Tracks(Result<Vec<Track>, String>),
    /// The index of the downloads.
    Downloads(Result<Vec<DownloadedTrack>, String>),
}

/// The model of a `Kept`: what was read, if it could be.
#[verifier::ext_equal]
pub enum KeptView {
    Nothing,
    Tracks(Option<Seq<TrackView>>),
    Downloads(Option<Seq<DownloadedTrackView>>),
}

impl DeepView for Kept {
    type V = KeptView;

    open spec fn deep_view(&self) -> KeptView {
        match self {
            Kept::Nothing => KeptView::Nothing,
            Kept::Tracks(r) => KeptView::Tracks(read_view(*r)),
            Kept::Downloads(r) => KeptView::Downloads(read_view(*r)),
        }
    }
}

/// What is kept for a task: the tracks of the playlist it is about, or the index of the
/// downloads.
pub open spec fn kept_for(task: TaskView, cache: Option<CacheView>) -> KeptView {
    match (cache, task) {
        (Some(c), TaskView::LoadDownloads) => KeptView::Downloads(Some(c.downloads)),
        (Some(c), TaskView::OpenPlaylist(id)) => KeptView::Tracks(
            Some(cache::kept_under(c.lists, id)),
        ),
        (Some(c), TaskView::EnqueuePlaylist { id, title: _, play_next: _ }) => KeptView::Tracks(
            Some(cache::kept_under(c.lists, id)),
        ),
        _ => KeptView::Nothing,
    }
}

fn look_up(task: &Task, cache: Option<&Cache>) -> (r: Kept)
    ensures
        r.deep_view() == kept_for(
            task.deep_view(),
            match cache {
                Some(c) => Some(c@),
                None => None,
            },
        ),
{
    match cache {
        Some(c) => match task {
            Task::LoadDownloads => Kept::Downloads(Ok(c.get_downloaded_tracks())),
            Task::OpenPlaylist(id) => Kept::Tracks(Ok(c.load_playlist_tracks(id))),
            Task::EnqueuePlaylist { id, .. } => Kept::Tracks(Ok(c.load_playlist_tracks(id))),
            _ => Kept::Nothing,
        },
        None => Kept::Nothing,
    }
}

/// What there is to work with: a source, what was read of what is kept, a place for
/// downloads.
pub struct Means {
    pub source: bool,
    pub kept: KeptView,
    pub storage: bool,
}

impl KeptView {
    /// The tracks of a playlist, if they were read.
    pub open spec fn tracks(self) -> Option<Seq<TrackView>> {
        match self {
            KeptView::Tracks(t) => t,
            _ => None,
        }
    }
}

impl StateView {
    /// The source is not there yet.
    pub open spec fn connecting(self) -> StateView {
        self.told(ToastKind::Info, "still connecting\u{2026}"@)
    }

    /// No longer waiting for anything.
    pub open spec fn idle(self) -> StateView {
        StateView { loading: false, ..self }
    }

    /// What a task leads to, and what is to be started for it. What needs the source
    /// is declined while there is none: replaying it later would fire a request the
    /// user has moved on from.
    #[verifier::opaque]
    pub open spec fn spawning(self, task: TaskView, m: Means) -> (StateView, SpawnView) {
        match task {
            TaskView::LoadDownloads => self.downloads_read(
                match m.kept {
                    KeptView::Downloads(index) => Some(index),
                    _ => None,
                },
            ),
            TaskView::Download(ts) => if m.storage {
                (self, SpawnView::Download(ts))
            } else {
                (
                    self.told(ToastKind::Error, "Download failed: storage not configured"@),
                    SpawnView::Nothing,
                )
            },
            TaskView::DeleteDownloads(ts) => (
                self,
                if m.storage {
                    SpawnView::Delete(ts)
                } else {
                    SpawnView::Nothing
                },
            ),
            TaskView::EnqueuePlaylist { id, title, play_next } => match m.kept.tracks() {
                Some(tracks) if tracks.len() > 0 => (
                    self.idle(),
                    SpawnView::Event(
                        EventView::EnqueueTracks {
                            tracks,
                            play_next,
                            toast: Some(list_queued_text(title, tracks.len(), play_next)),
                        },
                    ),
                ),
                _ => if m.source {
                    (self, SpawnView::FetchPlaylist { id, title, play_next })
                } else {
                    (self.idle().connecting(), SpawnView::Nothing)
                },
            },
            TaskView::EnqueueAlbum { id, title, play_next } => if m.source {
                (self, SpawnView::FetchAlbum { id, title, play_next })
            } else {
                (self.idle().connecting(), SpawnView::Nothing)
            },
            _ => {
                let s = match task {
                    TaskView::OpenPlaylist(id) => self.showing_kept(id, m.kept.tracks()),
                    _ => self,
                };
                if m.source {
                    (s, SpawnView::Ask(task))
                } else {
                    (s.connecting(), SpawnView::Nothing)
                }
            },
        }
    }
}

impl StateView {
    /// What reading the index of the downloads leads to: its rows, or nothing where there
    /// is none or it could not be read.
    pub open spec fn downloads_read(
        self,
        index: Option<Option<Seq<DownloadedTrackView>>>,
    ) -> (StateView, SpawnView) {
        match index {
            Some(Some(rows)) => (
                self,
                SpawnView::Event(EventView::DownloadedTracksLoaded(model::download_rows(rows))),
            ),
            _ => (self.idle(), SpawnView::Nothing),
        }
    }
}

/// What came of reading the index of the downloads, as a model.
pub open spec fn index_view(
    index: Option<Result<Vec<DownloadedTrack>, String>>,
) -> Option<Option<Seq<DownloadedTrackView>>> {
    match index {
        Some(Ok(rows)) => Some(Some(rows.deep_view())),
        Some(Err(_)) => Some(None),
        None => None,
    }
}

/// Lists the downloads, given what came of reading their index, if there is one.
pub fn list_downloads(
    index: Option<Result<Vec<DownloadedTrack>, String>>,
    state: &mut AppState,
) -> (r: Spawn)
    ensures
        final(state)@ == old(state)@.downloads_read(index_view(index)).0,
        r.deep_view() == old(state)@.downloads_read(index_view(index)).1,
{
    match index {
        Some(Ok(rows)) => Spawn::Event(AppEvent::DownloadedTracksLoaded(to_tracks(&rows))),
        _ => {
            state.set_loading(false);
            Spawn::Nothing
        },
    }
}

fn decline(state: &mut AppState)
    ensures
        final(state)@ == old(state)@.idle().connecting(),
{
    state.set_loading(false);
    state.tell(ToastKind::Info, "still connecting\u{2026}");
}

/// Decides what to start for a task, given what came of reading what is kept for it. What
/// could not be read is fetched as if nothing were kept.
pub fn start(
    task: Task,
    source_ready: bool,
    state: &mut AppState,
    kept: Kept,
    storage_ready: bool,
) -> (r: Spawn)
    ensures
        ({
            let m = Means { source: source_ready, kept: kept.deep_view(), storage: storage_ready };
            let step = old(state)@.spawning(task.deep_view(), m);
            final(state)@ == step.0 && r.deep_view() == step.1
        }),
{
    proof {
        reveal(StateView::spawning);
        reveal(StateView::showing_kept);
    }
    match task {
        Task::LoadDownloads => match kept {
            Kept::Downloads(index) => list_downloads(Some(index), state),
            _ => list_downloads(None, state),
        },
        Task::Download(tracks) => {
            if storage_ready {
                Spawn::Download(tracks)
            } else {
                state.tell(ToastKind::Error, "Download failed: storage not configured");
                Spawn::Nothing
            }
        },
        Task::DeleteDownloads(tracks) => {
            if storage_ready {
                Spawn::Delete(tracks)
            } else {
                Spawn::Nothing
            }
        },
        Task::EnqueuePlaylist { id, title, play_next } => {
            match kept {
                Kept::Tracks(Ok(tracks)) => {
                    assert(tracks@.len() == tracks.deep_view().len());
                    if tracks.len() > 0 {
                        state.set_loading(false);
                        let toast = list_queued_message(title.as_str(), tracks.len(), play_next);
                        return Spawn::Event(
                            AppEvent::EnqueueTracks { tracks, play_next, toast: Some(toast) },
                        );
                    }
                },
                _ => {},
            }
            if source_ready {
                Spawn::FetchPlaylist { id, title, play_next }
            } else {
                decline(state);
                Spawn::Nothing
            }
        },
        Task::EnqueueAlbum { id, title, play_next } => {
            if source_ready {
                Spawn::FetchAlbum { id, title, play_next }
            } else {
                decline(state);
                Spawn::Nothing
            }
        },
        other => {
            match &other {
                Task::OpenPlaylist(id) => match kept {
                    Kept::Tracks(read) => preload_playlist_tracks(read, state, id),
                    _ => {},
                },
                _ => {},
            }
            if source_ready {
                Spawn::Ask(other)
            } else {
                state.tell(ToastKind::Info, "still connecting\u{2026}");
                Spawn::Nothing
            }
        },
    }
}

/// Decides what to start for a task.
pub fn try_spawn(
    task: Task,
    source_ready: bool,
    state: &mut AppState,
    cache: Option<&Cache>,
    storage_ready: bool,
) -> (r: Spawn)
    ensures
        ({
            let m = Means {
                source: source_ready,
                kept: kept_for(
                    task.deep_view(),
                    match cache {
                        Some(c) => Some(c@),
                        None => None,
                    },
                ),
                storage: storage_ready,
            };
            let step = old(state)@.spawning(task.deep_view(), m);
            final(state)@ == step.0 && r.deep_view() == step.1
        }),
{
    let kept = look_up(&task, cache);
    start(task, source_ready, state, kept, storage_ready)
}

/// What a source answers.
#[derive(Debug, Clone, PartialEq, Eq)]
pub enum Reply {
    Shelves(Vec<HomeShelf>),
    Playlists(Vec<Playlist>),
    Tracks(Vec<Track>),
    Albums(Vec<Album>),
    Artists(Vec<Artist>),
    Details(Playlist),
    /// A playlist was made, with this id.
    Created(PlaylistId),
    /// A change was made.
    Done,
    Failed(SourceError),
}

/// The model of a `Reply`.
#[verifier::ext_equal]
pub enum ReplyView {
    Shelves(Seq<HomeShelfView>),
    Playlists(Seq<PlaylistView>),
    Tracks(Seq<TrackView>),
    Albums(Seq<AlbumView>),
    Artists(Seq<ArtistView>),
    Details(PlaylistView),
    Created(Seq<char>),
    Done,
    Failed(SourceErrorView),
}

impl DeepView for Reply {
    type V = ReplyView;

    open spec fn deep_view(&self) -> ReplyView {
        match self {
            Reply::Shelves(v) => ReplyView::Shelves(v.deep_view()),
            Reply::Playlists(v) => ReplyView::Playlists(v.deep_view()),
            Reply::Tracks(v) => ReplyView::Tracks(v.deep_view()),
            Reply::Albums(v) => ReplyView::Albums(v.deep_view()),
            Reply::Artists(v) => ReplyView::Artists(v.deep_view()),
            Reply::Details(p) => ReplyView::Details(p.deep_view()),
            Reply::Created(id) => ReplyView::Created(id.deep_view()),
            Reply::Done => ReplyView::Done,
            Reply::Failed(e) => ReplyView::Failed(e.deep_view()),
        }
    }
}

/// What a change is called once it is made.
pub open spec fn made_text(task: MutationTaskView) -> Seq<char> {
    match task {
        MutationTaskView::Create { .. } => "playlist created"@,
        MutationTaskView::Rename { .. } => "playlist renamed"@,
        MutationTaskView::Delete { .. } => "playlist deleted"@,
        MutationTaskView::AddTracks { .. } => "added to playlist"@,
        MutationTaskView::RemoveTracks { .. } => "removed from playlist"@,
    }
}

/// What the outcome of a change means: it carries the token of the edit it settles,
/// and the id of what was made.
pub open spec fn made(
    token: u64,
    task: MutationTaskView,
    outcome: Result<Option<Seq<char>>, SourceErrorView>,
) -> EventView {
    match outcome {
        Ok(real_id) => EventView::MutationOk { token, real_id, message: made_text(task) },
        Err(e) => EventView::MutationFailed { token, message: e.message() },
    }
}

/// What an answer of the source to a change means. A new playlist is answered with its
/// id, and any other change without one; `None` for an answer of another kind.
pub open spec fn concluded(token: u64, task: MutationTaskView, reply: ReplyView) -> Option<
    EventView,
> {
    match (task, reply) {
        (_, ReplyView::Failed(e)) => Some(made(token, task, Err(e))),
        (MutationTaskView::Create { .. }, ReplyView::Created(id)) => Some(
            made(token, task, Ok(Some(id))),
        ),
        (MutationTaskView::Create { .. }, _) => None,
        (_, ReplyView::Done) => Some(made(token, task, Ok(None))),
        _ => None,
    }
}

fn made_event(
    token: u64,
    task: &MutationTask,
    outcome: Result<Option<PlaylistId>, SourceError>,
) -> (r: AppEvent)
    ensures
        r.deep_view() == made(token, task.deep_view(), model::answer_view(outcome)),
{
    match outcome {
        Ok(real_id) => {
            let message: &str = match task {
                MutationTask::Create { .. } => "playlist created",
                MutationTask::Rename { .. } => "playlist renamed",
                MutationTask::Delete { .. } => "playlist deleted",
                MutationTask::AddTracks { .. } => "added to playlist",
                MutationTask::RemoveTracks { .. } => "removed from playlist",
            };
            AppEvent::MutationOk { token, real_id, message: message.to_owned() }
        },
        Err(e) => AppEvent::MutationFailed { token, message: e.message() },
    }
}

/// What an answer of the source to a change means.
pub fn mutation_event(token: u64, task: &MutationTask, reply: Reply) -> (r: Option<AppEvent>)
    ensures
        r.deep_view() == concluded(token, task.deep_view(), reply.deep_view()),
{
    match (task, reply) {
        (_, Reply::Failed(e)) => Some(made_event(token, task, Err(e))),
        (MutationTask::Create { .. }, Reply::Created(id)) => Some(
            made_event(token, task, Ok(Some(id))),
        ),
        (MutationTask::Create { .. }, _) => None,
        (_, Reply::Done) => Some(made_event(token, task, Ok(None))),
        _ => None,
    }
}

/// An edit that is settled is settled under its own token, and names what was made if and
/// only if something was.
pub proof fn an_answer_settles_its_own_edit(token: u64, task: MutationTaskView, reply: ReplyView)
    ensures
        concluded(token, task, reply) matches Some(ev) ==> match ev {
            EventView::MutationOk { token: t, real_id, message } => t == token && (real_id is Some
                <==> task is Create) && message == made_text(task),
            EventView::MutationFailed { token: t, message } => t == token && reply is Failed
                && message == reply->Failed_0.message(),
            _ => false,
        },
{
}

/// What an answer of the source to a task means. `None` for an answer of another
/// kind than the task asks for, and for a task that does not ask the source.
pub open spec fn answered(task: TaskView, reply: ReplyView) -> Option<EventView> {
    match task {
        TaskView::Mutate { token, task } => concluded(token, task, reply),
        TaskView::LoadDownloads
        | TaskView::Download(_)
        | TaskView::DeleteDownloads(_)
        | TaskView::EnqueuePlaylist { .. }
        | TaskView::EnqueueAlbum { .. } => None,
        _ => match (task, reply) {
            (_, ReplyView::Failed(e)) => Some(EventView::Error(e.message())),
            (TaskView::LoadHome, ReplyView::Shelves(v)) => Some(EventView::HomeLoaded(v)),
            (TaskView::LoadPlaylists, ReplyView::Playlists(v)) => Some(
                EventView::PlaylistsLoaded(v),
            ),
            (TaskView::LoadSongs, ReplyView::Tracks(v)) => Some(EventView::LibrarySongsLoaded(v)),
            (TaskView::LoadAlbums, ReplyView::Albums(v)) => Some(EventView::AlbumsLoaded(v)),
            (TaskView::LoadArtists, ReplyView::Artists(v)) => Some(EventView::ArtistsLoaded(v)),
            (TaskView::OpenArtist { id, name }, ReplyView::Tracks(tracks)) => Some(
                EventView::ArtistTracksLoaded { id, name, tracks },
            ),
            (TaskView::OpenAlbum { id, name }, ReplyView::Tracks(tracks)) => Some(
                EventView::AlbumTracksLoaded { id, name, tracks },
            ),
            (TaskView::OpenPlaylist(id), ReplyView::Tracks(tracks)) => Some(
                EventView::PlaylistTracksLoaded { id, tracks },
            ),
            (TaskView::Search(query), ReplyView::Tracks(tracks)) => Some(
                EventView::SearchResults { query, tracks },
            ),
            (TaskView::SearchArtists(query), ReplyView::Artists(artists)) => Some(
                EventView::ArtistSearchResults { query, artists },
            ),
            _ => None,
        },
    }
}

/// What an answer of the source to a task means.
pub fn settle(task: Task, reply: Reply) -> (r: Option<AppEvent>)
    ensures
        r.deep_view() == answered(task.deep_view(), reply.deep_view()),
{
    match task {
        Task::Mutate { token, task } => mutation_event(token, &task, reply),
        Task::LoadDownloads
        | Task::Download(_)
        | Task::DeleteDownloads(_)
        | Task::EnqueuePlaylist { .. }
        | Task::EnqueueAlbum { .. } => None,
        asked => match (asked, reply) {
            (_, Reply::Failed(e)) => Some(AppEvent::Error(e.message())),
            (Task::LoadHome, Reply::Shelves(v)) => Some(AppEvent::HomeLoaded(v)),
            (Task::LoadPlaylists, Reply::Playlists(v)) => Some(AppEvent::PlaylistsLoaded(v)),
            (Task::LoadSongs, Reply::Tracks(v)) => Some(AppEvent::LibrarySongsLoaded(v)),
            (Task::LoadAlbums, Reply::Albums(v)) => Some(AppEvent::AlbumsLoaded(v)),
            (Task::LoadArtists, Reply::Artists(v)) => Some(AppEvent::ArtistsLoaded(v)),
            (Task::OpenArtist { id, name }, Reply::Tracks(tracks)) => Some(
                AppEvent::ArtistTracksLoaded { id, name, tracks },
            ),
            (Task::OpenAlbum { id, name }, Reply::Tracks(tracks)) => Some(
                AppEvent::AlbumTracksLoaded { id, name, tracks },
            ),
            (Task::OpenPlaylist(id), Reply::Tracks(tracks)) => Some(
                AppEvent::PlaylistTracksLoaded { id, tracks },
            ),
            (Task::Search(query), Reply::Tracks(tracks)) => Some(
                AppEvent::SearchResults { query, tracks },
            ),
            (Task::SearchArtists(query), Reply::Artists(artists)) => Some(
                AppEvent::ArtistSearchResults { query, artists },
            ),
            _ => None,
        },
    }
}

/// What a fetch in order to queue a list means: what to keep, and what happened.
/// `kind` is what the list is called when it is empty or cannot be had.
pub open spec fn list_fetched(
    kind: Seq<char>,
    title: Seq<char>,
    play_next: bool,
    outcome: Result<Seq<TrackView>, SourceErrorView>,
) -> EventView {
    match outcome {
        Ok(tracks) => if tracks.len() == 0 {
            EventView::Error(kind + " \""@ + title + "\" is empty"@)
        } else {
            EventView::EnqueueTracks {
                tracks,
                play_next,
                toast: Some(list_queued_text(title, tracks.len(), play_next)),
            }
        },
        Err(e) => EventView::Error("could not load "@ + kind + ": "@ + e.message()),
    }
}

fn list_event(
    kind: &str,
    title: &str,
    play_next: bool,
    outcome: Result<Vec<Track>, SourceError>,
) -> (r: AppEvent)
    ensures
        r.deep_view() == list_fetched(kind@, title@, play_next, model::answer_view(outcome)),
{
    match outcome {
        Ok(tracks) => {
            assert(tracks@.len() == tracks.deep_view().len());
            if tracks.len() == 0 {
                let mut m = join3(kind, " \"", title);
                m.append("\" is empty");
                AppEvent::Error(m)
            } else {
                let toast = list_queued_message(title, tracks.len(), play_next);
                AppEvent::EnqueueTracks { tracks, play_next, toast: Some(toast) }
            }
        },
        Err(e) => {
            let why = e.message();
            let mut m = join3("could not load ", kind, ": ");
            m.append(why.as_str());
            AppEvent::Error(m)
        },
    }
}

/// What is kept of a playlist that was fetched in order to be queued: its tracks, where there
/// are any.
pub open spec fn fetched_to_keep(
    id: Seq<char>,
    outcome: Result<Seq<TrackView>, SourceErrorView>,
) -> Option<CacheWorkView> {
    match outcome {
        Ok(tracks) => if tracks.len() > 0 {
            Some(CacheWorkView::PlaylistTracks { id, tracks })
        } else {
            None
        },
        Err(_) => None,
    }
}

/// What a playlist fetched in order to be queued means. Its tracks are kept, unless
/// there are none.
pub fn playlist_fetched(
    id: PlaylistId,
    title: &str,
    play_next: bool,
    outcome: Result<Vec<Track>, SourceError>,
) -> (r: (Option<CacheWork>, AppEvent))
    ensures
        r.0.deep_view() == fetched_to_keep(id.deep_view(), model::answer_view(outcome)),
        r.1.deep_view() == list_fetched("playlist"@, title@, play_next, model::answer_view(outcome)),
{
    let work = match &outcome {
        Ok(tracks) => {
            assert(tracks@.len() == tracks.deep_view().len());
            if tracks.len() > 0 {
                Some(CacheWork::PlaylistTracks { id, tracks: tracks.copy() })
            } else {
                None
            }
        },
        Err(_) => None,
    };
    (work, list_event("playlist", title, play_next, outcome))
}

/// What an album fetched in order to be queued means.
pub fn album_fetched(
    title: &str,
    play_next: bool,
    outcome: Result<Vec<Track>, SourceError>,
) -> (r: AppEvent)
    ensures
        r.deep_view() == list_fetched("album"@, title@, play_next, model::answer_view(outcome)),
{
    list_event("album", title, play_next, outcome)
}

/// The entry of the index for a track that was downloaded.
pub open spec fn index_entry(
    t: TrackView,
    file_path: Seq<char>,
    file_size_bytes: u64,
    now_secs: u64,
) -> DownloadedTrackView {
    DownloadedTrackView {
        video_id: t.video_id,
        title: t.title,
        artists: t.artists,
        album: t.album,
        duration_secs: t.duration,
        thumbnail_url: t.thumbnail_url,
        file_path,
        file_size_bytes,
        downloaded_at: now_secs,
    }
}

/// What a track downloaded to a file means: its entry of the index, and what
/// happened.
pub fn download_saved(track: Track, file_path: String, file_size_bytes: u64, now_secs: u64) -> (r: (
    CacheWork,
    AppEvent,
))
    ensures
        r.0.deep_view() == CacheWorkView::SaveDownloaded(
            index_entry(track.deep_view(), file_path@, file_size_bytes, now_secs),
        ),
        r.1.deep_view() == EventView::DownloadedTrackSaved(track.deep_view()),
{
    let entry = DownloadedTrack {
        video_id: track.video_id.copy(),
        title: track.title.clone(),
        artists: track.artists.copy(),
        album: track.album.copy(),
        duration_secs: track.duration.as_secs(),
        thumbnail_url: track.thumbnail_url.copy(),
        file_path,
        file_size_bytes,
        downloaded_at: now_secs,
    };
    (CacheWork::SaveDownloaded(entry), AppEvent::DownloadedTrackSaved(track))
}

/// What a track that could not be downloaded means.
pub fn download_failed(track: &Track, why: &str) -> (r: AppEvent)
    ensures
        r.deep_view() == EventView::Error(
            "Download failed for \""@ + track.deep_view().title + "\": "@ + why@,
        ),
{
    let mut m = join3("Download failed for \"", track.title.as_str(), "\": ");
    m.append(why);
    AppEvent::Error(m)
}

/// A download in the index is shown as the track it was made of, but for its place
/// in a playlist.
pub proof fn a_download_keeps_its_track(t: TrackView, path: Seq<char>, size: u64, now: u64)
    ensures
        index_entry(t, path, size, now).track() == (TrackView { set_video_id: None, ..t }),
{
}

/// What a log calls an event, so that a load is legible in it.
pub fn event_name(ev: &AppEvent) -> (r: &'static str)
    ensures
        r@ == match ev.deep_view() {
            EventView::PlaylistsLoaded(_) => "playlists"@,
            EventView::LibrarySongsLoaded(_) => "songs"@,
            EventView::DownloadedTracksLoaded(_) => "downloaded_tracks"@,
            EventView::DownloadedTrackSaved(_) => "download_saved"@,
            EventView::AlbumsLoaded(_) => "albums"@,
            EventView::ArtistsLoaded(_) => "artists"@,
            EventView::PlaylistTracksLoaded { .. } => "playlist_tracks"@,
            EventView::SearchResults { .. } => "search"@,
            EventView::HomeLoaded(_) => "home"@,
            EventView::ArtistTracksLoaded { .. } => "artist_tracks"@,
            EventView::AlbumTracksLoaded { .. } => "album_tracks"@,
            EventView::ArtistSearchResults { .. } => "artist_search"@,
            _ => "other"@,
        },
{
    match ev {
        AppEvent::PlaylistsLoaded(_) => "playlists",
        AppEvent::LibrarySongsLoaded(_) => "songs",
        AppEvent::DownloadedTracksLoaded(_) => "downloaded_tracks",
        AppEvent::DownloadedTrackSaved(_) => "download_saved",
        AppEvent::AlbumsLoaded(_) => "albums",
        AppEvent::ArtistsLoaded(_) => "artists",
        AppEvent::PlaylistTracksLoaded { .. } => "playlist_tracks",
        AppEvent::SearchResults { .. } => "search",
        AppEvent::HomeLoaded(_) => "home",
        AppEvent::ArtistTracksLoaded { .. } => "artist_tracks",
        AppEvent::AlbumTracksLoaded { .. } => "album_tracks",
        AppEvent::ArtistSearchResults { .. } => "artist_search",
        _ => "other",
    }
}

/// How many rows an event brings: shelves, not cards, for the home feed.
pub open spec fn rows_in(ev: EventView) -> nat {
    match ev {
        EventView::PlaylistsLoaded(v) => v.len(),
        EventView::LibrarySongsLoaded(v) => v.len(),
        EventView::DownloadedTracksLoaded(v) => v.len(),
        EventView::DownloadedTrackSaved(_) => 1,
        EventView::AlbumsLoaded(v) => v.len(),
        EventView::ArtistsLoaded(v) => v.len(),
        EventView::PlaylistTracksLoaded { id: _, tracks } => tracks.len(),
        EventView::SearchResults { query: _, tracks } => tracks.len(),
        EventView::HomeLoaded(v) => v.len(),
        EventView::ArtistTracksLoaded { id: _, name: _, tracks } => tracks.len(),
        EventView::AlbumTracksLoaded { id: _, name: _, tracks } => tracks.len(),
        EventView::ArtistSearchResults { query: _, artists } => artists.len(),
        _ => 0,
    }
}

/// How many rows an event brings.
pub fn event_rows(ev: &AppEvent) -> (r: usize)
    ensures
        r == rows_in(ev.deep_view()),
{
    match ev {
        AppEvent::PlaylistsLoaded(v) => v.len(),
        AppEvent::LibrarySongsLoaded(v) => v.len(),
        AppEvent::DownloadedTracksLoaded(v) => v.len(),
        AppEvent::DownloadedTrackSaved(_) => 1,
        AppEvent::AlbumsLoaded(v) => v.len(),
        AppEvent::ArtistsLoaded(v) => v.len(),
        AppEvent::PlaylistTracksLoaded { id: _, tracks } => tracks.len(),
        AppEvent::SearchResults { query: _, tracks } => tracks.len(),
        AppEvent::HomeLoaded(v) => v.len(),
        AppEvent::ArtistTracksLoaded { id: _, name: _, tracks } => tracks.len(),
        AppEvent::AlbumTracksLoaded { id: _, name: _, tracks } => tracks.len(),
        AppEvent::ArtistSearchResults { query: _, artists } => artists.len(),
        _ => 0,
    }
}

/// A library answer without rows, under a cookie.
pub open spec fn looks_expired(cookie_auth: bool, ev: EventView) -> bool {
    cookie_auth && match ev {
        EventView::PlaylistsLoaded(v) => v.len() == 0,
        EventView::LibrarySongsLoaded(v) => v.len() == 0,
        EventView::AlbumsLoaded(v) => v.len() == 0,
        EventView::ArtistsLoaded(v) => v.len() == 0,
        _ => false,
    }
}

/// A library call that succeeded without rows, under a cookie, is the only signal
/// that an expired cookie gives.
pub fn empty_library_hint(cookie_auth: bool, ev: &AppEvent) -> (r: Option<String>)
    ensures
        r.deep_view() == if looks_expired(cookie_auth, ev.deep_view()) {
            Some(
                "library came back empty \u{2014} if that is wrong, the cookie expired; re-export it"@,
            )
        } else {
            None
        },
{
    let is_library: bool = match ev {
        AppEvent::PlaylistsLoaded(_)
        | AppEvent::LibrarySongsLoaded(_)
        | AppEvent::AlbumsLoaded(_)
        | AppEvent::ArtistsLoaded(_) => true,
        _ => false,
    };
    if cookie_auth && is_library && event_rows(ev) == 0 {
        Some(
            "library came back empty \u{2014} if that is wrong, the cookie expired; re-export it".to_owned(),
        )
    } else {
        None
    }
}

/// The picture to fetch for what is playing, if any; each is asked for once.
pub fn art_tick(art: &mut ArtCache, state: &AppState) -> (r: Option<String>)
    ensures
        ({
            let url = match state@.now_playing {
                Some(t) => t.thumbnail_url,
                None => None,
            };
            match url {
                Some(u) => final(art)@ == old(art)@.trying(u) && r.deep_view()
                    == if old(art)@.tried.contains(u) {
                    None
                } else {
                    Some(u)
                },
                None => final(art)@ == old(art)@ && r is None,
            }
        }),
{
    match state.art_url() {
        Some(url) => {
            if art.should_fetch(url.as_str()) {
                Some(url)
            } else {
                None
            }
        },
        None => None,
    }
}

} // verus!
