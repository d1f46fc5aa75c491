//! Everything that can change the application: the event loop's only vocabulary.

use crate::model::{
    Album, AlbumId, AlbumView, Artist, ArtistId, ArtistView, HomeShelf, HomeShelfView, Playlist,
    PlaylistId, PlaylistView, Track, TrackView,
};
use crate::player::{PlayerEvent, PlayerEventView};
use vstd::prelude::*;

verus! {

/// A key press already resolved through the keymap into an intent.
#[derive(Debug, Clone, Copy, PartialEq, Eq, Structural)]
pub enum InputAction {
    Quit,
    /// The escape hatch that nothing may shadow, a confirmation included.
    ForceQuit,
    Up,
    Down,
    PageUp,
    PageDown,
    Home,
    End,
    Left,
    Right,
    Confirm,
    Cancel,
    NextPane,
    PrevPane,
    GoTo(u8),
    TogglePause,
    NextTrack,
    PrevTrack,
    SeekForward,
    SeekBack,
    VolumeUp,
    VolumeDown,
    ToggleMute,
    ToggleShuffle,
    CycleRepeat,
    OpenSearch,
    /// Start a live filter over the rows on screen. Local, no request.
    OpenFilter,
    /// Scroll the list without moving the cursor off it.
    ScrollUp,
    ScrollDown,
    /// Centre the selected row in the viewport.
    CenterOnCursor,
    /// Select and reveal the currently playing row.
    FocusCurrent,
    OpenQueue,
    OpenHelp,
    AddToQueue,
    PlayNext,
    /// Reorder the selected queue entry.
    MoveEntryUp,
    MoveEntryDown,
    ClearQueue,
    CreatePlaylist,
    RenamePlaylist,
    DeletePlaylist,
    RemoveFromPlaylist,
    AddToPlaylist,
    Refresh,
    ToggleMark,
    /// Start or stop a range selection anchored at the current row.
    ToggleVisual,
    /// Cycle to the next built-in theme.
    CycleTheme,
    /// Open the configuration in an editor, reloading keys and theme afterwards.
    EditConfig,
    /// Download track(s) for offline listening.
    Download,
    Char(char),
    Backspace,
    /// Delete the word before the cursor.
    DeleteWordBack,
    /// Move the cursor a word at a time.
    WordLeft,
    WordRight,
    /// Move the cursor one character.
    CharLeft,
    CharRight,
    /// Jump to the start or end of the line.
    LineStart,
    LineEnd,
}

/// Something that happened.
#[derive(Debug, Clone, PartialEq, Eq)]
pub enum AppEvent {
    Input(InputAction),
    Player(PlayerEvent),
    Tick,
    Resize,
    PlaylistsLoaded(Vec<Playlist>),
    LibrarySongsLoaded(Vec<Track>),
    DownloadedTracksLoaded(Vec<Track>),
    DownloadedTrackSaved(Track),
    AlbumsLoaded(Vec<Album>),
    ArtistsLoaded(Vec<Artist>),
    PlaylistTracksLoaded { id: PlaylistId, tracks: Vec<Track> },
    /// Artists found by searching, replacing the library list.
    ArtistSearchResults { query: String, artists: Vec<Artist> },
    /// The home feed's shelves.
    HomeLoaded(Vec<HomeShelf>),
    /// An artist's top tracks, with the name for the heading.
    ArtistTracksLoaded { id: ArtistId, name: String, tracks: Vec<Track> },
    /// An album's songs, with the title for the heading.
    AlbumTracksLoaded { id: AlbumId, name: String, tracks: Vec<Track> },
    SearchResults { query: String, tracks: Vec<Track> },
    /// Tracks fetched in order to be queued; the toast says what was queued.
    EnqueueTracks { tracks: Vec<Track>, play_next: bool, toast: Option<String> },
    /// Album art arrived. The picture itself is kept by whoever draws it.
    ArtLoaded { url: String },
    /// Art could not be fetched or decoded. Not shown: art is optional.
    ArtFailed { url: String },
    /// A mutation succeeded on the server; `token` matches the optimistic edit.
    /// `real_id` is the server's id for a create, which replaces the temporary one.
    MutationOk { token: u64, real_id: Option<PlaylistId>, message: String },
    /// A mutation failed; the edit tagged with `token` is rolled back.
    MutationFailed { token: u64, message: String },
    Error(String),
    LoginNeeded { user_code: String, url: String },
    LoginComplete,
}

/// The model of an `AppEvent`.
#[verifier::ext_equal]
pub enum EventView {
    Input(InputAction),
    Player(PlayerEventView),
    Tick,
    Resize,
    PlaylistsLoaded(Seq<PlaylistView>),
    LibrarySongsLoaded(Seq<TrackView>),
    DownloadedTracksLoaded(Seq<TrackView>),
    DownloadedTrackSaved(TrackView),
    AlbumsLoaded(Seq<AlbumView>),
    ArtistsLoaded(Seq<ArtistView>),
    PlaylistTracksLoaded { id: Seq<char>, tracks: Seq<TrackView> },
    ArtistSearchResults { query: Seq<char>, artists: Seq<ArtistView> },
    HomeLoaded(Seq<HomeShelfView>),
    ArtistTracksLoaded { id: Seq<char>, name: Seq<char>, tracks: Seq<TrackView> },
    AlbumTracksLoaded { id: Seq<char>, name: Seq<char>, tracks: Seq<TrackView> },
    SearchResults { query: Seq<char>, tracks: Seq<TrackView> },
    EnqueueTracks { tracks: Seq<TrackView>, play_next: bool, toast: Option<Seq<char>> },
    ArtLoaded { url: Seq<char> },
    ArtFailed { url: Seq<char> },
    MutationOk { token: u64, real_id: Option<Seq<char>>, message: Seq<char> },
    MutationFailed { token: u64, message: Seq<char> },
    Error(Seq<char>),
    LoginNeeded { user_code: Seq<char>, url: Seq<char> },
    LoginComplete,
}

impl DeepView for AppEvent {
    type V = EventView;

    open spec fn deep_view(&self) -> EventView {
        match self {
            AppEvent::Input(a) => EventView::Input(*a),
            AppEvent::Player(e) => EventView::Player(e.deep_view()),
            AppEvent::Tick => EventView::Tick,
            AppEvent::Resize => EventView::Resize,
            AppEvent::PlaylistsLoaded(v) => EventView::PlaylistsLoaded(v.deep_view()),
            AppEvent::LibrarySongsLoaded(v) => EventView::LibrarySongsLoaded(v.deep_view()),
            AppEvent::DownloadedTracksLoaded(v) => EventView::DownloadedTracksLoaded(
                v.deep_view(),
            ),
            AppEvent::DownloadedTrackSaved(t) => EventView::DownloadedTrackSaved(t.deep_view()),
            AppEvent::AlbumsLoaded(v) => EventView::AlbumsLoaded(v.deep_view()),
            AppEvent::ArtistsLoaded(v) => EventView::ArtistsLoaded(v.deep_view()),
            AppEvent::PlaylistTracksLoaded { id, tracks } => EventView::PlaylistTracksLoaded {
                id: id.deep_view(),
                tracks: tracks.deep_view(),
            },
            AppEvent::ArtistSearchResults { query, artists } => EventView::ArtistSearchResults {
                query: query@,
                artists: artists.deep_view(),
            },
            AppEvent::HomeLoaded(v) => EventView::HomeLoaded(v.deep_view()),
            AppEvent::ArtistTracksLoaded { id, name, tracks } => EventView::ArtistTracksLoaded {
                id: id.deep_view(),
                name: name@,
                tracks: tracks.deep_view(),
            },
            AppEvent::AlbumTracksLoaded { id, name, tracks } => EventView::AlbumTracksLoaded {
                id: id.deep_view(),
                name: name@,
                tracks: tracks.deep_view(),
            },
            AppEvent::SearchResults { query, tracks } => EventView::SearchResults {
                query: query@,
                tracks: tracks.deep_view(),
            },
            AppEvent::EnqueueTracks { tracks, play_next, toast } => EventView::EnqueueTracks {
                tracks: tracks.deep_view(),
                play_next: *play_next,
                toast: toast.deep_view(),
            },
            AppEvent::ArtLoaded { url } => EventView::ArtLoaded { url: url@ },
            AppEvent::ArtFailed { url } => EventView::ArtFailed { url: url@ },
            AppEvent::MutationOk { token, real_id, message } => EventView::MutationOk {
                token: *token,
                real_id: real_id.deep_view(),
                message: message@,
            },
            AppEvent::MutationFailed { token, message } => EventView::MutationFailed {
                token: *token,
                message: message@,
            },
            AppEvent::Error(m) => EventView::Error(m@),
            AppEvent::LoginNeeded { user_code, url } => EventView::LoginNeeded {
                user_code: user_code@,
                url: url@,
            },
            AppEvent::LoginComplete => EventView::LoginComplete,
        }
    }
}

} // verus!
