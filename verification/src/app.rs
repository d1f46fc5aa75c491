//! The application state and the transitions that change nothing but it.

use crate::copied::Copied;
use crate::marks::MarkSet;
use crate::model::{
    Album, AlbumId, AlbumView, Artist, ArtistId, ArtistView, HomeItem, HomeItemView, HomeTarget,
    HomeTargetView, Playlist, PlaylistId, PlaylistView, SetVideoId, Track, TrackDuration, TrackView,
    VideoId,
};
use crate::mutation::{PendingLog, PendingView};
use crate::player::{PlaybackState, RepeatMode};
use crate::text::{self, join2, passes_filter};
use vstd::prelude::*;

verus! {

/// The sources of the sidebar.
#[derive(Debug, Clone, Copy, PartialEq, Eq, Structural)]
pub enum Pane {
    Home,
    Playlists,
    Songs,
    Albums,
    Artists,
    Search,
    Queue,
    Downloads,
}

/// The sources in the order of their jump keys.
pub const PANE_ORDER: [Pane; 8] = [
    Pane::Home,
    Pane::Playlists,
    Pane::Songs,
    Pane::Albums,
    Pane::Artists,
    Pane::Search,
    Pane::Queue,
    Pane::Downloads,
];

impl Pane {
    /// Shows what belongs to an account, so a guest cannot enter it.
    pub open spec fn needs_account(self) -> bool {
        self is Home || self is Playlists || self is Songs || self is Albums || self is Artists
    }

    pub fn requires_auth(self) -> (r: bool)
        ensures
            r == self.needs_account(),
    {
        match self {
            Pane::Home | Pane::Playlists | Pane::Songs | Pane::Albums | Pane::Artists => true,
            Pane::Search | Pane::Queue | Pane::Downloads => false,
        }
    }

    /// What a guest who asks for it is told is missing.
    pub open spec fn label(self) -> Seq<char> {
        match self {
            Pane::Home => "Home"@,
            Pane::Playlists => "Playlists"@,
            Pane::Songs => "Fav"@,
            Pane::Albums => "Albums"@,
            Pane::Artists => "Artists"@,
            Pane::Search => "Search"@,
            Pane::Queue => "Queue"@,
            Pane::Downloads => "Downloads"@,
        }
    }

    pub fn name(self) -> (r: &'static str)
        ensures
            r@ == self.label(),
    {
        match self {
            Pane::Home => "Home",
            Pane::Playlists => "Playlists",
            Pane::Songs => "Fav",
            Pane::Albums => "Albums",
            Pane::Artists => "Artists",
            Pane::Search => "Search",
            Pane::Queue => "Queue",
            Pane::Downloads => "Downloads",
        }
    }
}

/// Where key presses go.
#[derive(Debug, Clone, Copy, PartialEq, Eq, Structural)]
pub enum Focus {
    Sidebar,
    Main,
    SearchInput,
    FilterInput,
}

/// What submitting a prompt does.
#[derive(Debug, Clone, PartialEq, Eq)]
pub enum PromptAction {
    CreatePlaylist,
    RenamePlaylist(PlaylistId),
}

/// The model of a `PromptAction`.
pub enum PromptActionView {
    CreatePlaylist,
    RenamePlaylist(Seq<char>),
}

impl DeepView for PromptAction {
    type V = PromptActionView;

    open spec fn deep_view(&self) -> PromptActionView {
        match self {
            PromptAction::CreatePlaylist => PromptActionView::CreatePlaylist,
            PromptAction::RenamePlaylist(id) => PromptActionView::RenamePlaylist(id.deep_view()),
        }
    }
}

impl Copied for PromptAction {
    fn copy(&self) -> (r: Self) {
        match self {
            PromptAction::CreatePlaylist => PromptAction::CreatePlaylist,
            PromptAction::RenamePlaylist(id) => PromptAction::RenamePlaylist(id.copy()),
        }
    }
}

/// What a confirmation stands in front of.
#[derive(Debug, Clone, PartialEq, Eq)]
pub enum ConfirmAction {
    Quit,
    DeletePlaylist(PlaylistId),
    RemoveTracks { playlist: PlaylistId, entries: Vec<SetVideoId> },
}

/// The model of a `ConfirmAction`.
#[verifier::ext_equal]
pub enum ConfirmActionView {
    Quit,
    DeletePlaylist(Seq<char>),
    RemoveTracks { playlist: Seq<char>, entries: Seq<Seq<char>> },
}

impl DeepView for ConfirmAction {
    type V = ConfirmActionView;

    open spec fn deep_view(&self) -> ConfirmActionView {
        match self {
            ConfirmAction::Quit => ConfirmActionView::Quit,
            ConfirmAction::DeletePlaylist(id) => ConfirmActionView::DeletePlaylist(id.deep_view()),
            ConfirmAction::RemoveTracks { playlist, entries } => ConfirmActionView::RemoveTracks {
                playlist: playlist.deep_view(),
                entries: entries.deep_view(),
            },
        }
    }
}

impl Copied for ConfirmAction {
    fn copy(&self) -> (r: Self) {
        match self {
            ConfirmAction::Quit => ConfirmAction::Quit,
            ConfirmAction::DeletePlaylist(id) => ConfirmAction::DeletePlaylist(id.copy()),
            ConfirmAction::RemoveTracks { playlist, entries } => ConfirmAction::RemoveTracks {
                playlist: playlist.copy(),
                entries: entries.copy(),
            },
        }
    }
}

/// An overlay. While one is open it owns the keyboard.
#[derive(Debug, Clone, PartialEq, Eq)]
pub enum Modal {
    Prompt { title: String, value: String, action: PromptAction },
    Confirm { text: String, action: ConfirmAction },
    PickPlaylist {
        targets: Vec<VideoId>,
        choices: Vec<(PlaylistId, String)>,
        selected: usize,
    },
    Login { user_code: String, url: String },
    Help,
}

/// The model of a `Modal`.
#[verifier::ext_equal]
pub enum ModalView {
    Prompt { title: Seq<char>, value: Seq<char>, action: PromptActionView },
    Confirm { text: Seq<char>, action: ConfirmActionView },
    PickPlaylist {
        targets: Seq<Seq<char>>,
        choices: Seq<(Seq<char>, Seq<char>)>,
        selected: usize,
    },
    Login { user_code: Seq<char>, url: Seq<char> },
    Help,
}

impl DeepView for Modal {
    type V = ModalView;

    open spec fn deep_view(&self) -> ModalView {
        match self {
            Modal::Prompt { title, value, action } => ModalView::Prompt {
                title: title@,
                value: value@,
                action: action.deep_view(),
            },
            Modal::Confirm { text, action } => ModalView::Confirm {
                text: text@,
                action: action.deep_view(),
            },
            Modal::PickPlaylist { targets, choices, selected } => ModalView::PickPlaylist {
                targets: targets.deep_view(),
                choices: choices.deep_view(),
                selected: *selected,
            },
            Modal::Login { user_code, url } => ModalView::Login {
                user_code: user_code@,
                url: url@,
            },
            Modal::Help => ModalView::Help,
        }
    }
}

#[derive(Debug, Clone, Copy, PartialEq, Eq, Structural)]
pub enum ToastKind {
    Info,
    Success,
    Error,
}

/// A passing message.
#[derive(Debug, Clone, PartialEq, Eq)]
pub struct Toast {
    pub kind: ToastKind,
    pub text: String,
    /// When it appeared, on the clock of `AppState::elapsed_ms`.
    pub since_ms: u64,
}

/// The model of a `Toast`.
#[verifier::ext_equal]
pub struct ToastView {
    pub kind: ToastKind,
    pub text: Seq<char>,
    pub since_ms: u64,
}

impl DeepView for Toast {
    type V = ToastView;

    open spec fn deep_view(&self) -> ToastView {
        ToastView { kind: self.kind, text: self.text@, since_ms: self.since_ms }
    }
}

impl Copied for Toast {
    fn copy(&self) -> (r: Self) {
        Toast { kind: self.kind, text: self.text.clone(), since_ms: self.since_ms }
    }
}

/// How long a toast stays.
pub const TOAST_MS: u64 = 4000;

/// One line of the home feed: the title of a shelf, or one of its cards.
#[derive(Debug, Clone, PartialEq, Eq)]
pub enum HomeRow {
    Shelf(String),
    Item(HomeItem),
}

/// The model of a `HomeRow`.
#[verifier::ext_equal]
pub enum HomeRowView {
    Shelf(Seq<char>),
    Item(HomeItemView),
}

impl DeepView for HomeRow {
    type V = HomeRowView;

    open spec fn deep_view(&self) -> HomeRowView {
        match self {
            HomeRow::Shelf(t) => HomeRowView::Shelf(t@),
            HomeRow::Item(i) => HomeRowView::Item(i.deep_view()),
        }
    }
}

/// A row with a title the filter can look at.
pub trait Titled: DeepView + Sized {
    spec fn title_in(v: Self::V) -> Seq<char>;

    fn title_text(&self) -> (r: String)
        ensures
            r@ == Self::title_in(self.deep_view()),
    ;
}

impl Titled for Track {
    open spec fn title_in(v: TrackView) -> Seq<char> {
        v.title
    }

    fn title_text(&self) -> (r: String) {
        self.title.clone()
    }
}

impl Titled for Playlist {
    open spec fn title_in(v: PlaylistView) -> Seq<char> {
        v.title
    }

    fn title_text(&self) -> (r: String) {
        self.title.clone()
    }
}

impl Titled for Album {
    open spec fn title_in(v: AlbumView) -> Seq<char> {
        v.title
    }

    fn title_text(&self) -> (r: String) {
        self.title.clone()
    }
}

impl Titled for Artist {
    open spec fn title_in(v: ArtistView) -> Seq<char> {
        v.name
    }

    fn title_text(&self) -> (r: String) {
        self.name.clone()
    }
}

impl Titled for HomeRow {
    open spec fn title_in(v: HomeRowView) -> Seq<char> {
        match v {
            HomeRowView::Shelf(t) => t,
            HomeRowView::Item(i) => i.title,
        }
    }

    fn title_text(&self) -> (r: String) {
        match self {
            HomeRow::Shelf(t) => t.clone(),
            HomeRow::Item(i) => i.title.clone(),
        }
    }
}

/// The titles of some rows.
pub open spec fn titles<T: Titled>(s: Seq<T::V>) -> Seq<Seq<char>> {
    Seq::new(s.len(), |i: int| T::title_in(s[i]))
}

fn titles_of<T: Titled>(v: &Vec<T>) -> (r: Vec<String>)
    ensures
        r.deep_view() == titles::<T>(v.deep_view()),
{
    let mut out: Vec<String> = Vec::new();
    let mut i: usize = 0;
    while i < v.len()
        invariant
            i <= v@.len(),
            out@.len() == i,
            forall|k: int| 0 <= k < i ==> out@[k]@ == T::title_in(v@[k].deep_view()),
        decreases v@.len() - i,
    {
        out.push(v[i].title_text());
        i += 1;
    }
    assert(out.deep_view() =~= titles::<T>(v.deep_view()));
    out
}

/// The places where `keep` holds, in order.
pub open spec fn kept(keep: Seq<bool>) -> Seq<int>
    decreases keep.len(),
{
    if keep.len() == 0 {
        Seq::empty()
    } else if keep.last() {
        kept(keep.drop_last()).push(keep.len() - 1)
    } else {
        kept(keep.drop_last())
    }
}

/// The places of the titles a filter keeps.
pub open spec fn filtered(rows: Seq<Seq<char>>, filter: Seq<char>) -> Seq<int> {
    kept(Seq::new(rows.len(), |i: int| text::passes(filter, rows[i])))
}

/// The same numbers without their machine size.
pub open spec fn ints(s: Seq<usize>) -> Seq<int> {
    Seq::new(s.len(), |i: int| s[i] as int)
}

fn filtered_rows(rows: &Vec<String>, filter: &str) -> (r: Vec<usize>)
    ensures
        ints(r@) == filtered(rows.deep_view(), filter@),
        forall|k: int| 0 <= k < r@.len() ==> (#[trigger] r@[k]) < rows@.len(),
{
    let ghost keep = Seq::new(rows.deep_view().len(), |i: int| text::passes(filter@, rows.deep_view()[i]));
    let mut out: Vec<usize> = Vec::new();
    let mut i: usize = 0;
    while i < rows.len()
        invariant
            i <= rows@.len(),
            keep == Seq::new(
                rows.deep_view().len(),
                |i: int| text::passes(filter@, rows.deep_view()[i]),
            ),
            ints(out@) == kept(keep.take(i as int)),
            forall|k: int| 0 <= k < out@.len() ==> (#[trigger] out@[k]) < i,
        decreases rows@.len() - i,
    {
        let ghost upto = keep.take(i + 1);
        assert(upto.drop_last() =~= keep.take(i as int));
        assert(upto.last() == text::passes(filter@, rows@[i as int]@));
        if passes_filter(filter, rows[i].as_str()) {
            let ghost before = out@;
            out.push(i);
            assert(ints(out@) =~= ints(before).push(i as int));
        }
        i += 1;
    }
    assert(keep.take(i as int) =~= keep);
    out
}

/// Every place `kept` names is a place where `keep` holds, and they ascend.
pub proof fn lemma_kept(keep: Seq<bool>)
    ensures
        kept(keep).len() <= keep.len(),
        forall|k: int|
            0 <= k < kept(keep).len() ==> 0 <= #[trigger] kept(keep)[k] < keep.len()
                && keep[kept(keep)[k]],
        forall|j: int, k: int|
            0 <= j < k < kept(keep).len() ==> #[trigger] kept(keep)[j] < #[trigger] kept(keep)[k],
    decreases keep.len(),
{
    if keep.len() > 0 {
        let rest = keep.drop_last();
        lemma_kept(rest);
        assert forall|k: int| 0 <= k < kept(keep).len() implies 0 <= #[trigger] kept(keep)[k]
            < keep.len() && keep[kept(keep)[k]] by {
            if k < kept(rest).len() {
                assert(kept(keep)[k] == kept(rest)[k]);
                assert(rest[kept(rest)[k]]);
            }
        }
        assert forall|j: int, k: int| 0 <= j < k < kept(keep).len() implies #[trigger] kept(keep)[j]
            < #[trigger] kept(keep)[k] by {
            assert(kept(keep)[j] == kept(rest)[j]);
            if k < kept(rest).len() {
                assert(kept(keep)[k] == kept(rest)[k]);
            }
        }
    }
}

/// Everything the interface shows or decides by.
#[derive(Debug, Clone, PartialEq, Eq)]
pub struct AppState {
    /// No account: the library panes stay closed.
    pub guest: bool,
    pub pane: Pane,
    pub sidebar_selected: usize,
    pub focus: Focus,
    pub playlists: Vec<Playlist>,
    /// The liked songs, or the rows of the open playlist.
    pub tracks: Vec<Track>,
    pub albums: Vec<Album>,
    pub artists: Vec<Artist>,
    pub home_rows: Vec<HomeRow>,
    pub open_playlist: Option<PlaylistId>,
    pub open_artist: Option<(ArtistId, String)>,
    pub artist_tracks: Vec<Track>,
    pub open_album: Option<(AlbumId, String)>,
    pub album_tracks: Vec<Track>,
    pub search_query: String,
    /// The place of the caret in the query, in characters.
    pub search_caret: usize,
    pub search_results: Vec<Track>,
    /// The Artists pane has its query field open.
    pub artist_search_active: bool,
    pub downloaded_tracks: Vec<Track>,
    /// The queue as the player last reported it.
    pub queue: Vec<Track>,
    pub queue_current: Option<usize>,
    /// The cursor, counting visible rows.
    pub selected: usize,
    pub scroll_offset: usize,
    /// Rows of list on screen.
    pub viewport_rows: usize,
    pub filter: String,
    pub marked: MarkSet,
    /// The marks a range selection started with.
    pub marks_before_visual: MarkSet,
    /// Where the range selection started.
    pub visual_anchor: Option<usize>,
    pub modal: Option<Modal>,
    pub toasts: Vec<Toast>,
    pub pending: PendingLog,
    pub loading: bool,
    pub elapsed_ms: u64,
    pub should_quit: bool,
    pub volume: u8,
    pub muted: bool,
    pub shuffle: bool,
    pub repeat: RepeatMode,
    pub now_playing: Option<Track>,
    pub playback: PlaybackState,
    pub position: TrackDuration,
    pub duration: TrackDuration,
}

/// The model of an `AppState`.
pub struct StateView {
    pub guest: bool,
    pub pane: Pane,
    pub sidebar_selected: usize,
    pub focus: Focus,
    pub playlists: Seq<PlaylistView>,
    pub tracks: Seq<TrackView>,
    pub albums: Seq<AlbumView>,
    pub artists: Seq<ArtistView>,
    pub home_rows: Seq<HomeRowView>,
    pub open_playlist: Option<Seq<char>>,
    pub open_artist: Option<(Seq<char>, Seq<char>)>,
    pub artist_tracks: Seq<TrackView>,
    pub open_album: Option<(Seq<char>, Seq<char>)>,
    pub album_tracks: Seq<TrackView>,
    pub search_query: Seq<char>,
    pub search_caret: usize,
    pub search_results: Seq<TrackView>,
    pub artist_search_active: bool,
    pub downloaded_tracks: Seq<TrackView>,
    pub queue: Seq<TrackView>,
    pub queue_current: Option<usize>,
    pub selected: usize,
    pub scroll_offset: usize,
    pub viewport_rows: usize,
    pub filter: Seq<char>,
    pub marked: Set<Seq<char>>,
    pub marks_before_visual: Set<Seq<char>>,
    pub visual_anchor: Option<usize>,
    pub modal: Option<ModalView>,
    pub toasts: Seq<ToastView>,
    pub pending: PendingView,
    pub loading: bool,
    pub elapsed_ms: u64,
    pub should_quit: bool,
    pub volume: u8,
    pub muted: bool,
    pub shuffle: bool,
    pub repeat: RepeatMode,
    pub now_playing: Option<TrackView>,
    pub playback: PlaybackState,
    pub position: u64,
    pub duration: u64,
}

impl View for AppState {
    type V = StateView;

    open spec fn view(&self) -> StateView {
        self.model()
    }
}

impl AppState {
    /// What the fields hold.
    #[verifier::opaque]
    pub open spec fn model(&self) -> StateView {
        StateView {
            guest: self.guest,
            pane: self.pane,
            sidebar_selected: self.sidebar_selected,
            focus: self.focus,
            playlists: self.playlists.deep_view(),
            tracks: self.tracks.deep_view(),
            albums: self.albums.deep_view(),
            artists: self.artists.deep_view(),
            home_rows: self.home_rows.deep_view(),
            open_playlist: self.open_playlist.deep_view(),
            open_artist: self.open_artist.deep_view(),
            artist_tracks: self.artist_tracks.deep_view(),
            open_album: self.open_album.deep_view(),
            album_tracks: self.album_tracks.deep_view(),
            search_query: self.search_query@,
            search_caret: self.search_caret,
            search_results: self.search_results.deep_view(),
            artist_search_active: self.artist_search_active,
            downloaded_tracks: self.downloaded_tracks.deep_view(),
            queue: self.queue.deep_view(),
            queue_current: self.queue_current,
            selected: self.selected,
            scroll_offset: self.scroll_offset,
            viewport_rows: self.viewport_rows,
            filter: self.filter@,
            marked: self.marked@,
            marks_before_visual: self.marks_before_visual@,
            visual_anchor: self.visual_anchor,
            modal: self.modal.deep_view(),
            toasts: self.toasts.deep_view(),
            pending: self.pending@,
            loading: self.loading,
            elapsed_ms: self.elapsed_ms,
            should_quit: self.should_quit,
            volume: self.volume,
            muted: self.muted,
            shuffle: self.shuffle,
            repeat: self.repeat,
            now_playing: self.now_playing.deep_view(),
            playback: self.playback,
            position: self.position.deep_view(),
            duration: self.duration.deep_view(),
        }
    }
}

/// The model of a state shows each of its fields.
pub proof fn state_shows_its_fields(s: &AppState)
    ensures
        s@.guest == s.guest,
        s@.pane == s.pane,
        s@.sidebar_selected == s.sidebar_selected,
        s@.focus == s.focus,
        s@.playlists == s.playlists.deep_view(),
        s@.tracks == s.tracks.deep_view(),
        s@.albums == s.albums.deep_view(),
        s@.artists == s.artists.deep_view(),
        s@.home_rows == s.home_rows.deep_view(),
        s@.open_playlist == s.open_playlist.deep_view(),
        s@.open_artist == s.open_artist.deep_view(),
        s@.artist_tracks == s.artist_tracks.deep_view(),
        s@.open_album == s.open_album.deep_view(),
        s@.album_tracks == s.album_tracks.deep_view(),
        s@.search_query == s.search_query@,
        s@.search_caret == s.search_caret,
        s@.search_results == s.search_results.deep_view(),
        s@.artist_search_active == s.artist_search_active,
        s@.downloaded_tracks == s.downloaded_tracks.deep_view(),
        s@.queue == s.queue.deep_view(),
        s@.queue_current == s.queue_current,
        s@.selected == s.selected,
        s@.scroll_offset == s.scroll_offset,
        s@.viewport_rows == s.viewport_rows,
        s@.filter == s.filter@,
        s@.marked == s.marked@,
        s@.marks_before_visual == s.marks_before_visual@,
        s@.visual_anchor == s.visual_anchor,
        s@.modal == s.modal.deep_view(),
        s@.toasts == s.toasts.deep_view(),
        s@.pending == s.pending@,
        s@.loading == s.loading,
        s@.elapsed_ms == s.elapsed_ms,
        s@.should_quit == s.should_quit,
        s@.volume == s.volume,
        s@.muted == s.muted,
        s@.shuffle == s.shuffle,
        s@.repeat == s.repeat,
        s@.now_playing == s.now_playing.deep_view(),
        s@.playback == s.playback,
        s@.position == s.position.deep_view(),
        s@.duration == s.duration.deep_view(),
{
    reveal(AppState::model);
}

/// The same, of the fields that are no lists.
pub proof fn state_shows_its_switches(s: &AppState)
    ensures
        s@.guest == s.guest,
        s@.pane == s.pane,
        s@.sidebar_selected == s.sidebar_selected,
        s@.focus == s.focus,
        s@.open_playlist == s.open_playlist.deep_view(),
        s@.open_artist == s.open_artist.deep_view(),
        s@.open_album == s.open_album.deep_view(),
        s@.search_query == s.search_query@,
        s@.search_caret == s.search_caret,
        s@.artist_search_active == s.artist_search_active,
        s@.queue_current == s.queue_current,
        s@.selected == s.selected,
        s@.scroll_offset == s.scroll_offset,
        s@.viewport_rows == s.viewport_rows,
        s@.filter == s.filter@,
        s@.marked == s.marked@,
        s@.marks_before_visual == s.marks_before_visual@,
        s@.visual_anchor == s.visual_anchor,
        s@.modal == s.modal.deep_view(),
        s@.pending == s.pending@,
        s@.loading == s.loading,
        s@.elapsed_ms == s.elapsed_ms,
        s@.should_quit == s.should_quit,
        s@.volume == s.volume,
        s@.muted == s.muted,
        s@.shuffle == s.shuffle,
        s@.repeat == s.repeat,
        s@.playback == s.playback,
        s@.position == s.position.deep_view(),
        s@.duration == s.duration.deep_view(),
{
    reveal(AppState::model);
}

impl StateView {
    /// A signed-in session that has loaded nothing yet.
    pub open spec fn initial() -> StateView {
        StateView {
            guest: false,
            pane: Pane::Playlists,
            sidebar_selected: 1,
            focus: Focus::Main,
            playlists: Seq::empty(),
            tracks: Seq::empty(),
            albums: Seq::empty(),
            artists: Seq::empty(),
            home_rows: Seq::empty(),
            open_playlist: None,
            open_artist: None,
            artist_tracks: Seq::empty(),
            open_album: None,
            album_tracks: Seq::empty(),
            search_query: Seq::empty(),
            search_caret: 0,
            search_results: Seq::empty(),
            artist_search_active: false,
            downloaded_tracks: Seq::empty(),
            queue: Seq::empty(),
            queue_current: None,
            selected: 0,
            scroll_offset: 0,
            viewport_rows: 0,
            filter: Seq::empty(),
            marked: Set::empty(),
            marks_before_visual: Set::empty(),
            visual_anchor: None,
            modal: None,
            toasts: Seq::empty(),
            pending: PendingView::empty(),
            loading: false,
            elapsed_ms: 0,
            should_quit: false,
            volume: 70,
            muted: false,
            shuffle: false,
            repeat: RepeatMode::Off,
            now_playing: None,
            playback: PlaybackState::Stopped,
            position: 0,
            duration: 0,
        }
    }

    /// The tracks the pane lists, before the filter; `None` where its rows are not tracks.
    pub open spec fn track_list(self) -> Option<Seq<TrackView>> {
        match self.pane {
            Pane::Home => None,
            Pane::Songs => Some(self.tracks),
            Pane::Playlists => if self.open_playlist is Some {
                Some(self.tracks)
            } else {
                None
            },
            Pane::Albums => if self.open_album is Some {
                Some(self.album_tracks)
            } else {
                None
            },
            Pane::Artists => if self.open_artist is Some {
                Some(self.artist_tracks)
            } else {
                None
            },
            Pane::Search => Some(self.search_results),
            Pane::Queue => Some(self.queue),
            Pane::Downloads => Some(self.downloaded_tracks),
        }
    }

    /// The tracks the pane lists, before the filter; none where its rows are not tracks.
    pub open spec fn track_rows(self) -> Seq<TrackView> {
        match self.track_list() {
            Some(ts) => ts,
            None => Seq::empty(),
        }
    }

    /// The titles of the rows the pane lists, before the filter.
    pub open spec fn row_titles(self) -> Seq<Seq<char>> {
        match self.track_list() {
            Some(ts) => titles::<Track>(ts),
            None => match self.pane {
                Pane::Home => titles::<HomeRow>(self.home_rows),
                Pane::Albums => titles::<Album>(self.albums),
                Pane::Artists => titles::<Artist>(self.artists),
                _ => titles::<Playlist>(self.playlists),
            },
        }
    }

    /// The places of the rows on screen among those the pane lists.
    pub open spec fn visible(self) -> Seq<int> {
        filtered(self.row_titles(), self.filter)
    }

    /// The place of the row under the cursor among those the pane lists.
    pub open spec fn cursor_row(self) -> Option<int> {
        if self.selected < self.visible().len() {
            Some(self.visible()[self.selected as int])
        } else {
            None
        }
    }

    /// The playlist under the cursor, where the pane lists playlists.
    pub open spec fn selected_playlist(self) -> Option<PlaylistView> {
        match self.cursor_row() {
            Some(i) => if self.pane is Playlists && self.open_playlist is None {
                Some(self.playlists[i])
            } else {
                None
            },
            None => None,
        }
    }

    /// The artist under the cursor, where the pane lists artists.
    pub open spec fn selected_artist(self) -> Option<ArtistView> {
        match self.cursor_row() {
            Some(i) => if self.pane is Artists && self.open_artist is None {
                Some(self.artists[i])
            } else {
                None
            },
            None => None,
        }
    }

    /// The album under the cursor, where the pane lists albums.
    pub open spec fn selected_album(self) -> Option<AlbumView> {
        match self.cursor_row() {
            Some(i) => if self.pane is Albums && self.open_album is None {
                Some(self.albums[i])
            } else {
                None
            },
            None => None,
        }
    }

    /// The card under the cursor, on the home feed.
    pub open spec fn selected_home_item(self) -> Option<HomeItemView> {
        match self.cursor_row() {
            Some(i) => if self.pane is Home {
                match self.home_rows[i] {
                    HomeRowView::Item(item) => Some(item),
                    HomeRowView::Shelf(_) => None,
                }
            } else {
                None
            },
            None => None,
        }
    }

    /// The track under the cursor: a row of a track list, or a card that is one.
    pub open spec fn selected_track(self) -> Option<TrackView> {
        match self.track_list() {
            Some(ts) => match self.cursor_row() {
                Some(i) => Some(ts[i]),
                None => None,
            },
            None => match self.selected_home_item() {
                Some(item) => match item.target {
                    HomeTargetView::Track(id) => Some(
                        TrackView {
                            thumbnail_url: item.thumbnail_url,
                            ..TrackView::stub(id, item.title)
                        },
                    ),
                    _ => None,
                },
                None => None,
            },
        }
    }

    /// The place in the queue of the row under the cursor, in the queue pane.
    pub open spec fn queue_index_of_selected(self) -> Option<int> {
        if self.pane is Queue {
            self.cursor_row()
        } else {
            None
        }
    }

    /// A query row stands above the list.
    pub open spec fn search_row_visible(self) -> bool {
        self.pane is Search || (self.pane is Artists && self.artist_search_active)
    }

    /// A filter row stands above the list.
    pub open spec fn filter_row_visible(self) -> bool {
        self.focus is FilterInput || self.filter.len() > 0
    }

    /// A column header stands above the list.
    pub open spec fn column_header_visible(self) -> bool {
        self.track_list() is Some && self.visible().len() > 0
    }

    /// Where key presses are to be resolved: an open prompt or question is a text field.
    pub open spec fn input_focus(self) -> Focus {
        match self.modal {
            Some(ModalView::Prompt { .. }) | Some(ModalView::Confirm { .. }) => Focus::SearchInput,
            Some(_) => Focus::Main,
            None => self.focus,
        }
    }

    /// With one message more.
    #[verifier::opaque]
    pub open spec fn toasted(self, kind: ToastKind, text: Seq<char>, now: u64) -> StateView {
        StateView { toasts: self.toasts.push(ToastView { kind, text, since_ms: now }), ..self }
    }

    /// With one message more, as of now.
    #[verifier::opaque]
    pub open spec fn told(self, kind: ToastKind, text: Seq<char>) -> StateView {
        self.toasted(kind, text, self.elapsed_ms)
    }

    /// A guest asked for something that takes an account.
    #[verifier::opaque]
    pub open spec fn refused(self, what: Seq<char>) -> StateView {
        self.told(ToastKind::Info, what + " needs an account; set auth.cookie_file to sign in"@)
    }

    /// Without any mark, and without a range selection.
    #[verifier::opaque]
    pub open spec fn unmarked(self) -> StateView {
        StateView {
            marked: Set::empty(),
            marks_before_visual: Set::empty(),
            visual_anchor: None,
            ..self
        }
    }

    /// With the cursor on a row that exists, where one does.
    #[verifier::opaque]
    pub open spec fn clamped(self) -> StateView {
        let n = self.visible().len();
        let sel = if self.selected < n {
            self.selected
        } else if n > 0 {
            (n - 1) as usize
        } else {
            0
        };
        StateView {
            selected: sel,
            scroll_offset: if self.scroll_offset < sel {
                self.scroll_offset
            } else {
                sel
            },
            ..self
        }
    }

    /// The ids of the visible tracks from `lo` up to `hi`.
    pub open spec fn ids_between(self, lo: int, hi: int) -> Seq<Seq<char>> {
        let rows = self.track_rows();
        let vis = self.visible();
        let end = if hi < vis.len() {
            hi
        } else {
            vis.len() as int
        };
        if self.track_list() is Some && lo < end {
            Seq::new((end - lo) as nat, |k: int| rows[vis[lo + k]].video_id)
        } else {
            Seq::empty()
        }
    }

    /// With the range selection stretched from its anchor to the cursor, on top of
    /// the marks it started with.
    #[verifier::opaque]
    pub open spec fn stretched(self) -> StateView {
        match self.visual_anchor {
            None => self,
            Some(a) => {
                let (lo, hi) = if a < self.selected {
                    (a, self.selected)
                } else {
                    (self.selected, a)
                };
                StateView {
                    marked: self.marks_before_visual.union(
                        self.ids_between(lo as int, hi + 1).to_set(),
                    ),
                    ..self
                }
            },
        }
    }

    /// The first row on screen, chosen so that the cursor is on screen.
    pub open spec fn revealing(self, row: usize) -> usize {
        if self.viewport_rows == 0 {
            self.scroll_offset
        } else if row < self.scroll_offset {
            row
        } else if row - self.scroll_offset >= self.viewport_rows {
            (row - self.viewport_rows + 1) as usize
        } else {
            self.scroll_offset
        }
    }

    /// With the cursor moved to this row.
    #[verifier::opaque]
    pub open spec fn on_row(self, row: usize) -> StateView {
        (StateView { selected: row, scroll_offset: self.revealing(row), ..self }).stretched()
    }

    /// With the source of this number open; a guest is told why not.
    #[verifier::opaque]
    pub open spec fn at_source(self, n: u8) -> StateView {
        if 1 <= n <= 8 {
            let pane = PANE_ORDER@[n - 1];
            if self.guest && pane.needs_account() {
                self.refused(pane.label())
            } else {
                (StateView {
                    pane,
                    sidebar_selected: (n - 1) as usize,
                    focus: if pane is Search {
                        Focus::SearchInput
                    } else {
                        Focus::Main
                    },
                    open_playlist: None,
                    open_artist: None,
                    open_album: None,
                    artist_search_active: false,
                    selected: 0,
                    scroll_offset: 0,
                    filter: Seq::empty(),
                    ..self
                }).unmarked()
            }
        } else {
            self
        }
    }

    /// With the track under the cursor marked, or no longer marked.
    #[verifier::opaque]
    pub open spec fn mark_toggled(self) -> StateView {
        match (self.track_list(), self.cursor_row()) {
            (Some(ts), Some(i)) => {
                let id = ts[i].video_id;
                StateView {
                    marked: if self.marked.contains(id) {
                        self.marked.remove(id)
                    } else {
                        self.marked.insert(id)
                    },
                    ..self
                }
            },
            _ => self,
        }
    }

    /// With a range selection begun at the cursor, or the one under way ended.
    #[verifier::opaque]
    pub open spec fn visual_toggled(self) -> StateView {
        match self.visual_anchor {
            None => (StateView {
                visual_anchor: Some(self.selected),
                marks_before_visual: self.marked,
                ..self
            }).stretched(),
            Some(_) => StateView {
                visual_anchor: None,
                marks_before_visual: Set::empty(),
                ..self
            },
        }
    }
}

impl Default for AppState {
    fn default() -> (r: AppState)
        ensures
            r@ == StateView::initial(),
    {
        let r = AppState {
            guest: false,
            pane: Pane::Playlists,
            sidebar_selected: 1,
            focus: Focus::Main,
            playlists: Vec::new(),
            tracks: Vec::new(),
            albums: Vec::new(),
            artists: Vec::new(),
            home_rows: Vec::new(),
            open_playlist: None,
            open_artist: None,
            artist_tracks: Vec::new(),
            open_album: None,
            album_tracks: Vec::new(),
            search_query: String::new(),
            search_caret: 0,
            search_results: Vec::new(),
            artist_search_active: false,
            downloaded_tracks: Vec::new(),
            queue: Vec::new(),
            queue_current: None,
            selected: 0,
            scroll_offset: 0,
            viewport_rows: 0,
            filter: String::new(),
            marked: MarkSet::new(),
            marks_before_visual: MarkSet::new(),
            visual_anchor: None,
            modal: None,
            toasts: Vec::new(),
            pending: PendingLog::default(),
            loading: false,
            elapsed_ms: 0,
            should_quit: false,
            volume: 70,
            muted: false,
            shuffle: false,
            repeat: RepeatMode::Off,
            now_playing: None,
            playback: PlaybackState::Stopped,
            position: TrackDuration::from_secs(0),
            duration: TrackDuration::from_secs(0),
        };
        proof {
            reveal(AppState::model);
            let v = StateView::initial();
            assert(r@.playlists =~= v.playlists);
            assert(r@.tracks =~= v.tracks);
            assert(r@.albums =~= v.albums);
            assert(r@.artists =~= v.artists);
            assert(r@.home_rows =~= v.home_rows);
            assert(r@.artist_tracks =~= v.artist_tracks);
            assert(r@.album_tracks =~= v.album_tracks);
            assert(r@.search_results =~= v.search_results);
            assert(r@.downloaded_tracks =~= v.downloaded_tracks);
            assert(r@.queue =~= v.queue);
            assert(r@.toasts =~= v.toasts);
        }
        r
    }
}

impl AppState {
    /// The tracks the pane lists, before the filter; `None` where its rows are not tracks.
    pub fn track_list(&self) -> (r: Option<&Vec<Track>>)
        ensures
            match r {
                Some(ts) => self@.track_list() == Some(ts.deep_view()),
                None => self@.track_list() is None,
            },
    {
        proof {
            reveal(AppState::model);
        }
        match self.pane {
            Pane::Home => None,
            Pane::Songs => Some(&self.tracks),
            Pane::Playlists => if self.open_playlist.is_some() {
                Some(&self.tracks)
            } else {
                None
            },
            Pane::Albums => if self.open_album.is_some() {
                Some(&self.album_tracks)
            } else {
                None
            },
            Pane::Artists => if self.open_artist.is_some() {
                Some(&self.artist_tracks)
            } else {
                None
            },
            Pane::Search => Some(&self.search_results),
            Pane::Queue => Some(&self.queue),
            Pane::Downloads => Some(&self.downloaded_tracks),
        }
    }

    /// The tracks the pane lists, before the filter; none where its rows are not tracks.
    pub fn track_rows(&self) -> (r: Vec<Track>)
        ensures
            r.deep_view() == self@.track_rows(),
    {
        match self.track_list() {
            Some(ts) => ts.copy(),
            None => {
                let r: Vec<Track> = Vec::new();
                assert(r.deep_view() =~= Seq::<TrackView>::empty());
                r
            },
        }
    }

    fn row_titles(&self) -> (r: Vec<String>)
        ensures
            r.deep_view() == self@.row_titles(),
    {
        proof {
            reveal(AppState::model);
        }
        match self.track_list() {
            Some(ts) => titles_of(ts),
            None => match self.pane {
                Pane::Home => titles_of(&self.home_rows),
                Pane::Albums => titles_of(&self.albums),
                Pane::Artists => titles_of(&self.artists),
                _ => titles_of(&self.playlists),
            },
        }
    }

    /// The places of the rows on screen among those the pane lists.
    pub fn visible_rows(&self) -> (r: Vec<usize>)
        ensures
            ints(r@) == self@.visible(),
            forall|k: int|
                0 <= k < r@.len() ==> (#[trigger] r@[k]) < self@.row_titles().len(),
    {
        proof {
            reveal(AppState::model);
        }
        let rows = self.row_titles();
        let r = filtered_rows(&rows, self.filter.as_str());
        assert(rows@.len() == rows.deep_view().len());
        r
    }

    /// The tracks on screen.
    pub fn visible_tracks(&self) -> (r: Vec<Track>)
        ensures
            r.deep_view() == match self@.track_list() {
                Some(ts) => Seq::new(
                    self@.visible().len(),
                    |k: int| ts[self@.visible()[k]],
                ),
                None => Seq::empty(),
            },
    {
        let mut out: Vec<Track> = Vec::new();
        match self.track_list() {
            None => {
                assert(out.deep_view() =~= Seq::<TrackView>::empty());
            },
            Some(ts) => {
                let vis = self.visible_rows();
                let ghost want = Seq::new(
                    self@.visible().len(),
                    |k: int| ts.deep_view()[self@.visible()[k]],
                );
                let mut k: usize = 0;
                while k < vis.len()
                    invariant
                        k <= vis@.len(),
                        ints(vis@) == self@.visible(),
                        self@.track_list() == Some(ts.deep_view()),
                        forall|j: int|
                            0 <= j < vis@.len() ==> (#[trigger] vis@[j])
                                < self@.row_titles().len(),
                        out@.len() == k,
                        forall|j: int|
                            0 <= j < k ==> out@[j].deep_view()
                                == ts.deep_view()[self@.visible()[j]],
                    decreases vis@.len() - k,
                {
                    assert(self@.visible()[k as int] == vis@[k as int]);
                    assert(ts@.len() == ts.deep_view().len());
                    out.push(ts[vis[k]].copy());
                    k += 1;
                }
                assert(out.deep_view() =~= want);
            },
        }
        out
    }

    /// How many rows are on screen or could be scrolled to.
    pub fn list_len(&self) -> (r: usize)
        ensures
            r == self@.visible().len(),
    {
        let vis = self.visible_rows();
        assert(ints(vis@).len() == vis@.len());
        vis.len()
    }

    /// The place of the row under the cursor among those the pane lists.
    pub fn cursor_row(&self) -> (r: Option<usize>)
        ensures
            match r {
                Some(i) => self@.cursor_row() == Some(i as int) && i < self@.row_titles().len(),
                None => self@.cursor_row() is None,
            },
    {
        proof {
            reveal(AppState::model);
        }
        let vis = self.visible_rows();
        assert(ints(vis@).len() == vis@.len());
        if self.selected < vis.len() {
            assert(self@.visible()[self.selected as int] == vis@[self.selected as int]);
            Some(vis[self.selected])
        } else {
            None
        }
    }

    pub fn selected_playlist(&self) -> (r: Option<Playlist>)
        ensures
            r.deep_view() == self@.selected_playlist(),
    {
        proof {
            reveal(AppState::model);
        }
        match self.pane {
            Pane::Playlists => if self.open_playlist.is_some() {
                None
            } else {
                match self.cursor_row() {
                    Some(i) => {
                        assert(self.playlists@.len() == self@.playlists.len());
                        Some(self.playlists[i].copy())
                    },
                    None => None,
                }
            },
            _ => None,
        }
    }

    pub fn selected_artist(&self) -> (r: Option<Artist>)
        ensures
            r.deep_view() == self@.selected_artist(),
    {
        proof {
            reveal(AppState::model);
        }
        match self.pane {
            Pane::Artists => if self.open_artist.is_some() {
                None
            } else {
                match self.cursor_row() {
                    Some(i) => {
                        assert(self.artists@.len() == self@.artists.len());
                        Some(self.artists[i].copy())
                    },
                    None => None,
                }
            },
            _ => None,
        }
    }

    pub fn selected_album(&self) -> (r: Option<Album>)
        ensures
            r.deep_view() == self@.selected_album(),
    {
        proof {
            reveal(AppState::model);
        }
        match self.pane {
            Pane::Albums => if self.open_album.is_some() {
                None
            } else {
                match self.cursor_row() {
                    Some(i) => {
                        assert(self.albums@.len() == self@.albums.len());
                        Some(self.albums[i].copy())
                    },
                    None => None,
                }
            },
            _ => None,
        }
    }

    pub fn selected_home_item(&self) -> (r: Option<HomeItem>)
        ensures
            r.deep_view() == self@.selected_home_item(),
    {
        proof {
            reveal(AppState::model);
        }
        match self.pane {
            Pane::Home => match self.cursor_row() {
                Some(i) => {
                    assert(self.home_rows@.len() == self@.home_rows.len());
                    assert(self@.home_rows[i as int] == self.home_rows@[i as int].deep_view());
                    match &self.home_rows[i] {
                        HomeRow::Item(item) => Some(item.copy()),
                        HomeRow::Shelf(_) => None,
                    }
                },
                None => None,
            },
            _ => None,
        }
    }

    pub fn selected_track(&self) -> (r: Option<Track>)
        ensures
            r.deep_view() == self@.selected_track(),
    {
        match self.track_list() {
            Some(ts) => match self.cursor_row() {
                Some(i) => {
                    assert(ts@.len() == ts.deep_view().len());
                    Some(ts[i].copy())
                },
                None => None,
            },
            None => match self.selected_home_item() {
                Some(item) => match item.target {
                    HomeTarget::Track(id) => {
                        let mut t = Track::stub(id.as_str(), item.title.as_str());
                        t.thumbnail_url = item.thumbnail_url;
                        Some(t)
                    },
                    _ => None,
                },
                None => None,
            },
        }
    }

    /// The place in the queue of the row under the cursor, in the queue pane.
    pub fn queue_index_of_selected(&self) -> (r: Option<usize>)
        ensures
            match r {
                Some(i) => self@.queue_index_of_selected() == Some(i as int) && i
                    < self@.queue.len(),
                None => self@.queue_index_of_selected() is None,
            },
    {
        proof {
            reveal(AppState::model);
        }
        match self.pane {
            Pane::Queue => self.cursor_row(),
            _ => None,
        }
    }

    pub fn search_row_visible(&self) -> (r: bool)
        ensures
            r == self@.search_row_visible(),
    {
        proof {
            reveal(AppState::model);
        }
        self.pane == Pane::Search || (self.pane == Pane::Artists && self.artist_search_active)
    }

    pub fn filter_row_visible(&self) -> (r: bool)
        ensures
            r == self@.filter_row_visible(),
    {
        proof {
            reveal(AppState::model);
        }
        self.focus == Focus::FilterInput || !self.filter.as_str().is_empty()
    }

    pub fn column_header_visible(&self) -> (r: bool)
        ensures
            r == self@.column_header_visible(),
    {
        self.track_list().is_some() && self.list_len() > 0
    }

    pub fn input_focus(&self) -> (r: Focus)
        ensures
            r == self@.input_focus(),
    {
        proof {
            reveal(AppState::model);
        }
        match &self.modal {
            Some(Modal::Prompt { .. }) | Some(Modal::Confirm { .. }) => Focus::SearchInput,
            Some(_) => Focus::Main,
            None => self.focus,
        }
    }

    pub fn in_visual_mode(&self) -> (r: bool)
        ensures
            r == self@.visual_anchor is Some,
    {
        proof {
            reveal(AppState::model);
        }
        self.visual_anchor.is_some()
    }

    /// Where the picture of the playing track is to be had.
    pub fn art_url(&self) -> (r: Option<String>)
        ensures
            r.deep_view() == match self@.now_playing {
                Some(t) => t.thumbnail_url,
                None => None,
            },
    {
        proof {
            reveal(AppState::model);
        }
        match &self.now_playing {
            Some(t) => t.thumbnail_url.copy(),
            None => None,
        }
    }

    /// What an empty track list says.
    pub fn empty_message(&self) -> (r: &'static str)
        ensures
            r@ == match self.pane {
                Pane::Songs => "No liked songs yet"@,
                Pane::Search => "Type to search"@,
                Pane::Queue => "The queue is empty"@,
                Pane::Downloads => "No downloads yet"@,
                _ => "Nothing here yet"@,
            },
    {
        match self.pane {
            Pane::Songs => "No liked songs yet",
            Pane::Search => "Type to search",
            Pane::Queue => "The queue is empty",
            Pane::Downloads => "No downloads yet",
            _ => "Nothing here yet",
        }
    }

    pub fn push_toast(&mut self, kind: ToastKind, text: &str, now: u64)
        ensures
            final(self)@ == old(self)@.toasted(kind, text@, now),
    {
        proof {
            reveal(AppState::model);
            reveal(StateView::toasted);
        }
        self.toasts.push(Toast { kind, text: text.to_owned(), since_ms: now });
        assert(self@.toasts =~= old(self)@.toasted(kind, text@, now).toasts);
    }

    /// Shows a message, as of now.
    pub fn tell(&mut self, kind: ToastKind, text: &str)
        ensures
            final(self)@ == old(self)@.told(kind, text@),
    {
        proof {
            reveal(AppState::model);
            reveal(StateView::told);
        }
        let now = self.elapsed_ms;
        self.push_toast(kind, text, now);
    }

    /// Tells a guest that this takes an account.
    pub fn guest_refusal(&mut self, what: &str)
        ensures
            final(self)@ == old(self)@.refused(what@),
    {
        proof {
            reveal(StateView::refused);
        }
        let msg = join2(what, " needs an account; set auth.cookie_file to sign in");
        self.tell(ToastKind::Info, msg.as_str());
    }

    /// Takes every mark away and ends a range selection.
    pub fn clear_marks(&mut self)
        ensures
            final(self)@ == old(self)@.unmarked(),
    {
        proof {
            reveal(AppState::model);
            reveal(StateView::unmarked);
        }
        self.marked = MarkSet::new();
        self.marks_before_visual = MarkSet::new();
        self.visual_anchor = None;
    }

    /// Puts the cursor on a row that exists, where one does.
    pub fn clamp_selection(&mut self)
        ensures
            final(self)@ == old(self)@.clamped(),
    {
        proof {
            reveal(AppState::model);
            reveal(StateView::clamped);
        }
        let n = self.list_len();
        if self.selected >= n {
            self.selected = if n > 0 {
                n - 1
            } else {
                0
            };
        }
        if self.scroll_offset >= self.selected {
            self.scroll_offset = self.selected;
        }
    }

    /// Stretches the range selection to the cursor.
    pub fn refresh_visual_marks(&mut self)
        ensures
            final(self)@ == old(self)@.stretched(),
    {
        proof {
            reveal(AppState::model);
            reveal(StateView::stretched);
        }
        match self.visual_anchor {
            None => {},
            Some(a) => {
                let (lo, hi): (usize, usize) = if a < self.selected {
                    (a, self.selected)
                } else {
                    (self.selected, a)
                };
                let marks = self.marks_through(lo, hi);
                self.marked = marks;
            },
        }
    }

    /// The marks a range selection started with, and those of the visible rows `lo..=hi`.
    fn marks_through(&self, lo: usize, hi: usize) -> (r: MarkSet)
        requires
            lo <= hi,
        ensures
            r@ == self@.marks_before_visual.union(self@.ids_between(lo as int, hi + 1).to_set()),
    {
        proof {
            reveal(AppState::model);
        }
        let mut marks = self.marks_before_visual.copy();
        let ghost ids = self@.ids_between(lo as int, hi + 1);
        match self.track_list() {
            None => {
                assert(ids.to_set() =~= Set::<Seq<char>>::empty());
                assert(marks@ =~= self@.marks_before_visual.union(ids.to_set()));
            },
            Some(ts) => {
                let vis = self.visible_rows();
                assert(ints(vis@).len() == vis@.len());
                let mut k: usize = lo;
                assert(ids.take(0).to_set() =~= Set::<Seq<char>>::empty());
                assert(marks@ =~= self@.marks_before_visual.union(ids.take(0).to_set()));
                while k <= hi && k < vis.len()
                    invariant
                        lo <= k,
                        k > lo ==> k <= hi + 1 && k <= vis@.len(),
                        ints(vis@) == self@.visible(),
                        vis@.len() == self@.visible().len(),
                        self@.track_list() == Some(ts.deep_view()),
                        forall|j: int|
                            0 <= j < vis@.len() ==> (#[trigger] vis@[j])
                                < self@.row_titles().len(),
                        ids == self@.ids_between(lo as int, hi + 1),
                        marks@ == self@.marks_before_visual.union(ids.take(k - lo).to_set()),
                    decreases vis@.len() - k,
                {
                    assert(self@.visible()[k as int] == vis@[k as int]);
                    assert(ts@.len() == ts.deep_view().len());
                    let row: usize = vis[k];
                    let ghost before = ids.take(k - lo);
                    let ghost after = ids.take(k - lo + 1);
                    assert(ids[k - lo] == ts.deep_view()[row as int].video_id);
                    assert(after =~= before.push(ids[k - lo]));
                    let _ = marks.insert(ts[row].video_id.copy());
                    assert(after.to_set() =~= before.to_set().insert(ids[k - lo])) by {
                        broadcast use vstd::seq_lib::group_seq_properties;

                        assert(after[k - lo] == ids[k - lo]);
                        assert forall|x: Seq<char>| before.contains(x) implies after.contains(x) by {
                            let j = choose|j: int| 0 <= j < before.len() && before[j] == x;
                            assert(after[j] == x);
                        }
                    }
                    assert(marks@ =~= self@.marks_before_visual.union(after.to_set()));
                    k += 1;
                }
                assert(ids.take(k - lo) =~= ids);
            },
        }
        marks
    }

    /// Moves the cursor to this row.
    pub fn select_row(&mut self, row: usize)
        ensures
            final(self)@ == old(self)@.on_row(row),
    {
        proof {
            reveal(AppState::model);
            reveal(StateView::on_row);
        }
        if self.viewport_rows > 0 {
            if row < self.scroll_offset {
                self.scroll_offset = row;
            } else if row - self.scroll_offset >= self.viewport_rows {
                self.scroll_offset = row - self.viewport_rows + 1;
            }
        }
        self.selected = row;
        self.refresh_visual_marks();
    }

    /// Opens the source of this number.
    pub fn goto_source(&mut self, n: u8)
        ensures
            final(self)@ == old(self)@.at_source(n),
    {
        proof {
            reveal(AppState::model);
            reveal(StateView::at_source);
        }
        if n < 1 || n > 8 {
            return;
        }
        let pane = PANE_ORDER[(n - 1) as usize];
        if self.guest && pane.requires_auth() {
            self.guest_refusal(pane.name());
        } else {
            self.pane = pane;
            self.sidebar_selected = (n - 1) as usize;
            self.focus = match pane {
                Pane::Search => Focus::SearchInput,
                _ => Focus::Main,
            };
            self.open_playlist = None;
            self.open_artist = None;
            self.open_album = None;
            self.artist_search_active = false;
            self.selected = 0;
            self.scroll_offset = 0;
            self.filter = String::new();
            self.clear_marks();
        }
    }

    /// Marks the track under the cursor, or takes its mark away.
    pub fn toggle_mark(&mut self)
        ensures
            final(self)@ == old(self)@.mark_toggled(),
    {
        proof {
            reveal(AppState::model);
            reveal(StateView::mark_toggled);
        }
        let id: Option<VideoId> = match self.track_list() {
            None => None,
            Some(ts) => match self.cursor_row() {
                None => None,
                Some(i) => {
                    assert(ts@.len() == ts.deep_view().len());
                    Some(ts[i].video_id.copy())
                },
            },
        };
        match id {
            None => {},
            Some(id) => {
                let mut marks = self.marked.copy();
                if marks.contains(&id) {
                    let _ = marks.remove(&id);
                } else {
                    let _ = marks.insert(id);
                }
                self.marked = marks;
            },
        }
    }

    /// Begins a range selection at the cursor, or ends the one under way.
    pub fn toggle_visual(&mut self)
        ensures
            final(self)@ == old(self)@.visual_toggled(),
    {
        proof {
            reveal(AppState::model);
            reveal(StateView::visual_toggled);
        }
        if self.visual_anchor.is_some() {
            self.visual_anchor = None;
            self.marks_before_visual = MarkSet::new();
        } else {
            self.visual_anchor = Some(self.selected);
            self.marks_before_visual = self.marked.copy();
            self.refresh_visual_marks();
        }
    }
}

/// Each changes one field, and says so of the model.
impl AppState {
    pub fn set_modal(&mut self, x: Option<Modal>)
        ensures
            final(self)@ == (StateView { modal: x.deep_view(), ..old(self)@ }),
    {
        proof {
            reveal(AppState::model);
        }
        self.modal = x;
    }

    pub fn set_focus(&mut self, x: Focus)
        ensures
            final(self)@ == (StateView { focus: x, ..old(self)@ }),
    {
        proof {
            reveal(AppState::model);
        }
        self.focus = x;
    }

    pub fn set_loading(&mut self, x: bool)
        ensures
            final(self)@ == (StateView { loading: x, ..old(self)@ }),
    {
        proof {
            reveal(AppState::model);
        }
        self.loading = x;
    }

    pub fn set_should_quit(&mut self, x: bool)
        ensures
            final(self)@ == (StateView { should_quit: x, ..old(self)@ }),
    {
        proof {
            reveal(AppState::model);
        }
        self.should_quit = x;
    }

    pub fn set_sidebar_selected(&mut self, x: usize)
        ensures
            final(self)@ == (StateView { sidebar_selected: x, ..old(self)@ }),
    {
        proof {
            reveal(AppState::model);
        }
        self.sidebar_selected = x;
    }

    pub fn set_search_caret(&mut self, x: usize)
        ensures
            final(self)@ == (StateView { search_caret: x, ..old(self)@ }),
    {
        proof {
            reveal(AppState::model);
        }
        self.search_caret = x;
    }

    pub fn set_scroll_offset(&mut self, x: usize)
        ensures
            final(self)@ == (StateView { scroll_offset: x, ..old(self)@ }),
    {
        proof {
            reveal(AppState::model);
        }
        self.scroll_offset = x;
    }

    pub fn set_selected(&mut self, x: usize)
        ensures
            final(self)@ == (StateView { selected: x, ..old(self)@ }),
    {
        proof {
            reveal(AppState::model);
        }
        self.selected = x;
    }

    pub fn set_playback(&mut self, x: PlaybackState)
        ensures
            final(self)@ == (StateView { playback: x, ..old(self)@ }),
    {
        proof {
            reveal(AppState::model);
        }
        self.playback = x;
    }

    pub fn set_volume(&mut self, x: u8)
        ensures
            final(self)@ == (StateView { volume: x, ..old(self)@ }),
    {
        proof {
            reveal(AppState::model);
        }
        self.volume = x;
    }

    pub fn set_muted(&mut self, x: bool)
        ensures
            final(self)@ == (StateView { muted: x, ..old(self)@ }),
    {
        proof {
            reveal(AppState::model);
        }
        self.muted = x;
    }

    pub fn set_shuffle(&mut self, x: bool)
        ensures
            final(self)@ == (StateView { shuffle: x, ..old(self)@ }),
    {
        proof {
            reveal(AppState::model);
        }
        self.shuffle = x;
    }

    pub fn set_repeat(&mut self, x: RepeatMode)
        ensures
            final(self)@ == (StateView { repeat: x, ..old(self)@ }),
    {
        proof {
            reveal(AppState::model);
        }
        self.repeat = x;
    }

    pub fn set_guest(&mut self, x: bool)
        ensures
            final(self)@ == (StateView { guest: x, ..old(self)@ }),
    {
        proof {
            reveal(AppState::model);
        }
        self.guest = x;
    }

    pub fn set_tracks(&mut self, x: Vec<Track>)
        ensures
            final(self)@ == (StateView { tracks: x.deep_view(), ..old(self)@ }),
    {
        proof {
            reveal(AppState::model);
        }
        self.tracks = x;
    }

    pub fn set_playlists(&mut self, x: Vec<Playlist>)
        ensures
            final(self)@ == (StateView { playlists: x.deep_view(), ..old(self)@ }),
    {
        proof {
            reveal(AppState::model);
        }
        self.playlists = x;
    }

    pub fn set_albums(&mut self, x: Vec<Album>)
        ensures
            final(self)@ == (StateView { albums: x.deep_view(), ..old(self)@ }),
    {
        proof {
            reveal(AppState::model);
        }
        self.albums = x;
    }

    pub fn set_artists(&mut self, x: Vec<Artist>)
        ensures
            final(self)@ == (StateView { artists: x.deep_view(), ..old(self)@ }),
    {
        proof {
            reveal(AppState::model);
        }
        self.artists = x;
    }

    pub fn set_home_rows(&mut self, x: Vec<HomeRow>)
        ensures
            final(self)@ == (StateView { home_rows: x.deep_view(), ..old(self)@ }),
    {
        proof {
            reveal(AppState::model);
        }
        self.home_rows = x;
    }

    pub fn set_search_results(&mut self, x: Vec<Track>)
        ensures
            final(self)@ == (StateView { search_results: x.deep_view(), ..old(self)@ }),
    {
        proof {
            reveal(AppState::model);
        }
        self.search_results = x;
    }

    pub fn set_downloaded_tracks(&mut self, x: Vec<Track>)
        ensures
            final(self)@ == (StateView { downloaded_tracks: x.deep_view(), ..old(self)@ }),
    {
        proof {
            reveal(AppState::model);
        }
        self.downloaded_tracks = x;
    }

    pub fn set_toasts(&mut self, x: Vec<Toast>)
        ensures
            final(self)@ == (StateView { toasts: x.deep_view(), ..old(self)@ }),
    {
        proof {
            reveal(AppState::model);
        }
        self.toasts = x;
    }

    pub fn set_artist_search_active(&mut self, x: bool)
        ensures
            final(self)@ == (StateView { artist_search_active: x, ..old(self)@ }),
    {
        proof {
            reveal(AppState::model);
        }
        self.artist_search_active = x;
    }

    pub fn set_viewport_rows(&mut self, x: usize)
        ensures
            final(self)@ == (StateView { viewport_rows: x, ..old(self)@ }),
    {
        proof {
            reveal(AppState::model);
        }
        self.viewport_rows = x;
    }

    pub fn set_elapsed_ms(&mut self, x: u64)
        ensures
            final(self)@ == (StateView { elapsed_ms: x, ..old(self)@ }),
    {
        proof {
            reveal(AppState::model);
        }
        self.elapsed_ms = x;
    }

    pub fn set_pane(&mut self, x: Pane)
        ensures
            final(self)@ == (StateView { pane: x, ..old(self)@ }),
    {
        proof {
            reveal(AppState::model);
        }
        self.pane = x;
    }
}

} // verus!
