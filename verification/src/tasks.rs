//! Work that leaves the interface: what is to be fetched or changed elsewhere.

use crate::copied::Copied;
use crate::model::{AlbumId, ArtistId, PlaylistId, Privacy, SetVideoId, Track, TrackView, VideoId};
use vstd::prelude::*;

verus! {

/// Work the loop should start in the background as a result of an input.
#[derive(Debug, Clone, PartialEq, Eq)]
pub enum Task {
    /// The home feed's recommendation shelves.
    LoadHome,
    LoadPlaylists,
    LoadSongs,
    LoadAlbums,
    LoadArtists,
    OpenPlaylist(PlaylistId),
    EnqueuePlaylist { id: PlaylistId, title: String, play_next: bool },
    EnqueueAlbum { id: AlbumId, title: String, play_next: bool },
    /// An artist's top tracks. Carries the name so the heading can be set without
    /// looking it up: an artist opened from search is not in the library list.
    OpenArtist { id: ArtistId, name: String },
    /// An album's songs. Carries the title for the heading, like `OpenArtist`.
    OpenAlbum { id: AlbumId, name: String },
    Search(String),
    SearchArtists(String),
    /// Refresh the list of downloads from the index.
    LoadDownloads,
    /// A server-side edit, carrying the token of the optimistic change it settles.
    Mutate { token: u64, task: MutationTask },
    /// Download track(s) for offline listening.
    Download(Vec<Track>),
    /// Delete downloaded track(s) from disk and from the index.
    DeleteDownloads(Vec<Track>),
}

/// The model of a `Task`.
#[verifier::ext_equal]
pub enum TaskView {
    LoadHome,
    LoadPlaylists,
    LoadSongs,
    LoadAlbums,
    LoadArtists,
    OpenPlaylist(Seq<char>),
    EnqueuePlaylist { id: Seq<char>, title: Seq<char>, play_next: bool },
    EnqueueAlbum { id: Seq<char>, title: Seq<char>, play_next: bool },
    OpenArtist { id: Seq<char>, name: Seq<char> },
    OpenAlbum { id: Seq<char>, name: Seq<char> },
    Search(Seq<char>),
    SearchArtists(Seq<char>),
    LoadDownloads,
    Mutate { token: u64, task: MutationTaskView },
    Download(Seq<TrackView>),
    DeleteDownloads(Seq<TrackView>),
}

impl DeepView for Task {
    type V = TaskView;

    open spec fn deep_view(&self) -> TaskView {
        match self {
            Task::LoadHome => TaskView::LoadHome,
            Task::LoadPlaylists => TaskView::LoadPlaylists,
            Task::LoadSongs => TaskView::LoadSongs,
            Task::LoadAlbums => TaskView::LoadAlbums,
            Task::LoadArtists => TaskView::LoadArtists,
            Task::OpenPlaylist(id) => TaskView::OpenPlaylist(id.deep_view()),
            Task::EnqueuePlaylist { id, title, play_next } => TaskView::EnqueuePlaylist {
                id: id.deep_view(),
                title: title@,
                play_next: *play_next,
            },
            Task::EnqueueAlbum { id, title, play_next } => TaskView::EnqueueAlbum {
                id: id.deep_view(),
                title: title@,
                play_next: *play_next,
            },
            Task::OpenArtist { id, name } => TaskView::OpenArtist {
                id: id.deep_view(),
                name: name@,
            },
            Task::OpenAlbum { id, name } => TaskView::OpenAlbum {
                id: id.deep_view(),
                name: name@,
            },
            Task::Search(q) => TaskView::Search(q@),
            Task::SearchArtists(q) => TaskView::SearchArtists(q@),
            Task::LoadDownloads => TaskView::LoadDownloads,
            Task::Mutate { token, task } => TaskView::Mutate {
                token: *token,
                task: task.deep_view(),
            },
            Task::Download(ts) => TaskView::Download(ts.deep_view()),
            Task::DeleteDownloads(ts) => TaskView::DeleteDownloads(ts.deep_view()),
        }
    }
}

/// Background work that changes server state. These carry a mutation token, since
/// the answer has to name the optimistic edit it settles.
#[derive(Debug, Clone, PartialEq, Eq)]
pub enum MutationTask {
    Create { title: String, description: Option<String>, privacy: Privacy },
    Rename { id: PlaylistId, title: String },
    Delete { id: PlaylistId },
    AddTracks { id: PlaylistId, videos: Vec<VideoId> },
    RemoveTracks { id: PlaylistId, entries: Vec<SetVideoId> },
}

/// The model of a `MutationTask`.
#[verifier::ext_equal]
pub enum MutationTaskView {
    Create { title: Seq<char>, description: Option<Seq<char>>, privacy: Privacy },
    Rename { id: Seq<char>, title: Seq<char> },
    Delete { id: Seq<char> },
    AddTracks { id: Seq<char>, videos: Seq<Seq<char>> },
    RemoveTracks { id: Seq<char>, entries: Seq<Seq<char>> },
}

impl DeepView for MutationTask {
    type V = MutationTaskView;

    open spec fn deep_view(&self) -> MutationTaskView {
        match self {
            MutationTask::Create { title, description, privacy } => MutationTaskView::Create {
                title: title@,
                description: description.deep_view(),
                privacy: *privacy,
            },
            MutationTask::Rename { id, title } => MutationTaskView::Rename {
                id: id.deep_view(),
                title: title@,
            },
            MutationTask::Delete { id } => MutationTaskView::Delete { id: id.deep_view() },
            MutationTask::AddTracks { id, videos } => MutationTaskView::AddTracks {
                id: id.deep_view(),
                videos: videos.deep_view(),
            },
            MutationTask::RemoveTracks { id, entries } => MutationTaskView::RemoveTracks {
                id: id.deep_view(),
                entries: entries.deep_view(),
            },
        }
    }
}

/// What a source can be asked.
#[derive(Debug, Clone, PartialEq, Eq)]
pub enum Request {
    HomeShelves,
    RecommendedAlbums,
    LibraryPlaylists,
    LibrarySongs,
    LibraryAlbums,
    LibraryArtists,
    PlaylistTracks(PlaylistId),
    PlaylistDetails(PlaylistId),
    ArtistTracks(ArtistId),
    AlbumTracks(AlbumId),
    SearchSongs(String),
    SearchAlbums(String),
    SearchArtists(String),
    SearchPlaylists(String),
    CreatePlaylist { title: String, description: Option<String>, privacy: Privacy },
    /// Changes what is given of a playlist and leaves the rest.
    EditPlaylist {
        id: PlaylistId,
        title: Option<String>,
        description: Option<String>,
        privacy: Option<Privacy>,
    },
    DeletePlaylist(PlaylistId),
    AddTracks { id: PlaylistId, videos: Vec<VideoId> },
    RemoveTracks { id: PlaylistId, entries: Vec<SetVideoId> },
}

/// The model of a `Request`.
#[verifier::ext_equal]
pub enum RequestView {
    HomeShelves,
    RecommendedAlbums,
    LibraryPlaylists,
    LibrarySongs,
    LibraryAlbums,
    LibraryArtists,
    PlaylistTracks(Seq<char>),
    PlaylistDetails(Seq<char>),
    ArtistTracks(Seq<char>),
    AlbumTracks(Seq<char>),
    SearchSongs(Seq<char>),
    SearchAlbums(Seq<char>),
    SearchArtists(Seq<char>),
    SearchPlaylists(Seq<char>),
    CreatePlaylist { title: Seq<char>, description: Option<Seq<char>>, privacy: Privacy },
    EditPlaylist {
        id: Seq<char>,
        title: Option<Seq<char>>,
        description: Option<Seq<char>>,
        privacy: Option<Privacy>,
    },
    DeletePlaylist(Seq<char>),
    AddTracks { id: Seq<char>, videos: Seq<Seq<char>> },
    RemoveTracks { id: Seq<char>, entries: Seq<Seq<char>> },
}

impl DeepView for Request {
    type V = RequestView;

    open spec fn deep_view(&self) -> RequestView {
        match self {
            Request::HomeShelves => RequestView::HomeShelves,
            Request::RecommendedAlbums => RequestView::RecommendedAlbums,
            Request::LibraryPlaylists => RequestView::LibraryPlaylists,
            Request::LibrarySongs => RequestView::LibrarySongs,
            Request::LibraryAlbums => RequestView::LibraryAlbums,
            Request::LibraryArtists => RequestView::LibraryArtists,
            Request::PlaylistTracks(id) => RequestView::PlaylistTracks(id.deep_view()),
            Request::PlaylistDetails(id) => RequestView::PlaylistDetails(id.deep_view()),
            Request::ArtistTracks(id) => RequestView::ArtistTracks(id.deep_view()),
            Request::AlbumTracks(id) => RequestView::AlbumTracks(id.deep_view()),
            Request::SearchSongs(q) => RequestView::SearchSongs(q@),
            Request::SearchAlbums(q) => RequestView::SearchAlbums(q@),
            Request::SearchArtists(q) => RequestView::SearchArtists(q@),
            Request::SearchPlaylists(q) => RequestView::SearchPlaylists(q@),
            Request::CreatePlaylist { title, description, privacy } => RequestView::CreatePlaylist {
                title: title@,
                description: description.deep_view(),
                privacy: *privacy,
            },
            Request::EditPlaylist { id, title, description, privacy } => RequestView::EditPlaylist {
                id: id.deep_view(),
                title: title.deep_view(),
                description: description.deep_view(),
                privacy: *privacy,
            },
            Request::DeletePlaylist(id) => RequestView::DeletePlaylist(id.deep_view()),
            Request::AddTracks { id, videos } => RequestView::AddTracks {
                id: id.deep_view(),
                videos: videos.deep_view(),
            },
            Request::RemoveTracks { id, entries } => RequestView::RemoveTracks {
                id: id.deep_view(),
                entries: entries.deep_view(),
            },
        }
    }
}

impl Copied for Request {
    fn copy(&self) -> (r: Self) {
        match self {
            Request::HomeShelves => Request::HomeShelves,
            Request::RecommendedAlbums => Request::RecommendedAlbums,
            Request::LibraryPlaylists => Request::LibraryPlaylists,
            Request::LibrarySongs => Request::LibrarySongs,
            Request::LibraryAlbums => Request::LibraryAlbums,
            Request::LibraryArtists => Request::LibraryArtists,
            Request::PlaylistTracks(id) => Request::PlaylistTracks(id.copy()),
            Request::PlaylistDetails(id) => Request::PlaylistDetails(id.copy()),
            Request::ArtistTracks(id) => Request::ArtistTracks(id.copy()),
            Request::AlbumTracks(id) => Request::AlbumTracks(id.copy()),
            Request::SearchSongs(q) => Request::SearchSongs(q.clone()),
            Request::SearchAlbums(q) => Request::SearchAlbums(q.clone()),
            Request::SearchArtists(q) => Request::SearchArtists(q.clone()),
            Request::SearchPlaylists(q) => Request::SearchPlaylists(q.clone()),
            Request::CreatePlaylist { title, description, privacy } => Request::CreatePlaylist {
                title: title.clone(),
                description: description.copy(),
                privacy: *privacy,
            },
            Request::EditPlaylist { id, title, description, privacy } => Request::EditPlaylist {
                id: id.copy(),
                title: title.copy(),
                description: description.copy(),
                privacy: *privacy,
            },
            Request::DeletePlaylist(id) => Request::DeletePlaylist(id.copy()),
            Request::AddTracks { id, videos } => Request::AddTracks {
                id: id.copy(),
                videos: videos.copy(),
            },
            Request::RemoveTracks { id, entries } => Request::RemoveTracks {
                id: id.copy(),
                entries: entries.copy(),
            },
        }
    }
}

/// What a change asks of the source: one thing, with every id that the change has, in
/// its order. A new name leaves the rest of a playlist as it is.
pub open spec fn change_requested(task: MutationTaskView) -> RequestView {
    match task {
        MutationTaskView::Create { title, description, privacy } => RequestView::CreatePlaylist {
            title,
            description,
            privacy,
        },
        MutationTaskView::Rename { id, title } => RequestView::EditPlaylist {
            id,
            title: Some(title),
            description: None,
            privacy: None,
        },
        MutationTaskView::Delete { id } => RequestView::DeletePlaylist(id),
        MutationTaskView::AddTracks { id, videos } => RequestView::AddTracks { id, videos },
        MutationTaskView::RemoveTracks { id, entries } => RequestView::RemoveTracks {
            id,
            entries,
        },
    }
}

/// What a task asks of the source. A task on the downloads asks nothing, and one that
/// queues a list may find it among what is kept.
pub open spec fn requested(task: TaskView) -> Option<RequestView> {
    match task {
        TaskView::LoadHome => Some(RequestView::HomeShelves),
        TaskView::LoadPlaylists => Some(RequestView::LibraryPlaylists),
        TaskView::LoadSongs => Some(RequestView::LibrarySongs),
        TaskView::LoadAlbums => Some(RequestView::LibraryAlbums),
        TaskView::LoadArtists => Some(RequestView::LibraryArtists),
        TaskView::OpenPlaylist(id) => Some(RequestView::PlaylistTracks(id)),
        TaskView::OpenArtist { id, name: _ } => Some(RequestView::ArtistTracks(id)),
        TaskView::OpenAlbum { id, name: _ } => Some(RequestView::AlbumTracks(id)),
        TaskView::Search(q) => Some(RequestView::SearchSongs(q)),
        TaskView::SearchArtists(q) => Some(RequestView::SearchArtists(q)),
        TaskView::Mutate { token: _, task } => Some(change_requested(task)),
        TaskView::EnqueuePlaylist { .. }
        | TaskView::EnqueueAlbum { .. }
        | TaskView::LoadDownloads
        | TaskView::Download(_)
        | TaskView::DeleteDownloads(_) => None,
    }
}

/// What a change asks of the source.
pub fn change_request(task: &MutationTask) -> (r: Request)
    ensures
        r.deep_view() == change_requested(task.deep_view()),
{
    match task {
        MutationTask::Create { title, description, privacy } => Request::CreatePlaylist {
            title: title.clone(),
            description: description.copy(),
            privacy: *privacy,
        },
        MutationTask::Rename { id, title } => Request::EditPlaylist {
            id: id.copy(),
            title: Some(title.clone()),
            description: None,
            privacy: None,
        },
        MutationTask::Delete { id } => Request::DeletePlaylist(id.copy()),
        MutationTask::AddTracks { id, videos } => Request::AddTracks {
            id: id.copy(),
            videos: videos.copy(),
        },
        MutationTask::RemoveTracks { id, entries } => Request::RemoveTracks {
            id: id.copy(),
            entries: entries.copy(),
        },
    }
}

/// What a task asks of the source, where it asks anything.
pub fn request_of(task: &Task) -> (r: Option<Request>)
    ensures
        r.deep_view() == requested(task.deep_view()),
{
    match task {
        Task::LoadHome => Some(Request::HomeShelves),
        Task::LoadPlaylists => Some(Request::LibraryPlaylists),
        Task::LoadSongs => Some(Request::LibrarySongs),
        Task::LoadAlbums => Some(Request::LibraryAlbums),
        Task::LoadArtists => Some(Request::LibraryArtists),
        Task::OpenPlaylist(id) => Some(Request::PlaylistTracks(id.copy())),
        Task::OpenArtist { id, .. } => Some(Request::ArtistTracks(id.copy())),
        Task::OpenAlbum { id, .. } => Some(Request::AlbumTracks(id.copy())),
        Task::Search(q) => Some(Request::SearchSongs(q.clone())),
        Task::SearchArtists(q) => Some(Request::SearchArtists(q.clone())),
        Task::Mutate { task, .. } => Some(change_request(task)),
        Task::EnqueuePlaylist { .. }
        | Task::EnqueueAlbum { .. }
        | Task::LoadDownloads
        | Task::Download(_)
        | Task::DeleteDownloads(_) => None,
    }
}

} // verus!
