//! A source of music in memory: nothing is fetched, everything is deterministic, and
//! the calls are recorded.

use crate::background::{self, Reply, ReplyView, mutation_event, settle};
use crate::copied::Copied;
use crate::event::AppEvent;
use crate::model::{
    self, Album, AlbumId, AlbumView, Artist, ArtistId, ArtistView, HomeShelf, HomeShelfView,
    Playlist, PlaylistId, PlaylistView, Privacy, SetVideoId, SourceError, SourceErrorView, Track,
    TrackView, VideoId,
};
use crate::reducer::{self, find_playlist};
use crate::tasks::{
    self, MutationTask, Request, RequestView, Task, TaskView, change_request, request_of,
};
use crate::text::{self, join3, passes_filter, push_decimal};
use vstd::prelude::*;

verus! {

/// A source of music in memory.
#[derive(Debug, Clone, PartialEq, Eq)]
pub struct MockSource {
    playlists: Vec<Playlist>,
    tracks: Vec<Track>,
    albums: Vec<Album>,
    artists: Vec<Artist>,
    shelves: Vec<HomeShelf>,
    artist_tracks: Vec<Track>,
    album_tracks: Vec<Track>,
    requests: Vec<Request>,
    fail_next: Option<SourceError>,
    next_id: u32,
    authenticated: bool,
}

/// The model of a `MockSource`.
#[verifier::ext_equal]
pub struct MockView {
    pub playlists: Seq<PlaylistView>,
    pub tracks: Seq<TrackView>,
    pub albums: Seq<AlbumView>,
    pub artists: Seq<ArtistView>,
    pub shelves: Seq<HomeShelfView>,
    pub artist_tracks: Seq<TrackView>,
    pub album_tracks: Seq<TrackView>,
    /// What was asked, in order.
    pub requests: Seq<RequestView>,
    /// What the next call fails with.
    pub fail_next: Option<SourceErrorView>,
    /// How many playlists were made.
    pub next_id: u32,
    pub authenticated: bool,
}

impl View for MockSource {
    type V = MockView;

    closed spec fn view(&self) -> MockView {
        MockView {
            playlists: self.playlists.deep_view(),
            tracks: self.tracks.deep_view(),
            albums: self.albums.deep_view(),
            artists: self.artists.deep_view(),
            shelves: self.shelves.deep_view(),
            artist_tracks: self.artist_tracks.deep_view(),
            album_tracks: self.album_tracks.deep_view(),
            requests: self.requests.deep_view(),
            fail_next: self.fail_next.deep_view(),
            next_id: self.next_id,
            authenticated: self.authenticated,
        }
    }
}

/// A call with what it was about.
pub open spec fn call_text(what: Seq<char>, about: Seq<char>) -> Seq<char> {
    what + "("@ + about + ")"@
}

/// The tracks whose titles hold a text.
pub open spec fn matching(ts: Seq<TrackView>, q: Seq<char>) -> Seq<TrackView>
    decreases ts.len(),
{
    if ts.len() == 0 {
        Seq::empty()
    } else if text::passes(q, ts.last().title) {
        matching(ts.drop_last(), q).push(ts.last())
    } else {
        matching(ts.drop_last(), q)
    }
}

/// The playlists that do not have this id.
pub open spec fn without_playlist(ps: Seq<PlaylistView>, id: Seq<char>) -> Seq<PlaylistView>
    decreases ps.len(),
{
    if ps.len() == 0 {
        Seq::empty()
    } else if ps.last().id == id {
        without_playlist(ps.drop_last(), id)
    } else {
        without_playlist(ps.drop_last(), id).push(ps.last())
    }
}

impl MockView {
    /// Nothing in it yet.
    pub open spec fn empty(authenticated: bool) -> MockView {
        MockView {
            playlists: Seq::empty(),
            tracks: Seq::empty(),
            albums: Seq::empty(),
            artists: Seq::empty(),
            shelves: Seq::empty(),
            artist_tracks: Seq::empty(),
            album_tracks: Seq::empty(),
            requests: Seq::empty(),
            fail_next: None,
            next_id: 0,
            authenticated,
        }
    }

    /// After a call; a failure that was set up is used up by it.
    pub open spec fn called(self, what: RequestView) -> MockView {
        MockView { requests: self.requests.push(what), fail_next: None, ..self }
    }

    /// What a call answers that reads something.
    pub open spec fn reading<T>(self, x: T) -> Result<T, SourceErrorView> {
        match self.fail_next {
            Some(e) => Err(e),
            None => Ok(x),
        }
    }

    /// The id of the next playlist that is made.
    pub open spec fn fresh_id(self) -> Seq<char> {
        "mock-pl-"@ + text::decimal((self.next_id + 1) as nat)
    }

    /// What making a playlist does.
    pub open spec fn creating(
        self,
        title: Seq<char>,
        description: Option<Seq<char>>,
        privacy: Privacy,
    ) -> (MockView, Result<Seq<char>, SourceErrorView>) {
        let after = self.called(RequestView::CreatePlaylist { title, description, privacy });
        match self.fail_next {
            Some(e) => (after, Err(e)),
            None => (
                MockView {
                    next_id: (self.next_id + 1) as u32,
                    playlists: self.playlists.push(
                        PlaylistView {
                            id: self.fresh_id(),
                            title,
                            description,
                            privacy,
                            track_count: Some(0),
                            thumbnail_url: None,
                            is_system: false,
                        },
                    ),
                    ..after
                },
                Ok(self.fresh_id()),
            ),
        }
    }

    /// What changing a playlist does.
    pub open spec fn editing(
        self,
        id: Seq<char>,
        title: Option<Seq<char>>,
        description: Option<Seq<char>>,
        privacy: Option<Privacy>,
    ) -> (MockView, Result<(), SourceErrorView>) {
        let after = self.called(
            RequestView::EditPlaylist { id, title, description, privacy },
        );
        match (self.fail_next, reducer::playlist_at(self.playlists, id)) {
            (Some(e), _) => (after, Err(e)),
            (None, None) => (after, Err(SourceErrorView::NotFound(id))),
            (None, Some(i)) => {
                let p = self.playlists[i];
                let q = PlaylistView {
                    title: match title {
                        Some(t) => t,
                        None => p.title,
                    },
                    description: match description {
                        Some(d) => Some(d),
                        None => p.description,
                    },
                    privacy: match privacy {
                        Some(v) => v,
                        None => p.privacy,
                    },
                    ..p
                };
                (MockView { playlists: self.playlists.update(i, q), ..after }, Ok(()))
            },
        }
    }

    /// What deleting a playlist does.
    pub open spec fn deleting(self, id: Seq<char>) -> (MockView, Result<(), SourceErrorView>) {
        let after = self.called(RequestView::DeletePlaylist(id));
        match self.fail_next {
            Some(e) => (after, Err(e)),
            None => (
                MockView { playlists: without_playlist(self.playlists, id), ..after },
                Ok(()),
            ),
        }
    }
}

impl MockSource {
    fn bare(authenticated: bool) -> (r: MockSource)
        ensures
            r@ == MockView::empty(authenticated),
    {
        let r = MockSource {
            playlists: Vec::new(),
            tracks: Vec::new(),
            albums: Vec::new(),
            artists: Vec::new(),
            shelves: Vec::new(),
            artist_tracks: Vec::new(),
            album_tracks: Vec::new(),
            requests: Vec::new(),
            fail_next: None,
            next_id: 0,
            authenticated,
        };
        assert(r@ =~= MockView::empty(authenticated));
        r
    }

    pub fn new() -> (r: MockSource)
        ensures
            r@ == MockView::empty(true),
    {
        MockSource::bare(true)
    }

    /// One that knows no account.
    pub fn guest() -> (r: MockSource)
        ensures
            r@ == MockView::empty(false),
    {
        MockSource::bare(false)
    }

    pub fn with_playlists(self, p: Vec<Playlist>) -> (r: MockSource)
        ensures
            r@ == (MockView { playlists: p.deep_view(), ..self@ }),
    {
        MockSource { playlists: p, ..self }
    }

    pub fn with_tracks(self, t: Vec<Track>) -> (r: MockSource)
        ensures
            r@ == (MockView { tracks: t.deep_view(), ..self@ }),
    {
        MockSource { tracks: t, ..self }
    }

    pub fn with_album_tracks(self, t: Vec<Track>) -> (r: MockSource)
        ensures
            r@ == (MockView { album_tracks: t.deep_view(), ..self@ }),
    {
        MockSource { album_tracks: t, ..self }
    }

    /// The next call, whichever it is, returns this error, once.
    pub fn fail_next(&mut self, e: SourceError)
        ensures
            final(self)@ == (MockView { fail_next: Some(e.deep_view()), ..old(self)@ }),
    {
        self.fail_next = Some(e);
    }

    /// What was asked, in order.
    pub fn requests(&self) -> (r: Vec<Request>)
        ensures
            r.deep_view() == self@.requests,
    {
        self.requests.copy()
    }

    /// What was asked, in order, in words.
    pub fn calls(&self) -> (r: Vec<String>)
        ensures
            r.deep_view() == self@.requests.map_values(|q: RequestView| said(q)),
    {
        let ghost all = self@.requests.map_values(|q: RequestView| said(q));
        let mut out: Vec<String> = Vec::new();
        let mut i: usize = 0;
        assert(out.deep_view() =~= all.take(0));
        while i < self.requests.len()
            invariant
                i <= self.requests@.len(),
                all == self@.requests.map_values(|q: RequestView| said(q)),
                out.deep_view() == all.take(i as int),
            decreases self.requests@.len() - i,
        {
            let ghost before = out.deep_view();
            out.push(say(&self.requests[i]));
            assert(self@.requests[i as int] == self.requests@[i as int].deep_view());
            assert(out.deep_view() =~= before.push(all[i as int]));
            assert(all.take(i + 1) =~= all.take(i as int).push(all[i as int]));
            i += 1;
        }
        assert(all.take(i as int) =~= all);
        out
    }

    pub fn is_authenticated(&self) -> (r: bool)
        ensures
            r == self@.authenticated,
    {
        self.authenticated
    }

    fn record(&mut self, what: Request) -> (r: Result<(), SourceError>)
        ensures
            final(self)@ == old(self)@.called(what.deep_view()),
            model::answer_view(r) == old(self)@.reading(()),
    {
        self.requests.push(what);
        assert(self.requests.deep_view() =~= old(self).requests.deep_view().push(what.deep_view()));
        match self.fail_next.take() {
            Some(e) => Err(e),
            None => Ok(()),
        }
    }

    pub fn library_playlists(&mut self) -> (r: Result<Vec<Playlist>, SourceError>)
        ensures
            final(self)@ == old(self)@.called(RequestView::LibraryPlaylists),
            model::answer_view(r) == old(self)@.reading(old(self)@.playlists),
    {
        match self.record(Request::LibraryPlaylists) {
            Ok(_) => Ok(self.playlists.copy()),
            Err(e) => Err(e),
        }
    }

    pub fn library_songs(&mut self) -> (r: Result<Vec<Track>, SourceError>)
        ensures
            final(self)@ == old(self)@.called(RequestView::LibrarySongs),
            model::answer_view(r) == old(self)@.reading(old(self)@.tracks),
    {
        match self.record(Request::LibrarySongs) {
            Ok(_) => Ok(self.tracks.copy()),
            Err(e) => Err(e),
        }
    }

    pub fn library_albums(&mut self) -> (r: Result<Vec<Album>, SourceError>)
        ensures
            final(self)@ == old(self)@.called(RequestView::LibraryAlbums),
            model::answer_view(r) == old(self)@.reading(old(self)@.albums),
    {
        match self.record(Request::LibraryAlbums) {
            Ok(_) => Ok(self.albums.copy()),
            Err(e) => Err(e),
        }
    }

    pub fn library_artists(&mut self) -> (r: Result<Vec<Artist>, SourceError>)
        ensures
            final(self)@ == old(self)@.called(RequestView::LibraryArtists),
            model::answer_view(r) == old(self)@.reading(old(self)@.artists),
    {
        match self.record(Request::LibraryArtists) {
            Ok(_) => Ok(self.artists.copy()),
            Err(e) => Err(e),
        }
    }

    pub fn home_shelves(&mut self) -> (r: Result<Vec<HomeShelf>, SourceError>)
        ensures
            final(self)@ == old(self)@.called(RequestView::HomeShelves),
            model::answer_view(r) == old(self)@.reading(old(self)@.shelves),
    {
        match self.record(Request::HomeShelves) {
            Ok(_) => Ok(self.shelves.copy()),
            Err(e) => Err(e),
        }
    }

    pub fn recommended_albums(&mut self) -> (r: Result<Vec<Album>, SourceError>)
        ensures
            final(self)@ == old(self)@.called(RequestView::RecommendedAlbums),
            model::answer_view(r) == old(self)@.reading(old(self)@.albums),
    {
        match self.record(Request::RecommendedAlbums) {
            Ok(_) => Ok(self.albums.copy()),
            Err(e) => Err(e),
        }
    }

    pub fn artist_tracks(&mut self, id: &ArtistId) -> (r: Result<Vec<Track>, SourceError>)
        ensures
            final(self)@ == old(self)@.called(RequestView::ArtistTracks(id.deep_view())),
            model::answer_view(r) == old(self)@.reading(old(self)@.artist_tracks),
    {
        match self.record(Request::ArtistTracks(id.copy())) {
            Ok(_) => Ok(self.artist_tracks.copy()),
            Err(e) => Err(e),
        }
    }

    pub fn album_tracks(&mut self, id: &AlbumId) -> (r: Result<Vec<Track>, SourceError>)
        ensures
            final(self)@ == old(self)@.called(RequestView::AlbumTracks(id.deep_view())),
            model::answer_view(r) == old(self)@.reading(old(self)@.album_tracks),
    {
        match self.record(Request::AlbumTracks(id.copy())) {
            Ok(_) => Ok(self.album_tracks.copy()),
            Err(e) => Err(e),
        }
    }

    pub fn playlist_tracks(&mut self, id: &PlaylistId) -> (r: Result<Vec<Track>, SourceError>)
        ensures
            final(self)@ == old(self)@.called(RequestView::PlaylistTracks(id.deep_view())),
            model::answer_view(r) == old(self)@.reading(old(self)@.tracks),
    {
        match self.record(Request::PlaylistTracks(id.copy())) {
            Ok(_) => Ok(self.tracks.copy()),
            Err(e) => Err(e),
        }
    }

    pub fn search_albums(&mut self, q: &str) -> (r: Result<Vec<Album>, SourceError>)
        ensures
            final(self)@ == old(self)@.called(RequestView::SearchAlbums(q@)),
            model::answer_view(r) == old(self)@.reading(old(self)@.albums),
    {
        match self.record(Request::SearchAlbums(q.to_owned())) {
            Ok(_) => Ok(self.albums.copy()),
            Err(e) => Err(e),
        }
    }

    pub fn search_artists(&mut self, q: &str) -> (r: Result<Vec<Artist>, SourceError>)
        ensures
            final(self)@ == old(self)@.called(RequestView::SearchArtists(q@)),
            model::answer_view(r) == old(self)@.reading(old(self)@.artists),
    {
        match self.record(Request::SearchArtists(q.to_owned())) {
            Ok(_) => Ok(self.artists.copy()),
            Err(e) => Err(e),
        }
    }

    pub fn search_playlists(&mut self, q: &str) -> (r: Result<Vec<Playlist>, SourceError>)
        ensures
            final(self)@ == old(self)@.called(RequestView::SearchPlaylists(q@)),
            model::answer_view(r) == old(self)@.reading(old(self)@.playlists),
    {
        match self.record(Request::SearchPlaylists(q.to_owned())) {
            Ok(_) => Ok(self.playlists.copy()),
            Err(e) => Err(e),
        }
    }

    /// The tracks whose titles hold a text, whatever the case.
    pub fn search_songs(&mut self, q: &str) -> (r: Result<Vec<Track>, SourceError>)
        ensures
            final(self)@ == old(self)@.called(RequestView::SearchSongs(q@)),
            model::answer_view(r) == old(self)@.reading(matching(old(self)@.tracks, q@)),
    {
        match self.record(Request::SearchSongs(q.to_owned())) {
            Ok(_) => {
                let mut out: Vec<Track> = Vec::new();
                let mut i: usize = 0;
                assert(out.deep_view() =~= matching(self.tracks.deep_view().take(0), q@));
                while i < self.tracks.len()
                    invariant
                        i <= self.tracks@.len(),
                        out.deep_view() == matching(self.tracks.deep_view().take(i as int), q@),
                    decreases self.tracks@.len() - i,
                {
                    let ghost upto = self.tracks.deep_view().take(i + 1);
                    let ghost before = out.deep_view();
                    assert(upto.drop_last() =~= self.tracks.deep_view().take(i as int));
                    assert(upto.last() == self.tracks@[i as int].deep_view());
                    if passes_filter(q, self.tracks[i].title.as_str()) {
                        out.push(self.tracks[i].copy());
                        assert(out.deep_view() =~= before.push(upto.last()));
                    }
                    i += 1;
                }
                assert(self.tracks.deep_view().take(i as int) =~= self.tracks.deep_view());
                Ok(out)
            },
            Err(e) => Err(e),
        }
    }

    /// The playlist of this id.
    pub fn playlist_details(&mut self, id: &PlaylistId) -> (r: Result<Playlist, SourceError>)
        ensures
            final(self)@ == old(self)@.called(RequestView::PlaylistDetails(id.deep_view())),
            model::answer_view(r) == match old(self)@.fail_next {
                Some(e) => Err(e),
                None => match reducer::playlist_at(old(self)@.playlists, id.deep_view()) {
                    Some(i) => Ok(old(self)@.playlists[i]),
                    None => Err(SourceErrorView::NotFound(id.deep_view())),
                },
            },
    {
        match self.record(Request::PlaylistDetails(id.copy())) {
            Ok(_) => match find_playlist(&self.playlists, id) {
                Some(i) => Ok(self.playlists[i].copy()),
                None => Err(SourceError::NotFound(id.as_str().to_owned())),
            },
            Err(e) => Err(e),
        }
    }

    pub fn create_playlist(
        &mut self,
        title: String,
        description: Option<String>,
        privacy: Privacy,
    ) -> (r: Result<PlaylistId, SourceError>)
        requires
            old(self)@.next_id < u32::MAX,
        ensures
            (final(self)@, model::answer_view(r)) == old(self)@.creating(
                title@,
                description.deep_view(),
                privacy,
            ),
    {
        match self.record(
            Request::CreatePlaylist {
                title: title.clone(),
                description: description.copy(),
                privacy,
            },
        ) {
            Ok(_) => {
                self.next_id = self.next_id + 1;
                let mut name = "mock-pl-".to_owned();
                push_decimal(&mut name, self.next_id as u64);
                let id = PlaylistId(name);
                let made = Playlist {
                    id: id.copy(),
                    title,
                    description,
                    privacy,
                    track_count: Some(0),
                    thumbnail_url: None,
                    is_system: false,
                };
                let ghost v = made.deep_view();
                self.playlists.push(made);
                assert(self.playlists.deep_view() =~= old(self).playlists.deep_view().push(v));
                Ok(id)
            },
            Err(e) => Err(e),
        }
    }

    /// Changes what is given of a playlist.
    pub fn edit_playlist(
        &mut self,
        id: &PlaylistId,
        new_title: Option<String>,
        new_description: Option<String>,
        new_privacy: Option<Privacy>,
    ) -> (r: Result<(), SourceError>)
        ensures
            (final(self)@, model::answer_view(r)) == old(self)@.editing(
                id.deep_view(),
                new_title.deep_view(),
                new_description.deep_view(),
                new_privacy,
            ),
    {
        match self.record(
            Request::EditPlaylist {
                id: id.copy(),
                title: new_title.copy(),
                description: new_description.copy(),
                privacy: new_privacy,
            },
        ) {
            Ok(_) => match find_playlist(&self.playlists, id) {
                Some(i) => {
                    let mut p = self.playlists[i].copy();
                    match new_title {
                        Some(t) => {
                            p.title = t;
                        },
                        None => {},
                    }
                    match new_description {
                        Some(d) => {
                            p.description = Some(d);
                        },
                        None => {},
                    }
                    match new_privacy {
                        Some(v) => {
                            p.privacy = v;
                        },
                        None => {},
                    }
                    let ghost v = p.deep_view();
                    self.playlists.set(i, p);
                    assert(self.playlists.deep_view() =~= old(self).playlists.deep_view().update(
                        i as int,
                        v,
                    ));
                    Ok(())
                },
                None => Err(SourceError::NotFound(id.as_str().to_owned())),
            },
            Err(e) => Err(e),
        }
    }

    pub fn delete_playlist(&mut self, id: &PlaylistId) -> (r: Result<(), SourceError>)
        ensures
            (final(self)@, model::answer_view(r)) == old(self)@.deleting(id.deep_view()),
    {
        match self.record(Request::DeletePlaylist(id.copy())) {
            Ok(_) => {
                let mut out: Vec<Playlist> = Vec::new();
                let mut i: usize = 0;
                let ghost all = self.playlists.deep_view();
                assert(out.deep_view() =~= without_playlist(all.take(0), id.deep_view()));
                while i < self.playlists.len()
                    invariant
                        i <= self.playlists@.len(),
                        all == self.playlists.deep_view(),
                        out.deep_view() == without_playlist(all.take(i as int), id.deep_view()),
                    decreases self.playlists@.len() - i,
                {
                    let ghost upto = all.take(i + 1);
                    let ghost before = out.deep_view();
                    assert(upto.drop_last() =~= all.take(i as int));
                    assert(upto.last() == self.playlists@[i as int].deep_view());
                    if !self.playlists[i].id.same(id) {
                        out.push(self.playlists[i].copy());
                        assert(out.deep_view() =~= before.push(upto.last()));
                    }
                    i += 1;
                }
                assert(all.take(i as int) =~= all);
                self.playlists = out;
                Ok(())
            },
            Err(e) => Err(e),
        }
    }

    pub fn add_tracks(&mut self, id: &PlaylistId, videos: &Vec<VideoId>) -> (r: Result<
        (),
        SourceError,
    >)
        ensures
            final(self)@ == old(self)@.called(
                RequestView::AddTracks { id: id.deep_view(), videos: videos.deep_view() },
            ),
            model::answer_view(r) == old(self)@.reading(()),
    {
        self.record(Request::AddTracks { id: id.copy(), videos: videos.copy() })
    }

    pub fn remove_tracks(&mut self, id: &PlaylistId, entries: &Vec<SetVideoId>) -> (r: Result<
        (),
        SourceError,
    >)
        ensures
            final(self)@ == old(self)@.called(
                RequestView::RemoveTracks { id: id.deep_view(), entries: entries.deep_view() },
            ),
            model::answer_view(r) == old(self)@.reading(()),
    {
        self.record(Request::RemoveTracks { id: id.copy(), entries: entries.copy() })
    }
}

/// A call about so many things of one.
pub open spec fn counted_text(what: Seq<char>, about: Seq<char>, n: nat) -> Seq<char> {
    what + "("@ + about + ","@ + text::decimal(n) + ")"@
}

fn call(what: &str, about: &str) -> (r: String)
    ensures
        r@ == call_text(what@, about@),
{
    let mut s = join3(what, "(", about);
    s.append(")");
    s
}

fn counted_call(what: &str, about: &str, n: usize) -> (r: String)
    ensures
        r@ == counted_text(what@, about@, n as nat),
{
    let mut s = join3(what, "(", about);
    s.append(",");
    push_decimal(&mut s, n as u64);
    s.append(")");
    s
}

/// A request in words: what it is, what it is about, and of how many things.
pub open spec fn said(r: RequestView) -> Seq<char> {
    match r {
        RequestView::HomeShelves => "home_shelves"@,
        RequestView::RecommendedAlbums => "recommended_albums"@,
        RequestView::LibraryPlaylists => "library_playlists"@,
        RequestView::LibrarySongs => "library_songs"@,
        RequestView::LibraryAlbums => "library_albums"@,
        RequestView::LibraryArtists => "library_artists"@,
        RequestView::PlaylistTracks(x) => call_text("playlist_tracks"@, x),
        RequestView::PlaylistDetails(x) => call_text("playlist_details"@, x),
        RequestView::ArtistTracks(x) => call_text("artist_tracks"@, x),
        RequestView::AlbumTracks(x) => call_text("album_tracks"@, x),
        RequestView::SearchSongs(x) => call_text("search_songs"@, x),
        RequestView::SearchAlbums(x) => call_text("search_albums"@, x),
        RequestView::SearchArtists(x) => call_text("search_artists"@, x),
        RequestView::SearchPlaylists(x) => call_text("search_playlists"@, x),
        RequestView::DeletePlaylist(x) => call_text("delete_playlist"@, x),
        RequestView::CreatePlaylist { title, description: _, privacy: _ } => call_text(
            "create_playlist"@,
            title,
        ),
        RequestView::EditPlaylist { id, title: _, description: _, privacy: _ } => call_text(
            "edit_playlist"@,
            id,
        ),
        RequestView::AddTracks { id, videos } => counted_text("add_tracks"@, id, videos.len()),
        RequestView::RemoveTracks { id, entries } => counted_text(
            "remove_tracks"@,
            id,
            entries.len(),
        ),
    }
}

fn say(r: &Request) -> (s: String)
    ensures
        s@ == said(r.deep_view()),
{
    match r {
        Request::HomeShelves => "home_shelves".to_owned(),
        Request::RecommendedAlbums => "recommended_albums".to_owned(),
        Request::LibraryPlaylists => "library_playlists".to_owned(),
        Request::LibrarySongs => "library_songs".to_owned(),
        Request::LibraryAlbums => "library_albums".to_owned(),
        Request::LibraryArtists => "library_artists".to_owned(),
        Request::PlaylistTracks(x) => call("playlist_tracks", x.as_str()),
        Request::PlaylistDetails(x) => call("playlist_details", x.as_str()),
        Request::ArtistTracks(x) => call("artist_tracks", x.as_str()),
        Request::AlbumTracks(x) => call("album_tracks", x.as_str()),
        Request::SearchSongs(x) => call("search_songs", x.as_str()),
        Request::SearchAlbums(x) => call("search_albums", x.as_str()),
        Request::SearchArtists(x) => call("search_artists", x.as_str()),
        Request::SearchPlaylists(x) => call("search_playlists", x.as_str()),
        Request::DeletePlaylist(x) => call("delete_playlist", x.as_str()),
        Request::CreatePlaylist { title, .. } => call("create_playlist", title.as_str()),
        Request::EditPlaylist { id, .. } => call("edit_playlist", id.as_str()),
        Request::AddTracks { id, videos } => {
            assert(videos.deep_view().len() == videos@.len());
            counted_call("add_tracks", id.as_str(), videos.len())
        },
        Request::RemoveTracks { id, entries } => {
            assert(entries.deep_view().len() == entries@.len());
            counted_call("remove_tracks", id.as_str(), entries.len())
        },
    }
}

impl MockView {
    /// What a request does, and its answer.
    pub open spec fn serving(self, r: RequestView) -> (MockView, ReplyView) {
        let after = self.called(r);
        match r {
            RequestView::CreatePlaylist { title, description, privacy } => {
                let (s, made) = self.creating(title, description, privacy);
                (
                    s,
                    match made {
                        Ok(id) => ReplyView::Created(id),
                        Err(e) => ReplyView::Failed(e),
                    },
                )
            },
            RequestView::EditPlaylist { id, title, description, privacy } => {
                let (s, done) = self.editing(id, title, description, privacy);
                (s, done_view(done))
            },
            RequestView::DeletePlaylist(id) => {
                let (s, done) = self.deleting(id);
                (s, done_view(done))
            },
            _ => (
                after,
                match self.fail_next {
                    Some(e) => ReplyView::Failed(e),
                    None => self.told(r),
                },
            ),
        }
    }

    /// What is told of the catalogue to a request that changes nothing in it.
    pub open spec fn told(self, r: RequestView) -> ReplyView {
        match r {
            RequestView::HomeShelves => ReplyView::Shelves(self.shelves),
            RequestView::LibraryPlaylists | RequestView::SearchPlaylists(_) => ReplyView::Playlists(
                self.playlists,
            ),
            RequestView::LibrarySongs | RequestView::PlaylistTracks(_) => ReplyView::Tracks(
                self.tracks,
            ),
            RequestView::RecommendedAlbums
            | RequestView::LibraryAlbums
            | RequestView::SearchAlbums(_) => ReplyView::Albums(self.albums),
            RequestView::LibraryArtists | RequestView::SearchArtists(_) => ReplyView::Artists(
                self.artists,
            ),
            RequestView::PlaylistDetails(id) => match reducer::playlist_at(self.playlists, id) {
                Some(i) => ReplyView::Details(self.playlists[i]),
                None => ReplyView::Failed(SourceErrorView::NotFound(id)),
            },
            RequestView::ArtistTracks(_) => ReplyView::Tracks(self.artist_tracks),
            RequestView::AlbumTracks(_) => ReplyView::Tracks(self.album_tracks),
            RequestView::SearchSongs(q) => ReplyView::Tracks(matching(self.tracks, q)),
            _ => ReplyView::Done,
        }
    }

    /// What a task asks, and the answer; nothing where it does not ask the source.
    pub open spec fn asking(self, task: TaskView) -> (MockView, Option<ReplyView>) {
        match tasks::requested(task) {
            Some(r) => (self.serving(r).0, Some(self.serving(r).1)),
            None => (self, None),
        }
    }
}

/// The answer to a change that makes nothing new.
pub open spec fn done_view(r: Result<(), SourceErrorView>) -> ReplyView {
    match r {
        Ok(_) => ReplyView::Done,
        Err(e) => ReplyView::Failed(e),
    }
}

fn told_done(r: Result<(), SourceError>) -> (reply: Reply)
    ensures
        reply.deep_view() == done_view(model::answer_view(r)),
{
    match r {
        Ok(_) => Reply::Done,
        Err(e) => Reply::Failed(e),
    }
}

fn told_tracks(r: Result<Vec<Track>, SourceError>) -> (reply: Reply)
    ensures
        reply.deep_view() == match model::answer_view(r) {
            Ok(ts) => ReplyView::Tracks(ts),
            Err(e) => ReplyView::Failed(e),
        },
{
    match r {
        Ok(ts) => Reply::Tracks(ts),
        Err(e) => Reply::Failed(e),
    }
}

fn told_artists(r: Result<Vec<Artist>, SourceError>) -> (reply: Reply)
    ensures
        reply.deep_view() == match model::answer_view(r) {
            Ok(v) => ReplyView::Artists(v),
            Err(e) => ReplyView::Failed(e),
        },
{
    match r {
        Ok(v) => Reply::Artists(v),
        Err(e) => Reply::Failed(e),
    }
}

fn told_albums(r: Result<Vec<Album>, SourceError>) -> (reply: Reply)
    ensures
        reply.deep_view() == match model::answer_view(r) {
            Ok(v) => ReplyView::Albums(v),
            Err(e) => ReplyView::Failed(e),
        },
{
    match r {
        Ok(v) => Reply::Albums(v),
        Err(e) => Reply::Failed(e),
    }
}

fn told_playlists(r: Result<Vec<Playlist>, SourceError>) -> (reply: Reply)
    ensures
        reply.deep_view() == match model::answer_view(r) {
            Ok(v) => ReplyView::Playlists(v),
            Err(e) => ReplyView::Failed(e),
        },
{
    match r {
        Ok(v) => Reply::Playlists(v),
        Err(e) => Reply::Failed(e),
    }
}

impl MockSource {
    /// Answers a request.
    pub fn serve(&mut self, request: &Request) -> (r: Reply)
        requires
            old(self)@.next_id < u32::MAX,
        ensures
            (final(self)@, r.deep_view()) == old(self)@.serving(request.deep_view()),
    {
        match request {
            Request::HomeShelves => match self.home_shelves() {
                Ok(v) => Reply::Shelves(v),
                Err(e) => Reply::Failed(e),
            },
            Request::RecommendedAlbums => told_albums(self.recommended_albums()),
            Request::LibraryPlaylists => told_playlists(self.library_playlists()),
            Request::LibrarySongs => told_tracks(self.library_songs()),
            Request::LibraryAlbums => told_albums(self.library_albums()),
            Request::LibraryArtists => told_artists(self.library_artists()),
            Request::PlaylistTracks(id) => told_tracks(self.playlist_tracks(id)),
            Request::PlaylistDetails(id) => match self.playlist_details(id) {
                Ok(p) => Reply::Details(p),
                Err(e) => Reply::Failed(e),
            },
            Request::ArtistTracks(id) => told_tracks(self.artist_tracks(id)),
            Request::AlbumTracks(id) => told_tracks(self.album_tracks(id)),
            Request::SearchSongs(q) => told_tracks(self.search_songs(q.as_str())),
            Request::SearchAlbums(q) => told_albums(self.search_albums(q.as_str())),
            Request::SearchArtists(q) => told_artists(self.search_artists(q.as_str())),
            Request::SearchPlaylists(q) => told_playlists(self.search_playlists(q.as_str())),
            Request::CreatePlaylist { title, description, privacy } => match self.create_playlist(
                title.clone(),
                description.copy(),
                *privacy,
            ) {
                Ok(id) => Reply::Created(id),
                Err(e) => Reply::Failed(e),
            },
            Request::EditPlaylist { id, title, description, privacy } => told_done(
                self.edit_playlist(id, title.copy(), description.copy(), *privacy),
            ),
            Request::DeletePlaylist(id) => told_done(self.delete_playlist(id)),
            Request::AddTracks { id, videos } => told_done(self.add_tracks(id, videos)),
            Request::RemoveTracks { id, entries } => told_done(self.remove_tracks(id, entries)),
        }
    }

    /// What the source answers to a task; nothing where it is not asked.
    pub fn ask(&mut self, task: &Task) -> (r: Option<Reply>)
        requires
            old(self)@.next_id < u32::MAX,
        ensures
            (final(self)@, r.deep_view()) == old(self)@.asking(task.deep_view()),
    {
        match request_of(task) {
            Some(request) => Some(self.serve(&request)),
            None => None,
        }
    }
}

/// Makes one change and reports the outcome, tagged with its token. The source is asked
/// once, for exactly what the change is.
pub fn run_mutation(token: u64, task: MutationTask, source: &mut MockSource) -> (r: AppEvent)
    requires
        old(source)@.next_id < u32::MAX,
    ensures
        final(source)@ == old(source)@.serving(tasks::change_requested(task.deep_view())).0,
        final(source)@.requests == old(source)@.requests.push(
            tasks::change_requested(task.deep_view()),
        ),
        Some(r.deep_view()) == background::concluded(
            token,
            task.deep_view(),
            old(source)@.serving(tasks::change_requested(task.deep_view())).1,
        ),
{
    let reply = source.serve(&change_request(&task));
    proof {
        every_answer_means_something(
            old(source)@,
            TaskView::Mutate { token, task: task.deep_view() },
        );
    }
    mutation_event(token, &task, reply).unwrap()
}

/// Runs one unit of work and reports what it means. The source is asked once, for what
/// the work is about, or not at all.
pub fn spawn_task(task: Task, source: &mut MockSource) -> (r: Option<AppEvent>)
    requires
        old(source)@.next_id < u32::MAX,
    ensures
        final(source)@ == old(source)@.asking(task.deep_view()).0,
        final(source)@.requests == match tasks::requested(task.deep_view()) {
            Some(request) => old(source)@.requests.push(request),
            None => old(source)@.requests,
        },
        r.deep_view() == match old(source)@.asking(task.deep_view()).1 {
            Some(reply) => background::answered(task.deep_view(), reply),
            None => None,
        },
{
    match source.ask(&task) {
        Some(reply) => settle(task, reply),
        None => None,
    }
}

/// A failure that was set up makes exactly the next call fail.
pub proof fn exactly_one_call_fails(s: MockView, e: SourceErrorView, what: RequestView)
    ensures
        (MockView { fail_next: Some(e), ..s }).serving(what).1 == ReplyView::Failed(e),
        (MockView { fail_next: Some(e), ..s }).serving(what).0.fail_next is None,
{
}

/// A task that asks the source and one that does not are told apart by the answer:
/// every answer means something.
pub proof fn every_answer_means_something(s: MockView, task: TaskView)
    ensures
        s.asking(task).1 matches Some(reply) ==> background::answered(task, reply) is Some,
{
}

} // verus!
