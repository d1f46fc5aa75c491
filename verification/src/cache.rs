//! What is kept from one session to the next: the library as it was last seen, the
//! tracks of the playlists that were opened, and the index of downloads.

use crate::copied::Copied;
use crate::event::{AppEvent, EventView};
use crate::model::{
    DownloadedTrack, DownloadedTrackView, Playlist, PlaylistId, PlaylistView, Track, TrackView,
    VideoId,
};
use vstd::prelude::*;

verus! {

/// What is kept.
#[derive(Debug, Clone, PartialEq, Eq)]
pub struct Cache {
    playlists: Vec<Playlist>,
    songs: Vec<Track>,
    lists: Vec<(PlaylistId, Vec<Track>)>,
    downloads: Vec<DownloadedTrack>,
}

/// The model of a `Cache`.
#[verifier::ext_equal]
pub struct CacheView {
    pub playlists: Seq<PlaylistView>,
    pub songs: Seq<TrackView>,
    /// The tracks of playlists, by their ids.
    pub lists: Seq<(Seq<char>, Seq<TrackView>)>,
    pub downloads: Seq<DownloadedTrackView>,
}

impl View for Cache {
    type V = CacheView;

    closed spec fn view(&self) -> CacheView {
        CacheView {
            playlists: self.playlists.deep_view(),
            songs: self.songs.deep_view(),
            lists: self.lists.deep_view(),
            downloads: self.downloads.deep_view(),
        }
    }
}

/// The entries that do not have this id.
pub open spec fn without_list(
    lists: Seq<(Seq<char>, Seq<TrackView>)>,
    id: Seq<char>,
) -> Seq<(Seq<char>, Seq<TrackView>)>
    decreases lists.len(),
{
    if lists.len() == 0 {
        Seq::empty()
    } else if lists.last().0 == id {
        without_list(lists.drop_last(), id)
    } else {
        without_list(lists.drop_last(), id).push(lists.last())
    }
}

/// The tracks kept under an id; none where nothing is kept.
pub open spec fn kept_under(
    lists: Seq<(Seq<char>, Seq<TrackView>)>,
    id: Seq<char>,
) -> Seq<TrackView>
    decreases lists.len(),
{
    if lists.len() == 0 {
        Seq::empty()
    } else if lists.last().0 == id {
        lists.last().1
    } else {
        kept_under(lists.drop_last(), id)
    }
}

/// The downloads that do not have this id.
pub open spec fn without_download(
    ds: Seq<DownloadedTrackView>,
    id: Seq<char>,
) -> Seq<DownloadedTrackView>
    decreases ds.len(),
{
    if ds.len() == 0 {
        Seq::empty()
    } else if ds.last().video_id == id {
        without_download(ds.drop_last(), id)
    } else {
        without_download(ds.drop_last(), id).push(ds.last())
    }
}

impl CacheView {
    /// Nothing is kept.
    pub open spec fn empty() -> CacheView {
        CacheView {
            playlists: Seq::empty(),
            songs: Seq::empty(),
            lists: Seq::empty(),
            downloads: Seq::empty(),
        }
    }

    /// With the tracks of a playlist in place of those kept before.
    pub open spec fn with_list(self, id: Seq<char>, tracks: Seq<TrackView>) -> CacheView {
        CacheView { lists: without_list(self.lists, id).push((id, tracks)), ..self }
    }

    /// With a download in the index, in place of one of the same track.
    pub open spec fn with_download(self, d: DownloadedTrackView) -> CacheView {
        CacheView { downloads: without_download(self.downloads, d.video_id).push(d), ..self }
    }
}

impl Cache {
    pub fn open_in_memory() -> (r: Cache)
        ensures
            r@ == CacheView::empty(),
    {
        let r = Cache {
            playlists: Vec::new(),
            songs: Vec::new(),
            lists: Vec::new(),
            downloads: Vec::new(),
        };
        assert(r@ =~= CacheView::empty());
        r
    }

    pub fn save_playlists(&mut self, v: &Vec<Playlist>)
        ensures
            final(self)@ == (CacheView { playlists: v.deep_view(), ..old(self)@ }),
    {
        self.playlists = v.copy();
    }

    pub fn load_playlists(&self) -> (r: Vec<Playlist>)
        ensures
            r.deep_view() == self@.playlists,
    {
        self.playlists.copy()
    }

    pub fn save_library_songs(&mut self, v: &Vec<Track>)
        ensures
            final(self)@ == (CacheView { songs: v.deep_view(), ..old(self)@ }),
    {
        self.songs = v.copy();
    }

    pub fn load_library_songs(&self) -> (r: Vec<Track>)
        ensures
            r.deep_view() == self@.songs,
    {
        self.songs.copy()
    }

    pub fn save_playlist_tracks(&mut self, id: &PlaylistId, tracks: &Vec<Track>)
        ensures
            final(self)@ == old(self)@.with_list(id.deep_view(), tracks.deep_view()),
    {
        let mut out: Vec<(PlaylistId, Vec<Track>)> = Vec::new();
        let mut i: usize = 0;
        assert(out.deep_view() =~= without_list(self.lists.deep_view().take(0), id.deep_view()));
        while i < self.lists.len()
            invariant
                i <= self.lists@.len(),
                *self == *old(self),
                out.deep_view() == without_list(
                    self.lists.deep_view().take(i as int),
                    id.deep_view(),
                ),
            decreases self.lists@.len() - i,
        {
            let ghost upto = self.lists.deep_view().take(i + 1);
            let ghost before = out.deep_view();
            assert(upto.drop_last() =~= self.lists.deep_view().take(i as int));
            assert(upto.last() == self.lists@[i as int].deep_view());
            if !self.lists[i].0.same(id) {
                let entry = self.lists[i].copy();
                out.push(entry);
                assert(out.deep_view() =~= before.push(upto.last()));
            }
            i += 1;
        }
        assert(self.lists.deep_view().take(i as int) =~= self.lists.deep_view());
        let ghost before = out.deep_view();
        out.push((id.copy(), tracks.copy()));
        assert(out.deep_view() =~= before.push((id.deep_view(), tracks.deep_view())));
        self.lists = out;
    }

    /// The tracks of every playlist that some are kept for.
    pub fn kept_lists(&self) -> (r: Vec<(PlaylistId, Vec<Track>)>)
        ensures
            r.deep_view() == self@.lists,
    {
        self.lists.copy()
    }

    /// The tracks kept for a playlist; none where nothing is kept.
    pub fn load_playlist_tracks(&self, id: &PlaylistId) -> (r: Vec<Track>)
        ensures
            r.deep_view() == kept_under(self@.lists, id.deep_view()),
    {
        let mut i: usize = self.lists.len();
        assert(self.lists.deep_view().take(i as int) =~= self.lists.deep_view());
        while i > 0
            invariant
                i <= self.lists@.len(),
                kept_under(self.lists.deep_view(), id.deep_view()) == kept_under(
                    self.lists.deep_view().take(i as int),
                    id.deep_view(),
                ),
            decreases i,
        {
            i -= 1;
            let ghost upto = self.lists.deep_view().take(i + 1);
            assert(upto.drop_last() =~= self.lists.deep_view().take(i as int));
            assert(upto.last() == self.lists@[i as int].deep_view());
            if self.lists[i].0.same(id) {
                return self.lists[i].1.copy();
            }
        }
        let r: Vec<Track> = Vec::new();
        assert(r.deep_view() =~= Seq::<TrackView>::empty());
        r
    }

    pub fn save_downloaded_track(&mut self, d: &DownloadedTrack)
        ensures
            final(self)@ == old(self)@.with_download(d.deep_view()),
    {
        self.remove_downloaded_track(&d.video_id);
        let ghost before = self.downloads.deep_view();
        self.downloads.push(d.copy());
        assert(self.downloads.deep_view() =~= before.push(d.deep_view()));
    }

    pub fn remove_downloaded_track(&mut self, id: &VideoId)
        ensures
            final(self)@ == (CacheView {
                downloads: without_download(old(self)@.downloads, id.deep_view()),
                ..old(self)@
            }),
    {
        let mut out: Vec<DownloadedTrack> = Vec::new();
        let mut i: usize = 0;
        assert(out.deep_view() =~= without_download(
            self.downloads.deep_view().take(0),
            id.deep_view(),
        ));
        while i < self.downloads.len()
            invariant
                i <= self.downloads@.len(),
                *self == *old(self),
                out.deep_view() == without_download(
                    self.downloads.deep_view().take(i as int),
                    id.deep_view(),
                ),
            decreases self.downloads@.len() - i,
        {
            let ghost upto = self.downloads.deep_view().take(i + 1);
            let ghost before = out.deep_view();
            assert(upto.drop_last() =~= self.downloads.deep_view().take(i as int));
            assert(upto.last() == self.downloads@[i as int].deep_view());
            if !self.downloads[i].video_id.same(id) {
                out.push(self.downloads[i].copy());
                assert(out.deep_view() =~= before.push(upto.last()));
            }
            i += 1;
        }
        assert(self.downloads.deep_view().take(i as int) =~= self.downloads.deep_view());
        self.downloads = out;
    }

    pub fn get_downloaded_tracks(&self) -> (r: Vec<DownloadedTrack>)
        ensures
            r.deep_view() == self@.downloads,
    {
        self.downloads.copy()
    }

    /// Whether a track is in the index of downloads.
    pub fn is_track_downloaded(&self, id: &VideoId) -> (r: bool)
        ensures
            r == exists|i: int|
                0 <= i < self@.downloads.len() && (#[trigger] self@.downloads[i]).video_id
                    == id.deep_view(),
    {
        let mut i: usize = 0;
        while i < self.downloads.len()
            invariant
                i <= self.downloads@.len(),
                forall|k: int|
                    0 <= k < i ==> (#[trigger] self.downloads@[k]).video_id.deep_view()
                        != id.deep_view(),
            decreases self.downloads@.len() - i,
        {
            if self.downloads[i].video_id.same(id) {
                assert(self@.downloads[i as int].video_id == id.deep_view());
                return true;
            }
            i += 1;
        }
        assert forall|k: int| 0 <= k < self@.downloads.len() implies (
        #[trigger] self@.downloads[k]).video_id != id.deep_view() by {
            assert(self.downloads@[k].video_id.deep_view() != id.deep_view());
        }
        false
    }

    /// Forgets everything.
    pub fn clear(&mut self)
        ensures
            final(self)@ == CacheView::empty(),
    {
        *self = Cache::open_in_memory();
    }
}

/// A pending change of what is kept.
#[derive(Debug, Clone, PartialEq, Eq)]
pub enum CacheWork {
    Playlists(Vec<Playlist>),
    LibrarySongs(Vec<Track>),
    PlaylistTracks { id: PlaylistId, tracks: Vec<Track> },
    SaveDownloaded(DownloadedTrack),
    RemoveDownloaded(VideoId),
}

/// The model of a `CacheWork`.
#[verifier::ext_equal]
pub enum CacheWorkView {
    Playlists(Seq<PlaylistView>),
    LibrarySongs(Seq<TrackView>),
    PlaylistTracks { id: Seq<char>, tracks: Seq<TrackView> },
    SaveDownloaded(DownloadedTrackView),
    RemoveDownloaded(Seq<char>),
}

impl DeepView for CacheWork {
    type V = CacheWorkView;

    open spec fn deep_view(&self) -> CacheWorkView {
        match self {
            CacheWork::Playlists(v) => CacheWorkView::Playlists(v.deep_view()),
            CacheWork::LibrarySongs(v) => CacheWorkView::LibrarySongs(v.deep_view()),
            CacheWork::PlaylistTracks { id, tracks } => CacheWorkView::PlaylistTracks {
                id: id.deep_view(),
                tracks: tracks.deep_view(),
            },
            CacheWork::SaveDownloaded(d) => CacheWorkView::SaveDownloaded(d.deep_view()),
            CacheWork::RemoveDownloaded(id) => CacheWorkView::RemoveDownloaded(id.deep_view()),
        }
    }
}

impl CacheView {
    /// What is kept after a change.
    pub open spec fn after(self, work: CacheWorkView) -> CacheView {
        match work {
            CacheWorkView::Playlists(v) => CacheView { playlists: v, ..self },
            CacheWorkView::LibrarySongs(v) => CacheView { songs: v, ..self },
            CacheWorkView::PlaylistTracks { id, tracks } => self.with_list(id, tracks),
            CacheWorkView::SaveDownloaded(d) => self.with_download(d),
            CacheWorkView::RemoveDownloaded(id) => CacheView {
                downloads: without_download(self.downloads, id),
                ..self
            },
        }
    }
}

impl CacheWork {
    /// Makes the change.
    pub fn run(self, c: &mut Cache)
        ensures
            final(c)@ == old(c)@.after(self.deep_view()),
    {
        match self {
            CacheWork::Playlists(v) => c.save_playlists(&v),
            CacheWork::LibrarySongs(v) => c.save_library_songs(&v),
            CacheWork::PlaylistTracks { id, tracks } => c.save_playlist_tracks(&id, &tracks),
            CacheWork::SaveDownloaded(d) => c.save_downloaded_track(&d),
            CacheWork::RemoveDownloaded(id) => c.remove_downloaded_track(&id),
        }
    }

    /// What a log calls the change.
    pub fn name(&self) -> (r: &'static str)
        ensures
            r@ == match self.deep_view() {
                CacheWorkView::Playlists(_) => "playlists"@,
                CacheWorkView::LibrarySongs(_) => "songs"@,
                CacheWorkView::PlaylistTracks { .. } => "playlist_tracks"@,
                CacheWorkView::SaveDownloaded(_) => "save_downloaded"@,
                CacheWorkView::RemoveDownloaded(_) => "remove_downloaded"@,
            },
    {
        match self {
            CacheWork::Playlists(_) => "playlists",
            CacheWork::LibrarySongs(_) => "songs",
            CacheWork::PlaylistTracks { .. } => "playlist_tracks",
            CacheWork::SaveDownloaded(_) => "save_downloaded",
            CacheWork::RemoveDownloaded(_) => "remove_downloaded",
        }
    }
}

/// What an answer changes of what is kept. An empty library is not kept: an expired
/// cookie is answered with one, and it would wipe a good cache. A playlist genuinely
/// can be empty.
pub open spec fn work_of(ev: EventView) -> Option<CacheWorkView> {
    match ev {
        EventView::PlaylistsLoaded(v) => if v.len() > 0 {
            Some(CacheWorkView::Playlists(v))
        } else {
            None
        },
        EventView::LibrarySongsLoaded(v) => if v.len() > 0 {
            Some(CacheWorkView::LibrarySongs(v))
        } else {
            None
        },
        EventView::PlaylistTracksLoaded { id, tracks } => Some(
            CacheWorkView::PlaylistTracks { id, tracks },
        ),
        _ => None,
    }
}

/// What an answer changes of what is kept.
pub fn cache_work(ev: &AppEvent) -> (r: Option<CacheWork>)
    ensures
        r.deep_view() == work_of(ev.deep_view()),
{
    match ev {
        AppEvent::PlaylistsLoaded(v) => {
            assert(v@.len() == v.deep_view().len());
            if v.len() > 0 {
                Some(CacheWork::Playlists(v.copy()))
            } else {
                None
            }
        },
        AppEvent::LibrarySongsLoaded(v) => {
            assert(v@.len() == v.deep_view().len());
            if v.len() > 0 {
                Some(CacheWork::LibrarySongs(v.copy()))
            } else {
                None
            }
        },
        AppEvent::PlaylistTracksLoaded { id, tracks } => Some(
            CacheWork::PlaylistTracks { id: id.copy(), tracks: tracks.copy() },
        ),
        _ => None,
    }
}

/// What was kept under an id is what is read back, and nothing else that was kept
/// has changed.
pub proof fn a_read_gives_back_what_was_kept(
    c: CacheView,
    id: Seq<char>,
    tracks: Seq<TrackView>,
    other: Seq<char>,
)
    requires
        other != id,
    ensures
        kept_under(c.with_list(id, tracks).lists, id) == tracks,
        kept_under(c.with_list(id, tracks).lists, other) == kept_under(c.lists, other),
        c.with_list(id, tracks).songs == c.songs,
        c.with_list(id, tracks).playlists == c.playlists,
{
    let lists = c.with_list(id, tracks).lists;
    assert(lists.drop_last() =~= without_list(c.lists, id));
    assert(lists.last() == (id, tracks));
    lemma_others_stay(c.lists, id, other);
}

proof fn lemma_others_stay(
    lists: Seq<(Seq<char>, Seq<TrackView>)>,
    id: Seq<char>,
    other: Seq<char>,
)
    requires
        other != id,
    ensures
        kept_under(without_list(lists, id), other) == kept_under(lists, other),
    decreases lists.len(),
{
    if lists.len() > 0 {
        lemma_others_stay(lists.drop_last(), id, other);
        if lists.last().0 != id {
            let rest = without_list(lists.drop_last(), id);
            assert(rest.push(lists.last()).drop_last() =~= rest);
        }
    }
}

/// No answer without rows takes a library that was kept away.
pub proof fn an_empty_answer_keeps_the_library(c: CacheView, ev: EventView)
    requires
        ev == EventView::PlaylistsLoaded(Seq::empty()) || ev == EventView::LibrarySongsLoaded(
            Seq::empty(),
        ),
    ensures
        work_of(ev) is None,
{
}

} // verus!
