//! What the catalogue is made of: tracks, playlists, albums, artists, the cards of
//! the home feed, and the errors a source of them reports.

use crate::copied::Copied;
use crate::text::{self, join2, push_decimal};
use vstd::prelude::*;

verus! {

/// Names a video.
#[derive(Debug, Clone, PartialEq, Eq, PartialOrd, Ord, Hash)]
pub struct VideoId(pub String);

impl DeepView for VideoId {
    type V = Seq<char>;

    open spec fn deep_view(&self) -> Seq<char> {
        self.0@
    }
}

impl Copied for VideoId {
    fn copy(&self) -> (r: Self) {
        VideoId(self.0.clone())
    }
}

impl VideoId {
    pub fn as_str(&self) -> (r: &str)
        ensures
            r@ == self.deep_view(),
    {
        self.0.as_str()
    }

    /// Whether both name the same thing.
    pub fn same(&self, other: &VideoId) -> (r: bool)
        ensures
            r == (self.deep_view() == other.deep_view()),
    {
        self.0 == other.0
    }
}

impl From<&str> for VideoId {
    fn from(s: &str) -> (r: Self)
        ensures
            r.deep_view() == s@,
    {
        VideoId(s.to_owned())
    }
}

impl vstd::std_specs::convert::FromSpecImpl<&str> for VideoId {
    open spec fn obeys_from_spec() -> bool {
        false
    }

    open spec fn from_spec(s: &str) -> Self {
        arbitrary()
    }
}

/// Names a playlist.
#[derive(Debug, Clone, PartialEq, Eq, PartialOrd, Ord, Hash)]
pub struct PlaylistId(pub String);

impl DeepView for PlaylistId {
    type V = Seq<char>;

    open spec fn deep_view(&self) -> Seq<char> {
        self.0@
    }
}

impl Copied for PlaylistId {
    fn copy(&self) -> (r: Self) {
        PlaylistId(self.0.clone())
    }
}

impl PlaylistId {
    pub fn as_str(&self) -> (r: &str)
        ensures
            r@ == self.deep_view(),
    {
        self.0.as_str()
    }

    /// Whether both name the same thing.
    pub fn same(&self, other: &PlaylistId) -> (r: bool)
        ensures
            r == (self.deep_view() == other.deep_view()),
    {
        self.0 == other.0
    }
}

impl From<&str> for PlaylistId {
    fn from(s: &str) -> (r: Self)
        ensures
            r.deep_view() == s@,
    {
        PlaylistId(s.to_owned())
    }
}

impl vstd::std_specs::convert::FromSpecImpl<&str> for PlaylistId {
    open spec fn obeys_from_spec() -> bool {
        false
    }

    open spec fn from_spec(s: &str) -> Self {
        arbitrary()
    }
}

/// Names an album.
#[derive(Debug, Clone, PartialEq, Eq, PartialOrd, Ord, Hash)]
pub struct AlbumId(pub String);

impl DeepView for AlbumId {
    type V = Seq<char>;

    open spec fn deep_view(&self) -> Seq<char> {
        self.0@
    }
}

impl Copied for AlbumId {
    fn copy(&self) -> (r: Self) {
        AlbumId(self.0.clone())
    }
}

impl AlbumId {
    pub fn as_str(&self) -> (r: &str)
        ensures
            r@ == self.deep_view(),
    {
        self.0.as_str()
    }

    /// Whether both name the same thing.
    pub fn same(&self, other: &AlbumId) -> (r: bool)
        ensures
            r == (self.deep_view() == other.deep_view()),
    {
        self.0 == other.0
    }
}

impl From<&str> for AlbumId {
    fn from(s: &str) -> (r: Self)
        ensures
            r.deep_view() == s@,
    {
        AlbumId(s.to_owned())
    }
}

impl vstd::std_specs::convert::FromSpecImpl<&str> for AlbumId {
    open spec fn obeys_from_spec() -> bool {
        false
    }

    open spec fn from_spec(s: &str) -> Self {
        arbitrary()
    }
}

/// Names an artist.
#[derive(Debug, Clone, PartialEq, Eq, PartialOrd, Ord, Hash)]
pub struct ArtistId(pub String);

impl DeepView for ArtistId {
    type V = Seq<char>;

    open spec fn deep_view(&self) -> Seq<char> {
        self.0@
    }
}

impl Copied for ArtistId {
    fn copy(&self) -> (r: Self) {
        ArtistId(self.0.clone())
    }
}

impl ArtistId {
    pub fn as_str(&self) -> (r: &str)
        ensures
            r@ == self.deep_view(),
    {
        self.0.as_str()
    }

    /// Whether both name the same thing.
    pub fn same(&self, other: &ArtistId) -> (r: bool)
        ensures
            r == (self.deep_view() == other.deep_view()),
    {
        self.0 == other.0
    }
}

impl From<&str> for ArtistId {
    fn from(s: &str) -> (r: Self)
        ensures
            r.deep_view() == s@,
    {
        ArtistId(s.to_owned())
    }
}

impl vstd::std_specs::convert::FromSpecImpl<&str> for ArtistId {
    open spec fn obeys_from_spec() -> bool {
        false
    }

    open spec fn from_spec(s: &str) -> Self {
        arbitrary()
    }
}

/// Names one entry of a playlist, as opposed to the video it plays.
#[derive(Debug, Clone, PartialEq, Eq, PartialOrd, Ord, Hash)]
pub struct SetVideoId(pub String);

impl DeepView for SetVideoId {
    type V = Seq<char>;

    open spec fn deep_view(&self) -> Seq<char> {
        self.0@
    }
}

impl Copied for SetVideoId {
    fn copy(&self) -> (r: Self) {
        SetVideoId(self.0.clone())
    }
}

impl SetVideoId {
    pub fn as_str(&self) -> (r: &str)
        ensures
            r@ == self.deep_view(),
    {
        self.0.as_str()
    }

    /// Whether both name the same thing.
    pub fn same(&self, other: &SetVideoId) -> (r: bool)
        ensures
            r == (self.deep_view() == other.deep_view()),
    {
        self.0 == other.0
    }
}

impl From<&str> for SetVideoId {
    fn from(s: &str) -> (r: Self)
        ensures
            r.deep_view() == s@,
    {
        SetVideoId(s.to_owned())
    }
}

impl vstd::std_specs::convert::FromSpecImpl<&str> for SetVideoId {
    open spec fn obeys_from_spec() -> bool {
        false
    }

    open spec fn from_spec(s: &str) -> Self {
        arbitrary()
    }
}

impl From<String> for VideoId {
    fn from(s: String) -> (r: Self)
        ensures
            r.deep_view() == s@,
    {
        VideoId(s)
    }
}

impl vstd::std_specs::convert::FromSpecImpl<String> for VideoId {
    open spec fn obeys_from_spec() -> bool {
        false
    }

    open spec fn from_spec(s: String) -> Self {
        arbitrary()
    }
}

/// A length of time in whole seconds.
#[derive(Debug, Clone, Copy, PartialEq, Eq, Structural)]
pub struct TrackDuration {
    secs: u64,
}

/// Two digits, with a leading zero below ten.
pub open spec fn two_digits(n: nat) -> Seq<char> {
    if n < 10 {
        seq!['0'] + text::decimal(n)
    } else {
        text::decimal(n)
    }
}

/// `m:ss` below an hour, `h:mm:ss` from an hour on.
pub open spec fn clock(secs: nat) -> Seq<char> {
    if secs < 3600 {
        text::decimal(secs / 60) + seq![':'] + two_digits(secs % 60)
    } else {
        text::decimal(secs / 3600) + seq![':'] + two_digits(secs / 60 % 60) + seq![':'] + two_digits(
            secs % 60,
        )
    }
}

fn push_two_digits(out: &mut String, n: u64)
    ensures
        final(out)@ == old(out)@ + two_digits(n as nat),
{
    if n < 10 {
        out.push('0');
    }
    push_decimal(out, n);
    assert(out@ == old(out)@ + two_digits(n as nat));
}

impl TrackDuration {
    pub closed spec fn seconds(self) -> u64 {
        self.secs
    }

    pub fn from_secs(secs: u64) -> (r: Self)
        ensures
            r.seconds() == secs,
    {
        TrackDuration { secs }
    }

    pub fn as_secs(&self) -> (r: u64)
        ensures
            r == self.seconds(),
    {
        self.secs
    }

    /// The duration the way the rows and the bar show it.
    pub fn text(&self) -> (r: String)
        ensures
            r@ == clock(self.seconds() as nat),
    {
        let s = self.secs;
        let mut out = String::new();
        if s < 3600 {
            push_decimal(&mut out, s / 60);
            out.push(':');
            push_two_digits(&mut out, s % 60);
        } else {
            push_decimal(&mut out, s / 3600);
            out.push(':');
            push_two_digits(&mut out, s / 60 % 60);
            out.push(':');
            push_two_digits(&mut out, s % 60);
        }
        assert(out@ == clock(s as nat));
        out
    }
}

impl DeepView for TrackDuration {
    type V = u64;

    open spec fn deep_view(&self) -> u64 {
        self.seconds()
    }
}

impl Copied for TrackDuration {
    fn copy(&self) -> (r: Self) {
        *self
    }
}

/// Texts one after the other, a separator between each two.
pub open spec fn joined(parts: Seq<Seq<char>>, sep: Seq<char>) -> Seq<char>
    decreases parts.len(),
{
    if parts.len() == 0 {
        Seq::empty()
    } else if parts.len() == 1 {
        parts[0]
    } else {
        joined(parts.drop_last(), sep) + sep + parts.last()
    }
}

/// Joins texts with a separator between each two.
pub fn join_all(parts: &Vec<String>, sep: &str) -> (r: String)
    ensures
        r@ == joined(parts.deep_view(), sep@),
{
    let mut out = String::new();
    let mut i: usize = 0;
    while i < parts.len()
        invariant
            i <= parts@.len(),
            out@ == joined(parts.deep_view().take(i as int), sep@),
        decreases parts@.len() - i,
    {
        let ghost before = parts.deep_view().take(i as int);
        let ghost after = parts.deep_view().take(i + 1);
        assert(after.drop_last() == before);
        if i > 0 {
            out.append(sep);
        }
        out.append(parts[i].as_str());
        i += 1;
        assert(out@ == joined(after, sep@));
    }
    assert(parts.deep_view().take(i as int) == parts.deep_view());
    out
}

/// One song as every list shows it.
#[derive(Debug, Clone, PartialEq, Eq)]
pub struct Track {
    pub video_id: VideoId,
    /// Which entry of a playlist this row is; only playlist reads carry it.
    pub set_video_id: Option<SetVideoId>,
    pub title: String,
    pub artists: Vec<String>,
    pub album: Option<String>,
    pub duration: TrackDuration,
    pub thumbnail_url: Option<String>,
}

/// The model of a `Track`.
#[verifier::ext_equal]
pub struct TrackView {
    pub video_id: Seq<char>,
    pub set_video_id: Option<Seq<char>>,
    pub title: Seq<char>,
    pub artists: Seq<Seq<char>>,
    pub album: Option<Seq<char>>,
    pub duration: u64,
    pub thumbnail_url: Option<Seq<char>>,
}

impl DeepView for Track {
    type V = TrackView;

    open spec fn deep_view(&self) -> TrackView {
        TrackView {
            video_id: self.video_id.deep_view(),
            set_video_id: self.set_video_id.deep_view(),
            title: self.title.deep_view(),
            artists: self.artists.deep_view(),
            album: self.album.deep_view(),
            duration: self.duration.deep_view(),
            thumbnail_url: self.thumbnail_url.deep_view(),
        }
    }
}

impl Copied for Track {
    fn copy(&self) -> (r: Self) {
        Track {
            video_id: self.video_id.copy(),
            set_video_id: self.set_video_id.copy(),
            title: self.title.copy(),
            artists: self.artists.copy(),
            album: self.album.copy(),
            duration: self.duration.copy(),
            thumbnail_url: self.thumbnail_url.copy(),
        }
    }
}

impl TrackView {
    /// The artists on one line.
    pub open spec fn artist_line(self) -> Seq<char> {
        joined(self.artists, ", "@)
    }

    /// A track of which only the id and the title are known.
    pub open spec fn stub(id: Seq<char>, title: Seq<char>) -> TrackView {
        TrackView {
            video_id: id,
            set_video_id: None,
            title,
            artists: Seq::empty(),
            album: None,
            duration: 0,
            thumbnail_url: None,
        }
    }
}

impl Track {
    /// A track of which only the id and the title are known.
    pub fn stub(id: &str, title: &str) -> (r: Track)
        ensures
            r.deep_view() == TrackView::stub(id@, title@),
    {
        Track {
            video_id: VideoId(id.to_owned()),
            set_video_id: None,
            title: title.to_owned(),
            artists: Vec::new(),
            album: None,
            duration: TrackDuration::from_secs(0),
            thumbnail_url: None,
        }
    }

    /// The artists on one line.
    pub fn artist_display(&self) -> (r: String)
        ensures
            r@ == self.deep_view().artist_line(),
    {
        join_all(&self.artists, ", ")
    }
}

/// Who may see a playlist.
#[derive(Debug, Clone, Copy, PartialEq, Eq, Structural)]
pub enum Privacy {
    Private,
    Unlisted,
    Public,
}

/// A playlist as the library lists it.
#[derive(Debug, Clone, PartialEq, Eq)]
pub struct Playlist {
    pub id: PlaylistId,
    pub title: String,
    pub description: Option<String>,
    pub privacy: Privacy,
    pub track_count: Option<u64>,
    pub thumbnail_url: Option<String>,
    /// Managed by the service: it can be neither edited nor deleted.
    pub is_system: bool,
}

/// The model of a `Playlist`.
#[verifier::ext_equal]
pub struct PlaylistView {
    pub id: Seq<char>,
    pub title: Seq<char>,
    pub description: Option<Seq<char>>,
    pub privacy: Privacy,
    pub track_count: Option<u64>,
    pub thumbnail_url: Option<Seq<char>>,
    pub is_system: bool,
}

impl DeepView for Playlist {
    type V = PlaylistView;

    open spec fn deep_view(&self) -> PlaylistView {
        PlaylistView {
            id: self.id.deep_view(),
            title: self.title.deep_view(),
            description: self.description.deep_view(),
            privacy: self.privacy,
            track_count: self.track_count,
            thumbnail_url: self.thumbnail_url.deep_view(),
            is_system: self.is_system,
        }
    }
}

impl Copied for Playlist {
    fn copy(&self) -> (r: Self) {
        Playlist {
            id: self.id.copy(),
            title: self.title.copy(),
            description: self.description.copy(),
            privacy: self.privacy,
            track_count: self.track_count,
            thumbnail_url: self.thumbnail_url.copy(),
            is_system: self.is_system,
        }
    }
}

impl PlaylistView {
    /// A private playlist of which only the id and the title are known.
    pub open spec fn stub(id: Seq<char>, title: Seq<char>) -> PlaylistView {
        PlaylistView {
            id,
            title,
            description: None,
            privacy: Privacy::Private,
            track_count: None,
            thumbnail_url: None,
            is_system: false,
        }
    }
}

impl Playlist {
    /// A private playlist of which only the id and the title are known.
    pub fn stub(id: &str, title: &str) -> (r: Playlist)
        ensures
            r.deep_view() == PlaylistView::stub(id@, title@),
    {
        Playlist {
            id: PlaylistId(id.to_owned()),
            title: title.to_owned(),
            description: None,
            privacy: Privacy::Private,
            track_count: None,
            thumbnail_url: None,
            is_system: false,
        }
    }
}

/// An album as the library lists it.
#[derive(Debug, Clone, PartialEq, Eq)]
pub struct Album {
    pub id: AlbumId,
    pub title: String,
    pub artists: Vec<String>,
    pub year: Option<u32>,
    pub thumbnail_url: Option<String>,
}

/// The model of a `Album`.
#[verifier::ext_equal]
pub struct AlbumView {
    pub id: Seq<char>,
    pub title: Seq<char>,
    pub artists: Seq<Seq<char>>,
    pub year: Option<u32>,
    pub thumbnail_url: Option<Seq<char>>,
}

impl DeepView for Album {
    type V = AlbumView;

    open spec fn deep_view(&self) -> AlbumView {
        AlbumView {
            id: self.id.deep_view(),
            title: self.title.deep_view(),
            artists: self.artists.deep_view(),
            year: self.year,
            thumbnail_url: self.thumbnail_url.deep_view(),
        }
    }
}

impl Copied for Album {
    fn copy(&self) -> (r: Self) {
        Album {
            id: self.id.copy(),
            title: self.title.copy(),
            artists: self.artists.copy(),
            year: self.year,
            thumbnail_url: self.thumbnail_url.copy(),
        }
    }
}

/// An artist as the library lists them.
#[derive(Debug, Clone, PartialEq, Eq)]
pub struct Artist {
    pub id: ArtistId,
    pub name: String,
    pub subscribers: Option<String>,
    pub thumbnail_url: Option<String>,
}

/// The model of a `Artist`.
#[verifier::ext_equal]
pub struct ArtistView {
    pub id: Seq<char>,
    pub name: Seq<char>,
    pub subscribers: Option<Seq<char>>,
    pub thumbnail_url: Option<Seq<char>>,
}

impl DeepView for Artist {
    type V = ArtistView;

    open spec fn deep_view(&self) -> ArtistView {
        ArtistView {
            id: self.id.deep_view(),
            name: self.name.deep_view(),
            subscribers: self.subscribers.deep_view(),
            thumbnail_url: self.thumbnail_url.deep_view(),
        }
    }
}

impl Copied for Artist {
    fn copy(&self) -> (r: Self) {
        Artist {
            id: self.id.copy(),
            name: self.name.copy(),
            subscribers: self.subscribers.copy(),
            thumbnail_url: self.thumbnail_url.copy(),
        }
    }
}

/// What a card of the home feed leads to.
#[derive(Debug, Clone, PartialEq, Eq)]
pub enum HomeTarget {
    Playlist(PlaylistId),
    Artist(ArtistId),
    Album(AlbumId),
    Track(VideoId),
}

/// The model of a `HomeTarget`.
pub enum HomeTargetView {
    Playlist(Seq<char>),
    Artist(Seq<char>),
    Album(Seq<char>),
    Track(Seq<char>),
}

impl DeepView for HomeTarget {
    type V = HomeTargetView;

    open spec fn deep_view(&self) -> HomeTargetView {
        match self {
            HomeTarget::Playlist(id) => HomeTargetView::Playlist(id.deep_view()),
            HomeTarget::Artist(id) => HomeTargetView::Artist(id.deep_view()),
            HomeTarget::Album(id) => HomeTargetView::Album(id.deep_view()),
            HomeTarget::Track(id) => HomeTargetView::Track(id.deep_view()),
        }
    }
}

impl Copied for HomeTarget {
    fn copy(&self) -> (r: Self) {
        match self {
            HomeTarget::Playlist(id) => HomeTarget::Playlist(id.copy()),
            HomeTarget::Artist(id) => HomeTarget::Artist(id.copy()),
            HomeTarget::Album(id) => HomeTarget::Album(id.copy()),
            HomeTarget::Track(id) => HomeTarget::Track(id.copy()),
        }
    }
}

/// One card of the home feed.
#[derive(Debug, Clone, PartialEq, Eq)]
pub struct HomeItem {
    pub title: String,
    pub subtitle: String,
    pub target: HomeTarget,
    pub thumbnail_url: Option<String>,
}

/// The model of a `HomeItem`.
#[verifier::ext_equal]
pub struct HomeItemView {
    pub title: Seq<char>,
    pub subtitle: Seq<char>,
    pub target: HomeTargetView,
    pub thumbnail_url: Option<Seq<char>>,
}

impl DeepView for HomeItem {
    type V = HomeItemView;

    open spec fn deep_view(&self) -> HomeItemView {
        HomeItemView {
            title: self.title.deep_view(),
            subtitle: self.subtitle.deep_view(),
            target: self.target.deep_view(),
            thumbnail_url: self.thumbnail_url.deep_view(),
        }
    }
}

impl Copied for HomeItem {
    fn copy(&self) -> (r: Self) {
        HomeItem {
            title: self.title.copy(),
            subtitle: self.subtitle.copy(),
            target: self.target.copy(),
            thumbnail_url: self.thumbnail_url.copy(),
        }
    }
}

/// One titled row of cards of the home feed.
#[derive(Debug, Clone, PartialEq, Eq)]
pub struct HomeShelf {
    pub title: String,
    pub items: Vec<HomeItem>,
}

/// The model of a `HomeShelf`.
#[verifier::ext_equal]
pub struct HomeShelfView {
    pub title: Seq<char>,
    pub items: Seq<HomeItemView>,
}

impl DeepView for HomeShelf {
    type V = HomeShelfView;

    open spec fn deep_view(&self) -> HomeShelfView {
        HomeShelfView {
            title: self.title.deep_view(),
            items: self.items.deep_view(),
        }
    }
}

impl Copied for HomeShelf {
    fn copy(&self) -> (r: Self) {
        HomeShelf {
            title: self.title.copy(),
            items: self.items.copy(),
        }
    }
}

/// A track kept on disk, as the index of downloads records it.
#[derive(Debug, Clone, PartialEq, Eq)]
pub struct DownloadedTrack {
    pub video_id: VideoId,
    pub title: String,
    pub artists: Vec<String>,
    pub album: Option<String>,
    pub duration_secs: u64,
    pub thumbnail_url: Option<String>,
    pub file_path: String,
    pub file_size_bytes: u64,
    /// Seconds since the epoch.
    pub downloaded_at: u64,
}

/// The model of a `DownloadedTrack`.
#[verifier::ext_equal]
pub struct DownloadedTrackView {
    pub video_id: Seq<char>,
    pub title: Seq<char>,
    pub artists: Seq<Seq<char>>,
    pub album: Option<Seq<char>>,
    pub duration_secs: u64,
    pub thumbnail_url: Option<Seq<char>>,
    pub file_path: Seq<char>,
    pub file_size_bytes: u64,
    pub downloaded_at: u64,
}

impl DeepView for DownloadedTrack {
    type V = DownloadedTrackView;

    open spec fn deep_view(&self) -> DownloadedTrackView {
        DownloadedTrackView {
            video_id: self.video_id.deep_view(),
            title: self.title.deep_view(),
            artists: self.artists.deep_view(),
            album: self.album.deep_view(),
            duration_secs: self.duration_secs,
            thumbnail_url: self.thumbnail_url.deep_view(),
            file_path: self.file_path.deep_view(),
            file_size_bytes: self.file_size_bytes,
            downloaded_at: self.downloaded_at,
        }
    }
}

impl Copied for DownloadedTrack {
    fn copy(&self) -> (r: Self) {
        DownloadedTrack {
            video_id: self.video_id.copy(),
            title: self.title.copy(),
            artists: self.artists.copy(),
            album: self.album.copy(),
            duration_secs: self.duration_secs,
            thumbnail_url: self.thumbnail_url.copy(),
            file_path: self.file_path.copy(),
            file_size_bytes: self.file_size_bytes,
            downloaded_at: self.downloaded_at,
        }
    }
}

impl DownloadedTrackView {
    /// The row a list shows for it.
    pub open spec fn track(self) -> TrackView {
        TrackView {
            video_id: self.video_id,
            set_video_id: None,
            title: self.title,
            artists: self.artists,
            album: self.album,
            duration: self.duration_secs,
            thumbnail_url: self.thumbnail_url,
        }
    }
}

impl DownloadedTrack {
    /// The row a list shows for it.
    pub fn to_track(&self) -> (r: Track)
        ensures
            r.deep_view() == self.deep_view().track(),
    {
        Track {
            video_id: self.video_id.copy(),
            set_video_id: None,
            title: self.title.clone(),
            artists: self.artists.copy(),
            album: self.album.copy(),
            duration: TrackDuration::from_secs(self.duration_secs),
            thumbnail_url: self.thumbnail_url.copy(),
        }
    }
}

/// The rows a list shows for the downloads, in order.
pub open spec fn download_rows(d: Seq<DownloadedTrackView>) -> Seq<TrackView> {
    Seq::new(d.len(), |i: int| d[i].track())
}

/// The rows a list shows for the downloads, in order.
pub fn to_tracks(v: &Vec<DownloadedTrack>) -> (r: Vec<Track>)
    ensures
        r.deep_view() == download_rows(v.deep_view()),
{
    let mut out: Vec<Track> = Vec::new();
    let mut i: usize = 0;
    while i < v.len()
        invariant
            i <= v@.len(),
            out@.len() == i,
            forall|k: int| 0 <= k < i ==> out@[k].deep_view() == v@[k].deep_view().track(),
        decreases v@.len() - i,
    {
        out.push(v[i].to_track());
        i += 1;
    }
    assert(out.deep_view() == download_rows(v.deep_view()));
    out
}

/// Why a source could not answer.
#[derive(Debug, Clone, PartialEq, Eq)]
pub enum SourceError {
    RateLimited,
    AlreadyInPlaylist,
    NotFound(String),
    Other(String),
}

/// The model of a `SourceError`.
pub enum SourceErrorView {
    RateLimited,
    AlreadyInPlaylist,
    NotFound(Seq<char>),
    Other(Seq<char>),
}

impl DeepView for SourceError {
    type V = SourceErrorView;

    open spec fn deep_view(&self) -> SourceErrorView {
        match self {
            SourceError::RateLimited => SourceErrorView::RateLimited,
            SourceError::AlreadyInPlaylist => SourceErrorView::AlreadyInPlaylist,
            SourceError::NotFound(what) => SourceErrorView::NotFound(what@),
            SourceError::Other(what) => SourceErrorView::Other(what@),
        }
    }
}

impl SourceErrorView {
    /// What the user is told.
    pub open spec fn message(self) -> Seq<char> {
        match self {
            SourceErrorView::RateLimited => "too many requests, try again in a moment"@,
            SourceErrorView::AlreadyInPlaylist => "already in playlist"@,
            SourceErrorView::NotFound(what) => "not found: "@ + what,
            SourceErrorView::Other(what) => what,
        }
    }
}

impl SourceError {
    /// What the user is told.
    pub fn message(&self) -> (r: String)
        ensures
            r@ == self.deep_view().message(),
    {
        match self {
            SourceError::RateLimited => "too many requests, try again in a moment".to_owned(),
            SourceError::AlreadyInPlaylist => "already in playlist".to_owned(),
            SourceError::NotFound(what) => join2("not found: ", what.as_str()),
            SourceError::Other(what) => what.clone(),
        }
    }
}

/// The model of what a source answered.
pub open spec fn answer_view<T: DeepView>(r: Result<T, SourceError>) -> Result<
    T::V,
    SourceErrorView,
> {
    match r {
        Ok(x) => Ok(x.deep_view()),
        Err(e) => Err(e.deep_view()),
    }
}

} // verus!
