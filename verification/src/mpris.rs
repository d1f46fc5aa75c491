//! The media keys of the desktop, and what it is told of what is playing.

use crate::app::{self, AppState, StateView};
use crate::copied::Copied;
use crate::model::TrackDuration;
use crate::player::{self, PlaybackState, PlayerCommand, PlayerCommandView, clamp_volume};
use vstd::prelude::*;

verus! {

/// What the desktop asks for.
#[derive(Debug, Clone, Copy, PartialEq, Eq, Structural)]
pub enum MediaKey {
    Toggle,
    Play,
    Pause,
    Next,
    Previous,
    Stop,
    /// A volume in percent. It is meant to be one, but any number may come.
    SetVolume(i64),
    /// Anything else.
    Other,
}

/// The command a media key stands for. What has no clear meaning here is ignored: the
/// user cannot tell a wrong action from a fault.
pub open spec fn command_of(key: MediaKey) -> Option<PlayerCommandView> {
    match key {
        MediaKey::Toggle => Some(PlayerCommandView::TogglePause),
        MediaKey::Play => Some(PlayerCommandView::Resume),
        MediaKey::Pause => Some(PlayerCommandView::Pause),
        MediaKey::Next => Some(PlayerCommandView::Next),
        MediaKey::Previous => Some(PlayerCommandView::Previous),
        MediaKey::Stop => Some(PlayerCommandView::Stop),
        MediaKey::SetVolume(v) => Some(PlayerCommandView::SetVolume(player::clamped(v as int, 0, 100) as u8)),
        MediaKey::Other => None,
    }
}

/// The command a media key stands for.
pub fn to_command(key: MediaKey) -> (r: Option<PlayerCommand>)
    ensures
        r.deep_view() == command_of(key),
{
    match key {
        MediaKey::Toggle => Some(PlayerCommand::TogglePause),
        MediaKey::Play => Some(PlayerCommand::Resume),
        MediaKey::Pause => Some(PlayerCommand::Pause),
        MediaKey::Next => Some(PlayerCommand::Next),
        MediaKey::Previous => Some(PlayerCommand::Previous),
        MediaKey::Stop => Some(PlayerCommand::Stop),
        MediaKey::SetVolume(v) => Some(PlayerCommand::SetVolume(clamp_volume(v))),
        MediaKey::Other => None,
    }
}

/// What the desktop shows of the track.
#[derive(Debug, Clone, PartialEq, Eq)]
pub struct OwnedMetadata {
    pub title: Option<String>,
    pub artist: Option<String>,
    pub album: Option<String>,
    pub cover_url: Option<String>,
    pub duration: Option<TrackDuration>,
}

/// The model of `OwnedMetadata`.
#[verifier::ext_equal]
pub struct MetadataView {
    pub title: Option<Seq<char>>,
    pub artist: Option<Seq<char>>,
    pub album: Option<Seq<char>>,
    pub cover_url: Option<Seq<char>>,
    pub duration: Option<u64>,
}

impl DeepView for OwnedMetadata {
    type V = MetadataView;

    open spec fn deep_view(&self) -> MetadataView {
        MetadataView {
            title: self.title.deep_view(),
            artist: self.artist.deep_view(),
            album: self.album.deep_view(),
            cover_url: self.cover_url.deep_view(),
            duration: self.duration.deep_view(),
        }
    }
}

/// Where playback is, as the desktop has it.
#[derive(Debug, Clone, Copy, PartialEq, Eq, Structural)]
pub enum MediaPlayback {
    Stopped,
    /// The seconds into the track.
    Paused { progress: u64 },
    Playing { progress: u64 },
}

impl StateView {
    /// What the desktop shows of the track.
    pub open spec fn metadata(self) -> MetadataView {
        match self.now_playing {
            None => MetadataView {
                title: None,
                artist: None,
                album: None,
                cover_url: None,
                duration: None,
            },
            Some(t) => MetadataView {
                title: Some(t.title),
                artist: Some(t.artist_line()),
                album: t.album,
                cover_url: t.thumbnail_url,
                duration: Some(self.duration),
            },
        }
    }

    /// Where playback is, as the desktop has it. It has no word for a track that is
    /// loading, which is about to play: to call it stopped would make the desktop flicker.
    pub open spec fn media_playback(self) -> MediaPlayback {
        match self.playback {
            PlaybackState::Playing | PlaybackState::Loading => MediaPlayback::Playing {
                progress: self.position,
            },
            PlaybackState::Paused => MediaPlayback::Paused { progress: self.position },
            PlaybackState::Stopped => MediaPlayback::Stopped,
        }
    }
}

/// What the desktop shows of the track.
pub fn metadata_of(s: &AppState) -> (r: OwnedMetadata)
    ensures
        r.deep_view() == s@.metadata(),
{
    proof {
        app::state_shows_its_fields(s);
    }
    match &s.now_playing {
        None => OwnedMetadata {
            title: None,
            artist: None,
            album: None,
            cover_url: None,
            duration: None,
        },
        Some(t) => OwnedMetadata {
            title: Some(t.title.clone()),
            artist: Some(t.artist_display()),
            album: t.album.copy(),
            cover_url: t.thumbnail_url.copy(),
            duration: Some(s.duration),
        },
    }
}

/// Where playback is, as the desktop has it.
pub fn playback_of(s: &AppState) -> (r: MediaPlayback)
    ensures
        r == s@.media_playback(),
{
    proof {
        app::state_shows_its_fields(s);
    }
    match s.playback {
        PlaybackState::Playing => MediaPlayback::Playing { progress: s.position.as_secs() },
        PlaybackState::Loading => MediaPlayback::Playing { progress: s.position.as_secs() },
        PlaybackState::Paused => MediaPlayback::Paused { progress: s.position.as_secs() },
        PlaybackState::Stopped => MediaPlayback::Stopped,
    }
}

/// Whatever volume the desktop asks for, the player is given a percentage.
pub proof fn a_volume_from_the_desktop_is_a_percentage(v: i64)
    ensures
        command_of(MediaKey::SetVolume(v)) matches Some(PlayerCommandView::SetVolume(p)) && p <= 100
            && (0 <= v <= 100 ==> p == v),
{
}

} // verus!
