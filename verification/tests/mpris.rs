use ytm::app::AppState;
use ytm::model::{Track, TrackDuration};
use ytm::mpris::{metadata_of, playback_of, to_command, MediaKey, MediaPlayback};
use ytm::player::{PlaybackState, PlayerCommand};

#[test]
fn media_key_events_map_to_player_commands() {
    assert!(matches!(
        to_command(MediaKey::Toggle),
        Some(PlayerCommand::TogglePause)
    ));
    assert!(matches!(to_command(MediaKey::Play), Some(PlayerCommand::Resume)));
    assert!(matches!(to_command(MediaKey::Pause), Some(PlayerCommand::Pause)));
    assert!(matches!(to_command(MediaKey::Next), Some(PlayerCommand::Next)));
    assert!(matches!(
        to_command(MediaKey::Previous),
        Some(PlayerCommand::Previous)
    ));
    assert!(matches!(to_command(MediaKey::Stop), Some(PlayerCommand::Stop)));
}

#[test]
fn unsupported_events_are_ignored_rather_than_mapped_wrongly() {
    assert!(to_command(MediaKey::Other).is_none());
}

#[test]
fn metadata_is_empty_when_nothing_is_playing() {
    let s = AppState::default();
    let m = metadata_of(&s);
    assert!(m.title.is_none());
}

#[test]
fn metadata_carries_title_artist_and_duration() {
    let s = AppState {
        now_playing: Some(Track::stub("v1", "Roygbiv")),
        duration: TrackDuration::from_secs(149),
        ..Default::default()
    };
    let m = metadata_of(&s);
    assert_eq!(m.title.as_deref(), Some("Roygbiv"));
    assert_eq!(m.duration.map(|d| d.as_secs()), Some(149));
}

#[test]
fn playback_status_follows_our_own_state() {
    let at = |p: PlaybackState| AppState {
        playback: p,
        ..Default::default()
    };
    assert!(matches!(
        playback_of(&at(PlaybackState::Playing)),
        MediaPlayback::Playing { .. }
    ));
    assert!(matches!(
        playback_of(&at(PlaybackState::Paused)),
        MediaPlayback::Paused { .. }
    ));
    assert!(matches!(
        playback_of(&at(PlaybackState::Stopped)),
        MediaPlayback::Stopped
    ));
    assert!(matches!(
        playback_of(&at(PlaybackState::Loading)),
        MediaPlayback::Playing { .. }
    ));
}

#[test]
fn playback_status_carries_the_current_position() {
    let s = AppState {
        playback: PlaybackState::Playing,
        position: TrackDuration::from_secs(42),
        ..Default::default()
    };
    match playback_of(&s) {
        MediaPlayback::Playing { progress } => assert_eq!(progress, 42),
        other => panic!("expected a position, got {other:?}"),
    }
}

#[test]
fn volume_from_the_bus_is_clamped_before_it_reaches_the_player() {
    assert!(matches!(
        to_command(MediaKey::SetVolume(50)),
        Some(PlayerCommand::SetVolume(50))
    ));
    assert!(matches!(
        to_command(MediaKey::SetVolume(400)),
        Some(PlayerCommand::SetVolume(100))
    ));
    assert!(matches!(
        to_command(MediaKey::SetVolume(-100)),
        Some(PlayerCommand::SetVolume(0))
    ));
}

#[test]
fn metadata_includes_the_cover_url_when_the_track_has_one() {
    let s = AppState {
        now_playing: Some(Track {
            thumbnail_url: Some("https://example.com/a.jpg".into()),
            ..Track::stub("v1", "T")
        }),
        ..Default::default()
    };
    assert_eq!(
        metadata_of(&s).cover_url.as_deref(),
        Some("https://example.com/a.jpg")
    );
}

#[test]
fn metadata_joins_multiple_artists_the_way_the_ui_does() {
    let s = AppState {
        now_playing: Some(Track {
            artists: vec!["Boards of Canada".into(), "Autechre".into()],
            ..Track::stub("v1", "T")
        }),
        ..Default::default()
    };
    assert_eq!(
        metadata_of(&s).artist.as_deref(),
        Some("Boards of Canada, Autechre")
    );
}
