use ytm::actor::{map_end_reason, EndReason, RetryState};
use ytm::mock::MockSource;
use ytm::model::{AlbumId, Playlist, Privacy, SourceError, Track, VideoId};
use ytm::resolver::{
    bot_check_error, ensure_netscape_cookie_jar, netscape_from_header, Jar, StreamResolver, TTL_SECS,
};
use ytm::storage::{AudioStorageManager, CachedFile};

const EOF: u32 = 0;
const STOP: u32 = 2;
const QUIT: u32 = 3;
const ERROR: u32 = 4;

#[test]
fn mock_source_is_authenticated_unless_configured_as_guest() {
    assert!(MockSource::new().is_authenticated());
    assert!(!MockSource::guest().is_authenticated());
}

#[test]
fn returns_seeded_playlists() {
    let mut m = MockSource::new().with_playlists(vec![Playlist::stub("p1", "Focus")]);
    let got = m.library_playlists().unwrap();
    assert_eq!(got.len(), 1);
    assert_eq!(got[0].title, "Focus");
}

#[test]
fn returns_seeded_album_tracks() {
    let mut m = MockSource::new().with_album_tracks(vec![Track::stub("v9", "Album Song")]);
    let got = m.album_tracks(&AlbumId::from("MPREb_1")).unwrap();
    assert_eq!(got.len(), 1);
    assert_eq!(got[0].title, "Album Song");
    assert_eq!(m.calls(), vec!["album_tracks(MPREb_1)"]);
}

#[test]
fn records_calls_in_order() {
    let mut m = MockSource::new();
    let _ = m.library_playlists();
    let _ = m.delete_playlist(&"p1".into());
    assert_eq!(m.calls(), vec!["library_playlists", "delete_playlist(p1)"]);
}

#[test]
fn fail_next_makes_exactly_one_call_fail() {
    let mut m = MockSource::new().with_playlists(vec![Playlist::stub("p1", "Focus")]);
    m.fail_next(SourceError::RateLimited);
    assert!(m.library_playlists().is_err());
    assert!(
        m.library_playlists().is_ok(),
        "only the next call should fail"
    );
}

#[test]
fn create_playlist_appends_and_returns_new_id() {
    let mut m = MockSource::new();
    let id = m
        .create_playlist("New".into(), None, Privacy::Private)
        .unwrap();
    let all = m.library_playlists().unwrap();
    assert!(all.iter().any(|p| p.id == id && p.title == "New"));
}

#[test]
fn cache_returns_a_fresh_entry() {
    let mut r = StreamResolver::new();
    r.insert_for_test(&VideoId::from("v1"), "https://example.com/a", 1_000);
    assert_eq!(
        r.cached_at(&VideoId::from("v1"), 1_100).as_deref(),
        Some("https://example.com/a")
    );
}

#[test]
fn cache_expires_after_the_ttl() {
    let mut r = StreamResolver::new();
    r.insert_for_test(&VideoId::from("v1"), "https://example.com/a", 1_000);
    assert!(
        r.cached_at(&VideoId::from("v1"), 1_000 + TTL_SECS - 1)
            .is_some()
    );
    assert!(
        r.cached_at(&VideoId::from("v1"), 1_000 + TTL_SECS + 1)
            .is_none()
    );
}

#[test]
fn invalidate_drops_the_entry_so_a_403_can_re_resolve() {
    let mut r = StreamResolver::new();
    r.insert_for_test(&VideoId::from("v1"), "https://example.com/a", 1_000);
    r.invalidate(&VideoId::from("v1"));
    assert!(r.cached_at(&VideoId::from("v1"), 1_001).is_none());
}

#[test]
fn bot_check_error_offers_optional_cookie_upgrade() {
    assert_eq!(
        bot_check_error(),
        "YouTube asked this connection to sign in before streaming; set auth.cookie_file in config.toml and restart"
    );
}

#[test]
fn ttl_is_four_hours() {
    assert_eq!(TTL_SECS, 4 * 60 * 60);
}

#[test]
fn a_cookie_header_becomes_a_netscape_jar() {
    let jar = netscape_from_header("SAPISID=abc; HSID=def; SSID=ghi").expect("should convert");
    assert!(jar.starts_with("# Netscape HTTP Cookie File"));
    let lines: Vec<&str> = jar.lines().skip(1).collect();
    assert_eq!(lines.len(), 3);
    for line in &lines {
        assert_eq!(
            line.matches('\t').count(),
            6,
            "7 tab-separated fields: {line}"
        );
        assert!(line.starts_with(".youtube.com\tTRUE\t/\tTRUE\t"));
    }
    assert!(lines[0].ends_with("\tSAPISID\tabc"));
}

#[test]
fn a_cookie_value_containing_an_equals_sign_survives() {
    let jar = netscape_from_header("PSID=a=b=c").expect("should convert");
    assert!(jar.lines().nth(1).unwrap().ends_with("\tPSID\ta=b=c"));
}

#[test]
fn whitespace_and_stray_semicolons_do_not_produce_junk_lines() {
    let jar = netscape_from_header("  A=1 ;; B=2 ; ").expect("should convert");
    assert_eq!(jar.lines().count(), 3, "header + two cookies");
}

#[test]
fn a_header_with_no_cookies_converts_to_nothing() {
    assert!(netscape_from_header("").is_none());
    assert!(netscape_from_header("not a cookie header").is_none());
    assert!(netscape_from_header(";;;").is_none());
}

#[test]
fn a_resolver_without_cookies_still_works() {
    let mut r = StreamResolver::new();
    let jar = r.use_cookie_header_file("/nonexistent/cookies.txt", None, "/tmp/jar.txt");
    assert!(jar.is_none());
    assert!(r.cookie_jar().is_none());
}

#[test]
fn ensure_netscape_cookie_jar_converts_raw_header_and_preserves_netscape() {
    match ensure_netscape_cookie_jar("SID=abc12345; HSID=xyz987") {
        Jar::Converted(content) => {
            assert!(content.starts_with("# Netscape HTTP Cookie File"));
            assert!(content.contains("SID\tabc12345"));
        }
        other => panic!("should convert raw header, got {other:?}"),
    }

    let kept = ensure_netscape_cookie_jar(
        "# Netscape HTTP Cookie File\n.youtube.com\tTRUE\t/\tTRUE\t2147483647\tSID\tabc12345\n",
    );
    assert_eq!(kept, Jar::AsIs, "should keep netscape file");
}

#[test]
fn a_403_is_retried_exactly_once() {
    let mut r = RetryState::default();
    assert!(r.should_retry(), "first failure retries");
    assert!(!r.should_retry(), "second failure gives up");
}

#[test]
fn retry_state_resets_on_a_new_track() {
    let mut r = RetryState::default();
    r.should_retry();
    r.reset();
    assert!(r.should_retry(), "each track gets its own retry budget");
}

#[test]
fn libmpv_end_reasons_map_to_ours() {
    assert_eq!(map_end_reason(EOF), EndReason::Eof);
    assert_eq!(map_end_reason(STOP), EndReason::Stop);
    assert_eq!(map_end_reason(QUIT), EndReason::Quit);
    assert_eq!(map_end_reason(ERROR), EndReason::Error);
    assert_eq!(map_end_reason(5), EndReason::Error);
    assert_eq!(map_end_reason(99), EndReason::Error);
}

#[test]
fn play_track_loads_local_file_without_network_resolve() {
    let id = VideoId::from("local_track");
    let file = "/tmp/dl/local_track.opus".to_owned();
    let storage = AudioStorageManager::new("/tmp/dl".to_owned(), "/tmp/cache".to_owned(), 1024);
    assert_eq!(storage.find_local_audio(&id, &vec![file.clone()]), Some(file));
}

#[test]
fn prefetch_skips_existing_tracks_and_fetches_upcoming() {
    let id1 = VideoId::from("t1");
    let id2 = VideoId::from("t2");
    let files = vec!["/tmp/dl/t1.opus".to_owned()];
    let storage = AudioStorageManager::new("/tmp/dl".to_owned(), "/tmp/cache".to_owned(), 1024);
    assert!(storage.find_local_audio(&id1, &files).is_some());
    assert!(storage.find_local_audio(&id2, &files).is_none());
}

#[test]
fn find_local_audio_prefers_downloads_over_cache() {
    let id = VideoId::from("abc123");
    let dl_file = "/tmp/downloads/abc123.opus".to_owned();
    let cache_file = "/tmp/cache/abc123.opus".to_owned();
    let mgr = AudioStorageManager::new("/tmp/downloads".to_owned(), "/tmp/cache".to_owned(), 1024);

    let mut files = vec![cache_file.clone()];
    assert_eq!(mgr.find_local_audio(&id, &files), Some(cache_file));

    files.push(dl_file.clone());
    assert_eq!(mgr.find_local_audio(&id, &files), Some(dl_file));
}

#[test]
fn lru_eviction_removes_oldest_files_when_capacity_exceeded() {
    let mgr = AudioStorageManager::new("/tmp/dl".to_owned(), "/tmp/cache".to_owned(), 1);
    let written = |at| CachedFile { accessed: Some(at), modified: Some(at), size: 600 };
    let mut e = mgr.prune_lru(&vec![written(10), written(20)], 800);
    let mut gone = Vec::new();
    while let Some(i) = e.next() {
        gone.push(i);
        e.settle(true);
    }
    assert_eq!(gone, vec![0], "the older of the two files makes room");
    assert_eq!(e.pruned(), 1);
}
