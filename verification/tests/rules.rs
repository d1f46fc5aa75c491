use ytm::actor::{Act, ActorCore, EndReason};
use ytm::app::{AppState, ConfirmAction, Focus, Modal, Pane, PANE_ORDER};
use ytm::app_loop::dispatch_input;
use ytm::art::ArtCache;
use ytm::background::{
    album_fetched, art_tick, download_failed, download_saved, event_name, event_rows,
    list_downloads, list_queued_message, mutation_event, preload_from_cache,
    preload_playlist_tracks, settle, source_ready, start, try_spawn, Kept, Reply, Spawn,
    GUEST_NOTICE,
};
use ytm::cache::{cache_work, Cache, CacheWork};
use ytm::config::BehaviourConfig;
use ytm::edits::{choose_marked, confirm_action};
use ytm::event::{AppEvent, InputAction};
use ytm::event_loop::{
    cycle_theme, handle_click, left_click, left_click_on, right_click_on, ThemeState,
};
use ytm::keymap::{action_from_name, KeyCode, KeyEvent, KeyMap, Pending};
use ytm::marks::MarkSet;
use ytm::mock::{run_mutation, spawn_task, MockSource};
use ytm::model::{
    AlbumId, ArtistId, Playlist, PlaylistId, Privacy, SetVideoId, SourceError, Track,
    TrackDuration, VideoId,
};
use ytm::mpris::{to_command, MediaKey};
use ytm::mutation::Mutation;
use ytm::player::{
    apply_seek, clamp_volume, CommandLog, PlaybackState, PlayerCommand, PlayerEvent, RepeatMode,
};
use ytm::queue::Queue;
use ytm::render::ClickTarget;
use ytm::resolver::{
    last_line_of, stream_args, stream_outcome, ResolveError, StreamResolver, Whence, TTL_SECS,
};
use ytm::screen::Rect;
use ytm::search_state::SearchDebounce;
use ytm::sidebar::source_at_row;
use ytm::storage::{fetch_args, fetch_outcome, AudioStorageManager, CachedFile};
use ytm::tasks::{request_of, MutationTask, Request, Task};
use ytm::theme::Theme;
use ytm::tracklist::visible_window;

fn track(id: &str) -> Track {
    Track::stub(id, id)
}

fn tracks(ids: &[&str]) -> Vec<Track> {
    ids.iter().map(|id| track(id)).collect()
}

fn ids(v: &[Track]) -> Vec<String> {
    v.iter().map(|t| t.video_id.as_str().to_owned()).collect()
}

fn steps() -> BehaviourConfig {
    BehaviourConfig::default()
}

fn queued(names: &[&str]) -> Queue {
    let mut q = Queue::default();
    q.push_back(tracks(names));
    q
}

#[test]
fn a_stream_that_fails_twice_is_given_up() {
    let mut core = ActorCore::new(50);
    core.handle(PlayerCommand::EnqueueBack(tracks(&["a"])), &vec![]);
    let first = core.file_ended(EndReason::Error);
    assert!(first.contains(&Act::Invalidate(VideoId::from("a"))));
    assert!(first.contains(&Act::Load(track("a"))));
    let second = core.file_ended(EndReason::Error);
    assert!(!second.iter().any(|a| matches!(a, Act::Load(_))));
    assert!(second.contains(&Act::Emit(PlayerEvent::Error(
        "this track's stream expired and could not be renewed".to_owned()
    ))));
    assert_eq!(core.state(), PlaybackState::Stopped);
}

#[test]
fn the_next_track_has_a_retry_of_its_own() {
    let mut core = ActorCore::new(50);
    core.handle(PlayerCommand::EnqueueBack(tracks(&["a", "b"])), &vec![]);
    core.file_ended(EndReason::Error);
    core.handle(PlayerCommand::Next, &vec![]);
    let acts = core.file_ended(EndReason::Error);
    assert!(acts.contains(&Act::Load(track("b"))));
}

#[test]
fn the_end_of_a_track_leads_to_the_next_and_then_to_silence() {
    let mut core = ActorCore::new(50);
    core.handle(PlayerCommand::EnqueueBack(tracks(&["a", "b"])), &vec![]);
    let acts = core.file_ended(EndReason::Eof);
    assert_eq!(acts[0], Act::Emit(PlayerEvent::TrackEnded(VideoId::from("a"))));
    assert!(acts.contains(&Act::Load(track("b"))));
    let acts = core.file_ended(EndReason::Eof);
    assert!(acts.contains(&Act::Emit(PlayerEvent::TrackChanged(None))));
    assert_eq!(core.state(), PlaybackState::Stopped);
    assert!(core.file_ended(EndReason::Stop).is_empty());
    assert!(core.file_ended(EndReason::Quit).is_empty());
}

#[test]
fn unmuting_is_back_at_the_volume_there_was() {
    let mut core = ActorCore::new(63);
    assert_eq!(core.handle(PlayerCommand::ToggleMute, &vec![]), vec![Act::Mute]);
    assert_eq!(core.mute_done(true), vec![Act::Emit(PlayerEvent::VolumeChanged(0))]);
    assert_eq!(core.handle(PlayerCommand::ToggleMute, &vec![]), vec![Act::Unmute(63)]);
    assert_eq!(core.unmute_done(63, true), vec![Act::Emit(PlayerEvent::VolumeChanged(63))]);
}

#[test]
fn what_mpv_refuses_changes_nothing() {
    let mut core = ActorCore::new(63);
    assert!(core.mute_done(false).is_empty());
    assert!(core.pause_done(true, false).is_empty());
    assert_eq!(core.state(), PlaybackState::Stopped);
    let refused = core.volume_done(10, Err("no".to_owned()));
    assert_eq!(refused, vec![Act::Emit(PlayerEvent::Error("no".to_owned()))]);
    let failed = core.load_done(Err("gone".to_owned()));
    assert_eq!(failed, vec![Act::Emit(PlayerEvent::Error("gone".to_owned()))]);
}

#[test]
fn nothing_is_fetched_ahead_twice() {
    let mut core = ActorCore::new(50);
    core.handle(PlayerCommand::EnqueueBack(tracks(&["a", "b", "c", "d"])), &vec![]);
    let mut local = MarkSet::new();
    local.insert(VideoId::from("b"));
    let upcoming: Vec<VideoId> = core.upcoming_ids(2);
    assert_eq!(upcoming, vec![VideoId::from("b"), VideoId::from("c")]);
    assert_eq!(core.plan_prefetch(2, &local), vec![VideoId::from("c")]);
    assert!(core.plan_prefetch(2, &local).is_empty(), "it is under way already");
    core.prefetch_done(&VideoId::from("c"));
    assert_eq!(core.plan_prefetch(2, &local), vec![VideoId::from("c")]);
}

#[test]
fn playing_now_steps_onto_the_track_that_was_put_in() {
    let mut core = ActorCore::new(50);
    core.handle(PlayerCommand::EnqueueBack(tracks(&["a", "b"])), &vec![]);
    let acts = core.handle(PlayerCommand::PlayNow(track("x")), &vec![]);
    assert!(acts.contains(&Act::Emit(PlayerEvent::QueueChanged {
        tracks: tracks(&["a", "x", "b"]),
        current: Some(1),
    })));
    assert!(acts.contains(&Act::Load(track("x"))));
}

#[test]
fn removing_what_plays_changes_what_plays() {
    let mut core = ActorCore::new(50);
    core.handle(PlayerCommand::EnqueueBack(tracks(&["a", "b"])), &vec![]);
    let acts = core.handle(PlayerCommand::RemoveFromQueue(0), &vec![]);
    assert!(acts.contains(&Act::Load(track("b"))));
    let acts = core.handle(PlayerCommand::RemoveFromQueue(0), &vec![]);
    assert!(acts.contains(&Act::Stop));
    assert!(acts.contains(&Act::Emit(PlayerEvent::TrackChanged(None))));
}

#[test]
fn progress_is_told_four_times_a_second_while_something_plays() {
    let mut core = ActorCore::new(50);
    assert!(!core.progress_due(1000), "nothing plays");
    core.handle(PlayerCommand::EnqueueBack(tracks(&["a"])), &vec![]);
    core.file_loaded();
    assert_eq!(core.state(), PlaybackState::Playing);
    assert!(!core.progress_due(239));
    assert!(core.progress_due(240));
}

#[test]
fn moving_an_entry_keeps_what_plays() {
    let mut q = queued(&["a", "b", "c", "d"]);
    q.jump_to(1);
    q.move_item(3, 0);
    assert_eq!(ids(q.tracks()), ["d", "a", "b", "c"]);
    assert_eq!(q.current().map(|t| t.title), Some("b".to_owned()));
    q.move_item(2, 3);
    assert_eq!(q.current_index(), Some(3));
    q.move_item(9, 0);
    assert_eq!(ids(q.tracks()), ["d", "a", "c", "b"]);
}

#[test]
fn shuffling_keeps_every_track_and_what_plays() {
    let mut q = queued(&["a", "b", "c", "d", "e"]);
    q.jump_to(2);
    q.set_shuffle(true, &vec![3, 1, 4, 1, 5, 9, 2, 6]);
    assert_eq!(q.current().map(|t| t.title), Some("c".to_owned()));
    let mut all = ids(q.tracks());
    all.sort();
    assert_eq!(all, ["a", "b", "c", "d", "e"]);
}

#[test]
fn removing_another_entry_keeps_what_plays() {
    let mut q = queued(&["a", "b", "c"]);
    q.jump_to(1);
    q.remove(0);
    assert_eq!(q.current().map(|t| t.title), Some("b".to_owned()));
    q.remove(1);
    assert_eq!(q.current().map(|t| t.title), Some("b".to_owned()));
    assert_eq!(ids(q.tracks()), ["b"]);
}

#[test]
fn a_queue_is_walked_by_its_repeat_mode() {
    let mut q = queued(&["a", "b"]);
    assert_eq!(q.advance().map(|t| t.title), Some("b".to_owned()));
    assert!(q.advance().is_none(), "it ran out");
    let mut q = queued(&["a", "b"]);
    q.set_repeat(RepeatMode::All);
    q.advance();
    assert_eq!(q.advance().map(|t| t.title), Some("a".to_owned()));
    assert_eq!(RepeatMode::Off.next().next().next(), RepeatMode::Off);
}

#[test]
fn volumes_and_seeks_stay_in_range() {
    assert_eq!(clamp_volume(-5), 0);
    assert_eq!(clamp_volume(101), 100);
    assert_eq!(clamp_volume(42), 42);
    assert_eq!(apply_seek(10, -30, 100), 0);
    assert_eq!(apply_seek(90, 30, 100), 100);
    assert_eq!(apply_seek(40, 5, 100), 45);
}

#[test]
fn a_volume_from_the_desktop_is_clamped() {
    assert_eq!(to_command(MediaKey::SetVolume(250)), Some(PlayerCommand::SetVolume(100)));
    assert_eq!(to_command(MediaKey::SetVolume(-1)), Some(PlayerCommand::SetVolume(0)));
    assert_eq!(to_command(MediaKey::Other), None);
}

#[test]
fn a_picture_is_asked_for_once() {
    let mut art = ArtCache::new(true);
    assert!(art.should_fetch("u"));
    assert!(!art.should_fetch("u"));
    art.mark_failed("v");
    assert!(!art.should_fetch("v"), "what failed is not tried again");
    let mut s = AppState::default();
    s.now_playing = Some(Track { thumbnail_url: Some("w".to_owned()), ..track("a") });
    assert_eq!(art_tick(&mut art, &s), Some("w".to_owned()));
    assert_eq!(art_tick(&mut art, &s), None);
    assert!(art.is_enabled() && !ArtCache::disabled().is_enabled());
}

#[test]
fn a_download_is_shown_as_the_track_it_was() {
    let mut t = track("a");
    t.artists = vec!["x".to_owned(), "y".to_owned()];
    t.duration = TrackDuration::from_secs(61);
    t.set_video_id = Some(SetVideoId::from("sv"));
    let (work, ev) = download_saved(t.clone(), "/d/a.opus".to_owned(), 7, 99);
    assert_eq!(ev, AppEvent::DownloadedTrackSaved(t.clone()));
    let mut c = Cache::open_in_memory();
    work.run(&mut c);
    let kept = c.get_downloaded_tracks();
    assert_eq!((kept[0].file_size_bytes, kept[0].downloaded_at), (7, 99));
    assert_eq!(kept[0].to_track(), Track { set_video_id: None, ..t });
    assert!(c.is_track_downloaded(&VideoId::from("a")));
    c.remove_downloaded_track(&VideoId::from("a"));
    assert!(!c.is_track_downloaded(&VideoId::from("a")));
}

#[test]
fn a_download_that_failed_names_the_track() {
    assert_eq!(
        download_failed(&track("Song"), "no space"),
        AppEvent::Error("Download failed for \"Song\": no space".to_owned())
    );
}

#[test]
fn what_was_kept_is_read_back() {
    let mut c = Cache::open_in_memory();
    c.save_playlist_tracks(&PlaylistId::from("p"), &tracks(&["a"]));
    c.save_playlist_tracks(&PlaylistId::from("q"), &tracks(&["b", "c"]));
    c.save_playlist_tracks(&PlaylistId::from("p"), &tracks(&["d"]));
    assert_eq!(ids(&c.load_playlist_tracks(&PlaylistId::from("p"))), ["d"]);
    assert_eq!(ids(&c.load_playlist_tracks(&PlaylistId::from("q"))), ["b", "c"]);
    assert!(c.load_playlist_tracks(&PlaylistId::from("r")).is_empty());
    c.clear();
    assert!(c.load_playlist_tracks(&PlaylistId::from("q")).is_empty());
}

#[test]
fn an_answer_without_rows_is_not_kept() {
    assert!(cache_work(&AppEvent::PlaylistsLoaded(vec![])).is_none());
    assert!(cache_work(&AppEvent::LibrarySongsLoaded(vec![])).is_none());
    let work = cache_work(&AppEvent::LibrarySongsLoaded(tracks(&["a"])));
    assert!(matches!(work, Some(CacheWork::LibrarySongs(_))));
}

#[test]
fn what_is_done_to_marked_rows_follows_the_list() {
    let mut marked = MarkSet::new();
    for id in ["c", "a"] {
        assert!(marked.insert(VideoId::from(id)));
    }
    assert!(!marked.insert(VideoId::from("a")), "a mark is set once");
    assert_eq!(ids(&choose_marked(&tracks(&["a", "b", "c"]), &marked)), ["a", "c"]);
    assert!(marked.remove(&VideoId::from("a")));
    assert_eq!(marked.len(), 1);
}

#[test]
fn a_single_click_never_starts_anything() {
    let area = Rect::new(0, 0, 100, 30);
    let mut s = AppState::default();
    s.pane = Pane::Songs;
    s.tracks = tracks(&["a", "b", "c"]);
    let mut player = CommandLog::new();
    let top = ytm::render::list_top_for(
        s.search_row_visible(),
        s.filter_row_visible(),
        s.column_header_visible(),
    );
    handle_click(40, top + 1, area, &mut s, &mut player);
    assert_eq!(s.selected, 1);
    assert!(player.commands().is_empty());
}

#[test]
fn two_clicks_on_a_row_play_it() {
    let area = Rect::new(0, 0, 100, 30);
    let mut s = AppState::default();
    s.pane = Pane::Songs;
    s.tracks = tracks(&["a", "b"]);
    let mut player = CommandLog::new();
    let top = ytm::render::list_top_for(
        s.search_row_visible(),
        s.filter_row_visible(),
        s.column_header_visible(),
    );
    let (_, last) = left_click(40, top + 1, area, &mut s, &mut player, &steps(), None);
    let (_, last) = left_click(40, top + 1, area, &mut s, &mut player, &steps(), last);
    assert!(last.is_none());
    assert!(!player.commands().is_empty());
}

#[test]
fn an_overlay_takes_clicks_and_keys() {
    let mut s = AppState::default();
    s.modal = Some(Modal::Help);
    let mut player = CommandLog::new();
    let before = s.selected;
    let (task, last) =
        left_click_on(ClickTarget::Row(0), 80, &mut s, &mut player, &steps(), Some((0, 0)));
    assert!(task.is_none());
    assert_eq!(last, Some((0, 0)));
    right_click_on(ClickTarget::Row(0), 80, &mut s, &mut player);
    dispatch_input(InputAction::NextTrack, &mut s, &mut player, &steps());
    assert_eq!(s.selected, before);
    assert!(player.commands().is_empty());
}

#[test]
fn a_guest_who_edits_is_told_and_nothing_else() {
    let mut s = AppState::default();
    s.guest = true;
    s.pane = Pane::Playlists;
    let mut player = CommandLog::new();
    let task = dispatch_input(InputAction::CreatePlaylist, &mut s, &mut player, &steps());
    assert!(task.is_none());
    assert!(s.modal.is_none());
    assert_eq!(s.toasts.len(), 1);
    assert!(player.commands().is_empty());
}

#[test]
fn a_guest_is_moved_off_a_library_pane() {
    let mut s = AppState::default();
    s.pane = Pane::Playlists;
    s.playlists = vec![Playlist::stub("p", "P")];
    source_ready(&mut s, false);
    assert!(s.guest);
    assert_eq!(s.pane, Pane::Search);
    assert!(s.playlists.is_empty());
    assert_eq!(s.toasts[0].text, GUEST_NOTICE);
    source_ready(&mut s, true);
    assert!(!s.guest);
}

#[test]
fn marked_entries_leave_the_queue_and_no_others() {
    let mut s = AppState::default();
    s.pane = Pane::Queue;
    s.focus = Focus::Main;
    s.queue = tracks(&["a", "b", "c", "d"]);
    s.marked.insert(VideoId::from("b"));
    s.marked.insert(VideoId::from("d"));
    let mut player = CommandLog::new();
    dispatch_input(InputAction::RemoveFromPlaylist, &mut s, &mut player, &steps());
    let mut q = queued(&["a", "b", "c", "d"]);
    for cmd in player.take() {
        match cmd {
            PlayerCommand::RemoveFromQueue(i) => q.remove(i),
            other => panic!("unexpected {other:?}"),
        }
    }
    assert_eq!(ids(q.tracks()), ["a", "c"]);
}

#[test]
fn a_marked_block_moves_together() {
    let mut s = AppState::default();
    s.pane = Pane::Queue;
    s.focus = Focus::Main;
    s.queue = tracks(&["a", "b", "c", "d"]);
    s.marked.insert(VideoId::from("a"));
    s.marked.insert(VideoId::from("b"));
    let mut player = CommandLog::new();
    dispatch_input(InputAction::MoveEntryDown, &mut s, &mut player, &steps());
    let mut q = queued(&["a", "b", "c", "d"]);
    for cmd in player.take() {
        match cmd {
            PlayerCommand::MoveInQueue { from, to } => q.move_item(from, to),
            other => panic!("unexpected {other:?}"),
        }
    }
    assert_eq!(ids(q.tracks()), ["c", "a", "b", "d"]);
}

#[test]
fn a_refused_edit_leaves_no_trace() {
    let mut s = AppState::default();
    s.playlists = vec![Playlist::stub("p", "Old"), Playlist::stub("q", "Q")];
    let before = s.playlists.clone();
    let token = s.begin_mutation(Mutation::RenamePlaylist {
        id: PlaylistId::from("p"),
        previous: "Old".to_owned(),
        next: "New".to_owned(),
    });
    assert_eq!(s.playlists[0].title, "New");
    s.apply(AppEvent::MutationFailed { token, message: "no".to_owned() });
    assert_eq!(s.playlists, before);
    assert!(s.pending.is_empty());

    let token = s.begin_mutation(Mutation::DeletePlaylist {
        id: PlaylistId::from("p"),
        index: 0,
        snapshot: before[0].clone(),
    });
    assert_eq!(s.playlists.len(), 1);
    s.apply(AppEvent::MutationFailed { token, message: "no".to_owned() });
    assert_eq!(s.playlists, before);
}

#[test]
fn tracks_taken_out_are_put_back_where_they_were() {
    let mut s = AppState::default();
    s.tracks = tracks(&["a", "b", "c", "d"]);
    let before = s.tracks.clone();
    let token = s.begin_mutation(Mutation::RemoveTracks {
        playlist: PlaylistId::from("p"),
        removed: vec![(1, track("b")), (3, track("d"))],
    });
    assert_eq!(ids(&s.tracks), ["a", "c"]);
    s.apply(AppEvent::MutationFailed { token, message: "no".to_owned() });
    assert_eq!(s.tracks, before);
}

#[test]
fn a_new_playlist_gets_its_real_id() {
    let mut s = AppState::default();
    let token = s.begin_mutation(Mutation::CreatePlaylist { temp: Playlist::stub("tmp", "N") });
    assert_eq!(s.playlists[0].id, PlaylistId::from("tmp"));
    s.apply(AppEvent::MutationOk {
        token,
        real_id: Some(PlaylistId::from("real")),
        message: "playlist created".to_owned(),
    });
    assert_eq!(s.playlists[0].id, PlaylistId::from("real"));
}

#[test]
fn ctrl_c_quits_whatever_has_the_focus() {
    let km = KeyMap::new(true);
    for focus in [Focus::Sidebar, Focus::Main, Focus::SearchInput] {
        for pending in [Pending::Nothing, Pending::Z] {
            let got = km.resolve_chord(KeyEvent::ctrl(KeyCode::Char('c')), focus, pending);
            assert_eq!(got, (Some(InputAction::ForceQuit), Pending::Nothing));
        }
    }
}

#[test]
fn every_accepted_name_is_an_action_and_no_other_is() {
    for name in KeyMap::action_names() {
        assert!(action_from_name(name).is_some(), "{name}");
    }
    assert_eq!(action_from_name("no_such_action"), None);
}

#[test]
fn a_rebound_action_has_one_key() {
    let mut km = KeyMap::new(true);
    km.rebind('Z', InputAction::Quit);
    assert_eq!(km.get('Z'), Some(InputAction::Quit));
    assert_eq!(km.get('q'), None);
    let keys = km.bindings();
    assert_eq!(keys.iter().filter(|(_, a)| *a == InputAction::Quit).count(), 1);
}

#[test]
fn the_overlay_names_the_key_an_action_has_now() {
    let mut km = KeyMap::new(true);
    km.rebind('Z', InputAction::Quit);
    let rows = ytm::help::rows(&km);
    assert!(rows.contains(&("Z".to_owned(), "quit")));
    assert!(!rows.contains(&("q".to_owned(), "quit")));
}

#[test]
fn every_source_has_a_row_and_a_number() {
    for i in 0..PANE_ORDER.len() {
        let rows: Vec<usize> = (0..40).filter(|r| source_at_row(*r) == Some(i)).collect();
        assert_eq!(rows.len(), 1, "source {i}");
    }
}

#[test]
fn what_was_found_is_good_for_its_time() {
    let mut r = StreamResolver::new();
    let (a, b) = (VideoId::from("a"), VideoId::from("b"));
    r.remember(&a, "ua", 10);
    r.remember(&b, "ub", 10);
    r.remember(&a, "newer", 20);
    assert_eq!(r.cached_at(&a, 20 + TTL_SECS - 1), Some("newer".to_owned()));
    assert_eq!(r.cached_at(&a, 20 + TTL_SECS), None);
    r.invalidate(&a);
    assert_eq!(r.cached_at(&a, 21), None);
    assert_eq!(r.cached_at(&b, 21), Some("ub".to_owned()));
}

#[test]
fn what_the_resolver_printed_becomes_an_address_or_an_error() {
    assert_eq!(stream_outcome(true, "\nhttps://x/y\n", ""), Ok("https://x/y".to_owned()));
    assert_eq!(stream_outcome(true, "  \n", ""), Err(ResolveError::NoAudioStream));
    assert_eq!(
        stream_outcome(false, "", "first\nERROR: last"),
        Err(ResolveError::Failed("ERROR: last".to_owned()))
    );
    assert_eq!(ResolveError::Failed("x".to_owned()).message(), "yt-dlp failed: x");
    assert_eq!(
        ResolveError::NoAudioStream.message(),
        "yt-dlp could not find an audio stream for this track"
    );
    assert_eq!(
        ResolveError::NotInstalled.message(),
        "yt-dlp is not installed or not on PATH \u{2014} install it to play audio"
    );
    assert_eq!(last_line_of("", "unknown error"), "unknown error");
}

#[test]
fn the_cookies_are_handed_to_the_resolver() {
    let id = VideoId::from("abc");
    let with = stream_args(&id, Some("/jar"));
    let at = with.iter().position(|a| a == "--cookies").expect("the jar is named");
    assert_eq!(with[at + 1], "/jar");
    assert!(!stream_args(&id, None).contains(&"--cookies".to_owned()));
    assert!(fetch_args(&id, "/t.opus", None).contains(&"/t.opus".to_owned()));
    assert_eq!(fetch_outcome(true, "", "/t.opus"), Ok("/t.opus".to_owned()));
    assert!(fetch_outcome(false, "ERROR: x", "/t.opus").is_err());
}

#[test]
fn a_query_is_searched_for_once_the_typing_stops() {
    let mut d = SearchDebounce::new(300);
    d.note_input("a", 0);
    d.note_input("ab", 200);
    assert_eq!(d.should_fire(499), None);
    assert_eq!(d.should_fire(500), Some("ab".to_owned()));
    assert_eq!(d.should_fire(900), None);
    d.note_input("  ", 1000);
    assert_eq!(d.should_fire(2000), None);
}

#[test]
fn a_full_cache_is_brought_below_nine_tenths() {
    let s = AudioStorageManager::new("/d".to_owned(), "/c".to_owned(), 1);
    let used = |at| CachedFile { accessed: Some(at), modified: Some(5), size: 400 };
    let files = vec![used(30), used(10), used(20)];
    let mut e = s.prune_lru(&files, 1000);
    let mut gone = Vec::new();
    while let Some(i) = e.next() {
        gone.push(i);
        e.settle(true);
    }
    assert_eq!(gone, [1], "1200 bytes less the oldest 400 is below 900");
    assert_eq!(s.prune_lru(&files, 1200).next(), None, "it is not over the limit");
    let mut stuck = s.prune_lru(&files, 1000);
    assert_eq!(stuck.next(), Some(1));
    stuck.settle(false);
    assert_eq!(stuck.next(), Some(2), "what cannot be deleted makes no room");
    assert_eq!(stuck.pruned(), 0);
}

#[test]
fn a_file_is_as_old_as_its_last_use() {
    let s = AudioStorageManager::new("/d".to_owned(), "/c".to_owned(), 1);
    let read_late = CachedFile { accessed: Some(90), modified: Some(10), size: 600 };
    let written_late = CachedFile { accessed: Some(20), modified: Some(50), size: 600 };
    let never_read = CachedFile { accessed: None, modified: Some(40), size: 600 };
    let unknown = CachedFile { accessed: None, modified: None, size: 600 };
    assert_eq!(read_late.last_used(), 90);
    assert_eq!(written_late.last_used(), 50);
    assert_eq!(never_read.last_used(), 40);
    assert_eq!(unknown.last_used(), 0);
    let mut e = s.prune_lru(&vec![read_late, written_late, never_read, unknown], 1200);
    let mut gone = Vec::new();
    while let Some(i) = e.next() {
        gone.push(i);
        e.settle(true);
    }
    assert_eq!(gone, [3, 2, 1], "what was read last stays, though it is the oldest");
}

#[test]
fn a_download_is_found_under_any_ending() {
    let s = AudioStorageManager::new("/d".to_owned(), "/c".to_owned(), 1).with_prefetch_count(4);
    assert_eq!(s.prefetch_count(), 4);
    let id = VideoId::from("x");
    assert_eq!(
        s.download_names(&id),
        ["/d/x.opus", "/d/x.webm", "/d/x.m4a", "/d/x.mp3", "/d/x"]
    );
    let files = vec!["/c/x.opus".to_owned(), "/d/x.mp3".to_owned()];
    assert_eq!(s.find_local_audio(&id, &files), Some("/d/x.mp3".to_owned()));
    assert_eq!(s.cache_path(&id), "/c/x.opus");
}

#[test]
fn the_window_keeps_the_selected_row() {
    assert_eq!(visible_window(0, 0, 5, 20), (0, 5));
    assert_eq!(visible_window(7, 4, 5, 20), (4, 9), "it stays while it can");
    assert_eq!(visible_window(9, 4, 5, 20), (5, 10));
    assert_eq!(visible_window(19, 0, 5, 20), (15, 20));
    assert_eq!(visible_window(0, 0, 0, 20), (0, 0));
}

#[test]
fn the_themes_are_a_ring() {
    let mut name = "tokyonight";
    let mut seen = vec![name];
    for _ in 0..5 {
        name = Theme::next_preset_with_custom(name, false);
        seen.push(name);
    }
    assert_eq!(seen, ["tokyonight", "gruvbox", "nord", "dracula", "dawn", "paper"]);
    assert_eq!(Theme::next_preset_with_custom(name, false), "tokyonight");
    assert_eq!(Theme::next_preset_with_custom(name, true), "custom");
    assert_eq!(Theme::next_preset_with_custom("custom", true), "tokyonight");
}

#[test]
fn a_custom_theme_is_part_of_the_cycle() {
    let custom = Theme::from_toml_str("preset = \"nord\"\naccent = \"#010203\"").expect("a theme");
    let mut themes = ThemeState {
        theme: Theme::preset("paper").expect("built in"),
        name: "paper".to_owned(),
        custom: Some(custom),
    };
    let mut s = AppState::default();
    cycle_theme(&mut themes, &mut s);
    assert_eq!(themes.name, "custom");
    assert_eq!(themes.theme, custom);
}

#[test]
fn a_task_waits_for_the_source() {
    let mut s = AppState::default();
    let got = try_spawn(Task::LoadSongs, false, &mut s, None, true);
    assert_eq!(got, Spawn::Nothing);
    assert_eq!(s.toasts[0].text, "still connecting\u{2026}");
    let got = try_spawn(Task::LoadSongs, true, &mut s, None, true);
    assert_eq!(got, Spawn::Ask(Task::LoadSongs));
    let mut s = AppState::default();
    let got = try_spawn(Task::Download(tracks(&["a"])), true, &mut s, None, false);
    assert_eq!(got, Spawn::Nothing);
    assert_eq!(s.toasts[0].text, "Download failed: storage not configured");
}

#[test]
fn an_index_that_cannot_be_read_lists_nothing() {
    let mut s = AppState::default();
    s.loading = true;
    let got = list_downloads(Some(Ok(vec![])), &mut s);
    assert_eq!(got, Spawn::Event(AppEvent::DownloadedTracksLoaded(vec![])));
    assert!(s.loading, "the answer ends the wait");
    assert_eq!(list_downloads(Some(Err("locked".to_owned())), &mut s), Spawn::Nothing);
    assert!(!s.loading);
    s.loading = true;
    assert_eq!(list_downloads(None, &mut s), Spawn::Nothing);
    assert!(!s.loading);
}

#[test]
fn a_list_that_was_queued_says_how_long_it_is() {
    assert_eq!(list_queued_message("Mix", 1, true), "playing next: Mix (1 track)");
    assert_eq!(list_queued_message("Mix", 12, false), "added to queue: Mix (12 tracks)");
    assert_eq!(
        album_fetched("Disc", false, Ok(vec![])),
        AppEvent::Error("album \"Disc\" is empty".to_owned())
    );
    assert_eq!(
        album_fetched("Disc", false, Err(SourceError::RateLimited)),
        AppEvent::Error(
            "could not load album: too many requests, try again in a moment".to_owned()
        )
    );
}

#[test]
fn an_edit_reports_under_its_token() {
    let task = MutationTask::Delete { id: PlaylistId::from("p") };
    assert_eq!(
        mutation_event(7, &task, Reply::Done),
        Some(AppEvent::MutationOk {
            token: 7,
            real_id: None,
            message: "playlist deleted".to_owned()
        })
    );
    assert_eq!(
        mutation_event(7, &task, Reply::Failed(SourceError::NotFound("p".to_owned()))),
        Some(AppEvent::MutationFailed { token: 7, message: "not found: p".to_owned() })
    );
    assert_eq!(
        mutation_event(1, &task, Reply::Failed(SourceError::AlreadyInPlaylist)),
        Some(AppEvent::MutationFailed { token: 1, message: "already in playlist".to_owned() })
    );
}

#[test]
fn only_a_new_playlist_has_a_new_id() {
    let id = PlaylistId::from("real");
    let create = MutationTask::Create {
        title: "N".to_owned(),
        description: None,
        privacy: Privacy::Private,
    };
    let delete = MutationTask::Delete { id: PlaylistId::from("p") };
    assert!(matches!(
        mutation_event(2, &create, Reply::Created(id.clone())),
        Some(AppEvent::MutationOk { token: 2, real_id: Some(i), .. }) if i == id
    ));
    assert_eq!(mutation_event(2, &create, Reply::Done), None);
    assert_eq!(mutation_event(2, &delete, Reply::Created(id)), None);
    assert_eq!(settle(Task::Mutate { token: 2, task: delete }, Reply::Tracks(vec![])), None);
}

#[test]
fn a_task_asks_for_exactly_what_it_is_about() {
    let p = || PlaylistId::from("p");
    let mutate = |task| Task::Mutate { token: 1, task };
    let videos = vec![VideoId::from("b"), VideoId::from("a"), VideoId::from("b")];
    let entries = vec![SetVideoId::from("s2"), SetVideoId::from("s1")];
    assert_eq!(
        request_of(&mutate(MutationTask::AddTracks { id: p(), videos: videos.clone() })),
        Some(Request::AddTracks { id: p(), videos })
    );
    assert_eq!(
        request_of(&mutate(MutationTask::RemoveTracks { id: p(), entries: entries.clone() })),
        Some(Request::RemoveTracks { id: p(), entries })
    );
    assert_eq!(
        request_of(&mutate(MutationTask::Rename { id: p(), title: "New".to_owned() })),
        Some(Request::EditPlaylist {
            id: p(),
            title: Some("New".to_owned()),
            description: None,
            privacy: None,
        })
    );
    assert_eq!(
        request_of(&mutate(MutationTask::Delete { id: p() })),
        Some(Request::DeletePlaylist(p()))
    );
    assert_eq!(
        request_of(&mutate(MutationTask::Create {
            title: "N".to_owned(),
            description: Some("d".to_owned()),
            privacy: Privacy::Unlisted,
        })),
        Some(Request::CreatePlaylist {
            title: "N".to_owned(),
            description: Some("d".to_owned()),
            privacy: Privacy::Unlisted,
        })
    );
    assert_eq!(request_of(&Task::LoadHome), Some(Request::HomeShelves));
    assert_eq!(request_of(&Task::LoadPlaylists), Some(Request::LibraryPlaylists));
    assert_eq!(request_of(&Task::LoadSongs), Some(Request::LibrarySongs));
    assert_eq!(request_of(&Task::LoadAlbums), Some(Request::LibraryAlbums));
    assert_eq!(request_of(&Task::LoadArtists), Some(Request::LibraryArtists));
    assert_eq!(request_of(&Task::OpenPlaylist(p())), Some(Request::PlaylistTracks(p())));
    let artist = ArtistId::from("a");
    assert_eq!(
        request_of(&Task::OpenArtist { id: artist.clone(), name: "A".to_owned() }),
        Some(Request::ArtistTracks(artist))
    );
    let album = AlbumId::from("d");
    assert_eq!(
        request_of(&Task::OpenAlbum { id: album.clone(), name: "D".to_owned() }),
        Some(Request::AlbumTracks(album))
    );
    let q = || "q".to_owned();
    assert_eq!(request_of(&Task::Search(q())), Some(Request::SearchSongs(q())));
    assert_eq!(request_of(&Task::SearchArtists(q())), Some(Request::SearchArtists(q())));
    for task in [
        Task::LoadDownloads,
        Task::Download(tracks(&["a"])),
        Task::DeleteDownloads(tracks(&["a"])),
        Task::EnqueuePlaylist { id: p(), title: q(), play_next: false },
    ] {
        assert_eq!(request_of(&task), None);
    }
}

#[test]
fn a_list_that_is_queued_is_asked_for_by_its_id() {
    let p = PlaylistId::from("p");
    let d = AlbumId::from("d");
    let title = "T".to_owned();
    let list = Spawn::FetchPlaylist { id: p.clone(), title: title.clone(), play_next: false };
    assert_eq!(list.request(), Some(Request::PlaylistTracks(p)));
    let disc = Spawn::FetchAlbum { id: d.clone(), title, play_next: true };
    assert_eq!(disc.request(), Some(Request::AlbumTracks(d)));
    assert_eq!(Spawn::Ask(Task::LoadSongs).request(), Some(Request::LibrarySongs));
    assert_eq!(Spawn::Nothing.request(), None);
    assert_eq!(Spawn::Download(tracks(&["a"])).request(), None);
}

#[test]
fn the_source_is_asked_once_for_the_whole_change() {
    let mut source = MockSource::new();
    let videos = vec![VideoId::from("b"), VideoId::from("a")];
    let id = PlaylistId::from("p");
    let ev = run_mutation(
        4,
        MutationTask::AddTracks { id: id.clone(), videos: videos.clone() },
        &mut source,
    );
    assert_eq!(
        ev,
        AppEvent::MutationOk {
            token: 4,
            real_id: None,
            message: "added to playlist".to_owned()
        }
    );
    assert_eq!(source.requests(), [Request::AddTracks { id: id.clone(), videos }]);
    assert_eq!(source.calls(), ["add_tracks(p,2)"]);
    let entries = vec![SetVideoId::from("s")];
    let task = MutationTask::RemoveTracks { id: id.clone(), entries: entries.clone() };
    spawn_task(Task::Mutate { token: 5, task }, &mut source);
    assert_eq!(source.requests().len(), 2);
    assert_eq!(source.requests()[1], Request::RemoveTracks { id, entries });
}

#[test]
fn a_source_serves_every_kind_of_request() {
    let mut m = MockSource::new()
        .with_playlists(vec![Playlist::stub("p", "P")])
        .with_tracks(tracks(&["a"]));
    let p = PlaylistId::from("p");
    let q = "A".to_owned();
    assert!(matches!(m.serve(&Request::HomeShelves), Reply::Shelves(_)));
    assert!(matches!(m.serve(&Request::RecommendedAlbums), Reply::Albums(_)));
    assert!(matches!(m.serve(&Request::SearchAlbums(q.clone())), Reply::Albums(_)));
    assert!(matches!(m.serve(&Request::LibraryArtists), Reply::Artists(_)));
    assert!(matches!(m.serve(&Request::SearchPlaylists(q.clone())), Reply::Playlists(_)));
    assert_eq!(m.serve(&Request::SearchSongs(q)), Reply::Tracks(tracks(&["a"])));
    assert_eq!(
        m.serve(&Request::PlaylistDetails(p.clone())),
        Reply::Details(Playlist::stub("p", "P"))
    );
    let privacy = Some(Privacy::Public);
    let edit = Request::EditPlaylist { id: p.clone(), title: None, description: None, privacy };
    assert_eq!(m.serve(&edit), Reply::Done);
    match m.serve(&Request::PlaylistDetails(p.clone())) {
        Reply::Details(d) => {
            assert_eq!(d.privacy, Privacy::Public);
            assert_eq!(d.title, "P", "what is not given stays");
        }
        other => panic!("unexpected {other:?}"),
    }
    assert_eq!(m.serve(&Request::DeletePlaylist(p.clone())), Reply::Done);
    assert_eq!(
        m.serve(&Request::PlaylistDetails(p)),
        Reply::Failed(SourceError::NotFound("p".to_owned()))
    );
}

#[test]
fn what_is_on_disk_is_played_without_the_network() {
    let mut r = StreamResolver::new();
    let id = VideoId::from("v");
    let path = || Some("/d/v.opus".to_owned());
    assert_eq!(r.locate(&id, path(), 0), Whence::File("/d/v.opus".to_owned()));
    r.use_cookie_header_file("/jar", Some("# Netscape HTTP Cookie File\n"), "/made");
    let args = stream_args(&id, Some("/jar"));
    assert_eq!(r.locate(&id, None, 100), Whence::Fetch(args.clone()));
    assert_eq!(r.resolve(&id, 100), Whence::Fetch(args.clone()));
    let before = r.clone();
    assert_eq!(
        r.fetched(&id, 100, Err(ResolveError::NoAudioStream)),
        Err("yt-dlp could not find an audio stream for this track".to_owned())
    );
    assert_eq!(r, before, "what was not found is not remembered");
    assert_eq!(r.fetched(&id, 100, Ok("http://u".to_owned())), Ok("http://u".to_owned()));
    assert_eq!(r.locate(&id, None, 101), Whence::Url("http://u".to_owned()));
    assert_eq!(r.locate(&id, path(), 101), Whence::File("/d/v.opus".to_owned()));
    assert_eq!(r.locate(&id, None, 100 + TTL_SECS), Whence::Fetch(args));
}

#[test]
fn a_track_is_announced_and_then_loaded() {
    let mut core = ActorCore::new(50);
    let acts = core.handle(PlayerCommand::PlayNow(track("a")), &vec![]);
    let announced = acts
        .iter()
        .position(|a| matches!(a, Act::Emit(PlayerEvent::TrackChanged(Some(_)))))
        .expect("announced");
    let loaded = acts.iter().position(|a| matches!(a, Act::Load(_))).expect("loaded");
    assert!(announced < loaded);
    let acts = core.load_done(Err("mpv: no".to_owned()));
    assert_eq!(acts[0], Act::Emit(PlayerEvent::Error("mpv: no".to_owned())));
    assert_eq!(core.state(), PlaybackState::Stopped);
}

#[test]
fn any_step_of_the_volume_ends_at_the_ends() {
    for step in [1, 100, i64::MAX - 254, i64::MAX] {
        let b = BehaviourConfig { volume_step: step, ..steps() };
        let mut s = AppState { volume: 50, ..Default::default() };
        let mut player = CommandLog::new();
        let up = if step == 1 { 51 } else { 100 };
        dispatch_input(InputAction::VolumeUp, &mut s, &mut player, &b);
        assert_eq!(s.volume, up);
        s.volume = 50;
        let down = if step == 1 { 49 } else { 0 };
        dispatch_input(InputAction::VolumeDown, &mut s, &mut player, &b);
        assert_eq!(s.volume, down);
        assert_eq!(
            player.take(),
            [PlayerCommand::SetVolume(up), PlayerCommand::SetVolume(down)]
        );
    }
}

#[test]
fn what_cannot_be_read_leaves_its_list_alone() {
    let why = || "disk".to_owned();
    let filled = || AppState {
        playlists: vec![Playlist::stub("old", "Old")],
        tracks: tracks(&["old"]),
        downloaded_tracks: tracks(&["old"]),
        ..Default::default()
    };
    let mut s = filled();
    preload_from_cache(Err(why()), Ok(tracks(&["new"])), Err(why()), &mut s);
    assert_eq!(s, AppState { tracks: tracks(&["new"]), ..filled() });
    let mut s = filled();
    preload_from_cache(Ok(vec![Playlist::stub("p", "P")]), Err(why()), Ok(vec![]), &mut s);
    assert_eq!(
        s,
        AppState {
            playlists: vec![Playlist::stub("p", "P")],
            downloaded_tracks: vec![],
            ..filled()
        }
    );
    let mut s = filled();
    preload_playlist_tracks(Err(why()), &mut s, &PlaylistId::from("p"));
    assert_eq!(s, filled());
}

#[test]
fn what_cannot_be_read_is_fetched() {
    let id = || PlaylistId::from("p");
    let broken = || Kept::Tracks(Err("disk".to_owned()));
    let enqueue = || Task::EnqueuePlaylist { id: id(), title: "P".to_owned(), play_next: true };
    let mut s = AppState::default();
    assert_eq!(
        start(enqueue(), true, &mut s, broken(), true),
        Spawn::FetchPlaylist { id: id(), title: "P".to_owned(), play_next: true }
    );
    let mut s = AppState { tracks: tracks(&["old"]), ..Default::default() };
    let got = start(Task::OpenPlaylist(id()), true, &mut s, broken(), true);
    assert_eq!(got, Spawn::Ask(Task::OpenPlaylist(id())));
    assert_eq!(ids(&s.tracks), ["old"]);
    assert_eq!(s.open_playlist, None);
    let mut s = AppState { loading: true, ..Default::default() };
    let unread = Kept::Downloads(Err("disk".to_owned()));
    assert_eq!(start(Task::LoadDownloads, true, &mut s, unread, true), Spawn::Nothing);
    assert!(!s.loading);
}

#[test]
fn the_help_lists_the_key_that_edits_the_settings() {
    let row = |k: &str, d: &'static str| (k.to_owned(), d);
    let rows = ytm::help::rows(&KeyMap::from_toml_str("edit_config = \"E\"").expect("keys"));
    assert!(rows.contains(&row("E", "edit config")));
    assert!(!rows.iter().any(|(k, _)| k == ","), "a key that is not bound is not listed");
    let rows = ytm::help::rows(&KeyMap::new(true));
    assert_eq!(rows.iter().filter(|r| **r == row(",", "edit config")).count(), 1);
}

#[test]
fn rows_go_back_only_into_the_list_they_were_taken_from() {
    let mut s = AppState { open_playlist: Some(PlaylistId::from("p")), ..Default::default() };
    s.tracks = tracks(&["a", "b", "c"]);
    let token = s.begin_mutation(Mutation::RemoveTracks {
        playlist: PlaylistId::from("p"),
        removed: vec![(1, track("b"))],
    });
    s.open_playlist = Some(PlaylistId::from("q"));
    s.tracks = tracks(&["x"]);
    s.rollback(token);
    assert_eq!(ids(&s.tracks), ["x"]);
    assert!(s.pending.is_empty());
}

#[test]
fn a_removal_goes_by_the_entry_and_can_be_undone() {
    let entry = |id: &str, sv: Option<&str>| Track {
        set_video_id: sv.map(SetVideoId::from),
        ..track(id)
    };
    let before = vec![
        entry("a", Some("s1")),
        entry("b", None),
        entry("a", Some("s2")),
        entry("c", Some("s3")),
    ];
    let mut s = AppState {
        tracks: before.clone(),
        modal: Some(Modal::Confirm {
            text: "?".to_owned(),
            action: ConfirmAction::RemoveTracks {
                playlist: PlaylistId::from("p"),
                entries: vec![SetVideoId::from("s3"), SetVideoId::from("s1")],
            },
        }),
        ..Default::default()
    };
    let (token, task) = confirm_action(&mut s).expect("an edit");
    assert_eq!(s.tracks, [before[1].clone(), before[2].clone()]);
    assert!(s.modal.is_none());
    assert!(matches!(task, MutationTask::RemoveTracks { entries, .. } if entries.len() == 2));
    s.rollback(token);
    assert_eq!(s.tracks, before);
}

#[test]
fn a_block_leaves_the_others_in_their_order() {
    let names = ["a", "b", "c", "d", "e", "f"];
    let mut s = AppState { pane: Pane::Queue, queue: tracks(&names), ..Default::default() };
    for id in ["b", "c", "e"] {
        s.marked.insert(VideoId::from(id));
    }
    let mut player = CommandLog::new();
    dispatch_input(InputAction::MoveEntryDown, &mut s, &mut player, &steps());
    let mut q = queued(&names);
    for cmd in player.take() {
        match cmd {
            PlayerCommand::MoveInQueue { from, to } => {
                q.move_item(from, to);
            }
            other => panic!("unexpected {other:?}"),
        }
    }
    assert_eq!(ids(q.tracks()), ["a", "d", "b", "c", "f", "e"]);
}

#[test]
fn an_answer_of_another_kind_means_nothing() {
    assert_eq!(settle(Task::LoadSongs, Reply::Albums(vec![])), None);
    assert_eq!(
        settle(Task::LoadSongs, Reply::Failed(SourceError::Other("x".to_owned()))),
        Some(AppEvent::Error("x".to_owned()))
    );
    let ev = settle(Task::LoadSongs, Reply::Tracks(tracks(&["a", "b"]))).expect("an event");
    assert_eq!(event_rows(&ev), 2);
    assert!(!event_name(&ev).is_empty());
}

#[test]
fn a_task_put_to_the_source_is_answered() {
    let mut source = MockSource::new().with_playlists(vec![Playlist::stub("p", "P")]);
    match spawn_task(Task::LoadPlaylists, &mut source) {
        Some(AppEvent::PlaylistsLoaded(v)) => assert_eq!(v.len(), 1),
        other => panic!("unexpected {other:?}"),
    }
    let create = Task::Mutate {
        token: 3,
        task: MutationTask::Create {
            title: "N".to_owned(),
            description: None,
            privacy: Privacy::Private,
        },
    };
    match spawn_task(create, &mut source) {
        Some(AppEvent::MutationOk { token: 3, real_id: Some(_), .. }) => {}
        other => panic!("unexpected {other:?}"),
    }
    source.fail_next(SourceError::RateLimited);
    assert!(matches!(
        spawn_task(Task::LoadPlaylists, &mut source),
        Some(AppEvent::Error(_))
    ));
    assert!(spawn_task(Task::LoadDownloads, &mut source).is_none());
}

#[test]
fn an_answer_to_an_old_query_is_dropped() {
    let mut s = AppState::default();
    s.search_query = "new".to_owned();
    let before = s.clone();
    s.apply(AppEvent::SearchResults { query: "old".to_owned(), tracks: tracks(&["a"]) });
    assert_eq!(s, before);
    s.apply(AppEvent::SearchResults { query: "new".to_owned(), tracks: tracks(&["a"]) });
    assert_eq!(ids(&s.search_results), ["a"]);
}

#[test]
fn a_key_shows_nothing_that_the_player_did_not_report() {
    for a in [
        InputAction::TogglePause,
        InputAction::NextTrack,
        InputAction::ClearQueue,
        InputAction::RemoveFromPlaylist,
        InputAction::MoveEntryDown,
        InputAction::Confirm,
    ] {
        let mut s = AppState::default();
        s.pane = Pane::Queue;
        s.focus = Focus::Main;
        s.queue = tracks(&["a", "b"]);
        s.queue_current = Some(0);
        s.playback = PlaybackState::Playing;
        let mut player = CommandLog::new();
        dispatch_input(a, &mut s, &mut player, &steps());
        assert!(!player.commands().is_empty(), "{a:?} is the player's");
        assert_eq!(ids(&s.queue), ["a", "b"]);
        assert_eq!((s.queue_current, s.playback), (Some(0), PlaybackState::Playing));
    }
}

#[test]
fn moving_about_sends_the_player_nothing() {
    for a in [InputAction::Down, InputAction::End, InputAction::Right, InputAction::GoTo(7)] {
        let mut s = AppState::default();
        s.pane = Pane::Songs;
        s.tracks = tracks(&["a", "b"]);
        let mut player = CommandLog::new();
        dispatch_input(a, &mut s, &mut player, &steps());
        assert!(player.commands().is_empty());
    }
}
