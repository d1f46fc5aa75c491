use ytm::app::{
    AppState, ConfirmAction, Focus, HomeRow, Modal, Pane, PromptAction, ToastKind,
};
use ytm::app_loop::dispatch_input;
use ytm::art::ArtCache;
use ytm::background::{
    art_tick, empty_library_hint, playlist_fetched, preload_from_cache, preload_playlist_tracks,
    source_ready, try_spawn, Spawn,
};
use ytm::cache::{cache_work, Cache, CacheWork};
use ytm::config::{reload_config, BehaviourConfig, Config, ReloadError, ReloadedConfig};
use ytm::config_file::EXAMPLE_TOML;
use ytm::edits::{
    confirm_action, open_add_to_playlist, open_delete_confirm, open_remove_confirm,
    open_rename_prompt, submit_prompt, targets_for_add,
};
use ytm::event::{AppEvent, InputAction};
use ytm::event_loop::{check_theme_file_update, note_search_input, search_tick};
use ytm::keymap::{KeyCode, KeyEvent, KeyMap};
use ytm::mock::{run_mutation, MockSource};
use ytm::model::{
    Album, Artist, ArtistId, DownloadedTrack, HomeItem, HomeTarget, Playlist, PlaylistId, Privacy,
    SetVideoId, SourceError, Track, VideoId,
};
use ytm::player::{CommandLog, PlayerCommand, RepeatMode};
use ytm::queue::Queue;
use ytm::search_state::SearchDebounce;
use ytm::tasks::{MutationTask, Task};
use ytm::theme::Color;

fn beh() -> BehaviourConfig {
    BehaviourConfig::default()
}

fn reloaded(text: &str) -> Result<ReloadedConfig, ReloadError> {
    reload_config(text, None, None, None)
}

#[test]
fn quit_is_immediate_when_confirm_on_quit_is_off() {
    let mut player = CommandLog::new();
    let mut s = AppState::default();
    let b = BehaviourConfig {
        confirm_on_quit: false,
        ..beh()
    };
    dispatch_input(InputAction::Quit, &mut s, &mut player, &b);
    assert!(s.should_quit, "q must still quit immediately by default");
    assert!(s.modal.is_none(), "and must not open a modal");
}

#[test]
fn quit_opens_a_confirm_when_configured() {
    let mut player = CommandLog::new();
    let mut s = AppState::default();
    let b = BehaviourConfig {
        confirm_on_quit: true,
        ..beh()
    };
    dispatch_input(InputAction::Quit, &mut s, &mut player, &b);
    assert!(!s.should_quit, "the confirm must not have quit yet");
    assert!(
        matches!(
            s.modal,
            Some(Modal::Confirm {
                action: ConfirmAction::Quit,
                ..
            })
        ),
        "expected a Quit confirm, got {:?}",
        s.modal
    );
}

#[test]
fn ctrl_c_bypasses_the_confirm_because_it_is_the_escape_hatch() {
    let mut player = CommandLog::new();
    let b = BehaviourConfig {
        confirm_on_quit: true,
        ..beh()
    };
    let mut s = AppState::default();
    dispatch_input(InputAction::ForceQuit, &mut s, &mut player, &b);
    assert!(s.should_quit, "Ctrl+C must quit even with confirm_on_quit");
    assert!(s.modal.is_none(), "and must not leave a modal behind");
}

#[test]
fn y_confirms_the_quit_and_n_cancels_it() {
    let mut player = CommandLog::new();
    let b = BehaviourConfig {
        confirm_on_quit: true,
        ..beh()
    };

    let mut yes = AppState::default();
    dispatch_input(InputAction::Quit, &mut yes, &mut player, &b);
    dispatch_input(InputAction::Char('y'), &mut yes, &mut player, &b);
    assert!(yes.should_quit, "y must quit");
    assert!(yes.modal.is_none(), "and close the modal");

    let mut no = AppState::default();
    dispatch_input(InputAction::Quit, &mut no, &mut player, &b);
    dispatch_input(InputAction::Char('n'), &mut no, &mut player, &b);
    assert!(!no.should_quit, "n must not quit");
    assert!(no.modal.is_none(), "and must close the modal");
}

#[test]
fn a_second_q_inside_the_confirm_also_quits() {
    let mut player = CommandLog::new();
    let b = BehaviourConfig {
        confirm_on_quit: true,
        ..beh()
    };
    let mut s = AppState::default();
    dispatch_input(InputAction::Quit, &mut s, &mut player, &b);
    dispatch_input(InputAction::Quit, &mut s, &mut player, &b);
    assert!(s.should_quit, "qq must quit");
}

#[test]
fn seek_uses_the_configured_step_rather_than_a_hardcoded_five() {
    let mut player = CommandLog::new();
    let mut s = AppState::default();
    let b = BehaviourConfig {
        seek_step_secs: 30,
        ..beh()
    };
    dispatch_input(InputAction::SeekForward, &mut s, &mut player, &b);
    dispatch_input(InputAction::SeekBack, &mut s, &mut player, &b);
    assert!(
        matches!(
            player.commands().as_slice(),
            [
                PlayerCommand::SeekRelative(30),
                PlayerCommand::SeekRelative(-30)
            ]
        ),
        "behaviour.seek_step_secs must reach the player, got {:?}",
        player.commands()
    );
}

#[test]
fn volume_uses_the_configured_step_rather_than_a_hardcoded_five() {
    let mut player = CommandLog::new();
    let mut s = AppState {
        volume: 50,
        ..Default::default()
    };
    let b = BehaviourConfig {
        volume_step: 10,
        ..beh()
    };
    dispatch_input(InputAction::VolumeUp, &mut s, &mut player, &b);
    assert_eq!(s.volume, 60, "the bar must move by the configured step");
    dispatch_input(InputAction::VolumeDown, &mut s, &mut player, &b);
    dispatch_input(InputAction::VolumeDown, &mut s, &mut player, &b);
    assert_eq!(s.volume, 40);
    assert!(
        matches!(player.commands().last(), Some(PlayerCommand::SetVolume(40))),
        "the player must be told the same level, got {:?}",
        player.commands()
    );
}

#[test]
fn a_configured_step_still_clamps_at_the_ends() {
    let mut player = CommandLog::new();
    let b = BehaviourConfig {
        volume_step: 90,
        ..beh()
    };
    let mut s = AppState {
        volume: 50,
        ..Default::default()
    };
    dispatch_input(InputAction::VolumeUp, &mut s, &mut player, &b);
    assert_eq!(s.volume, 100);
    dispatch_input(InputAction::VolumeDown, &mut s, &mut player, &b);
    assert_eq!(s.volume, 10);
    dispatch_input(InputAction::VolumeDown, &mut s, &mut player, &b);
    assert_eq!(s.volume, 0, "must clamp, not wrap");
}

#[test]
fn a_reload_carries_the_new_behaviour_values() {
    let r = reloaded("[behaviour]\nseek_step_secs = 15\nvolume_step = 3")
        .expect("valid config");
    assert_eq!(r.behaviour.seek_step_secs, 15);
    assert_eq!(r.behaviour.volume_step, 3);
}

#[test]
fn unauthenticated_source_ready_redirects_locked_pane_to_search() {
    let mut state = AppState {
        pane: Pane::Playlists,
        sidebar_selected: 1,
        playlists: vec![Playlist::stub("p1", "Cached")],
        ..Default::default()
    };
    source_ready(&mut state, false);
    assert!(state.guest);
    assert_eq!(state.pane, Pane::Search);
    assert_eq!(state.sidebar_selected, 5);
    assert_eq!(state.focus, Focus::SearchInput);
    assert!(
        state.playlists.is_empty(),
        "cached account rows must not survive into guest mode"
    );
}

#[test]
fn authenticated_source_ready_preserves_selected_pane() {
    let mut state = AppState {
        pane: Pane::Playlists,
        sidebar_selected: 1,
        ..Default::default()
    };
    source_ready(&mut state, true);
    assert!(!state.guest);
    assert_eq!(state.pane, Pane::Playlists);
}

#[test]
fn a_guest_already_on_search_is_not_told_twice() {
    let mut state = AppState {
        pane: Pane::Search,
        sidebar_selected: 5,
        ..Default::default()
    };
    source_ready(&mut state, false);
    assert!(state.guest);
    assert!(state.toasts.is_empty());
}

#[test]
fn guest_account_actions_show_a_toast_without_opening_a_modal() {
    let mut player = CommandLog::new();
    for action in [
        InputAction::AddToPlaylist,
        InputAction::CreatePlaylist,
        InputAction::RenamePlaylist,
        InputAction::DeletePlaylist,
        InputAction::RemoveFromPlaylist,
    ] {
        let mut state = AppState {
            guest: true,
            pane: Pane::Playlists,
            ..Default::default()
        };
        assert!(dispatch_input(action.clone(), &mut state, &mut player, &beh()).is_none());
        assert!(state.modal.is_none(), "{action:?} must not open a modal");
        assert_eq!(state.toasts.len(), 1, "{action:?} must explain itself");
    }
}

#[test]
fn guest_queue_removal_still_reaches_the_player() {
    let mut player = CommandLog::new();
    let mut state = AppState {
        guest: true,
        pane: Pane::Queue,
        queue: vec![Track::stub("v1", "Song")],
        ..Default::default()
    };
    dispatch_input(
        InputAction::RemoveFromPlaylist,
        &mut state,
        &mut player,
        &beh(),
    );
    assert!(matches!(
        player.commands().as_slice(),
        [PlayerCommand::RemoveFromQueue(0)]
    ));
}

#[test]
fn toggle_pause_reaches_the_player_not_the_state() {
    let mut player = CommandLog::new();
    let mut s = AppState::default();
    dispatch_input(InputAction::TogglePause, &mut s, &mut player, &beh());
    assert!(matches!(player.commands()[0], PlayerCommand::TogglePause));
}

#[test]
fn volume_up_clamps_at_one_hundred() {
    let mut player = CommandLog::new();
    let mut s = AppState {
        volume: 97,
        ..Default::default()
    };
    dispatch_input(InputAction::VolumeUp, &mut s, &mut player, &beh());
    match player.commands()[0] {
        PlayerCommand::SetVolume(v) => assert_eq!(v, 100),
        ref o => panic!("expected SetVolume, got {o:?}"),
    }
}

#[test]
fn volume_down_clamps_at_zero() {
    let mut player = CommandLog::new();
    let mut s = AppState {
        volume: 2,
        ..Default::default()
    };
    dispatch_input(InputAction::VolumeDown, &mut s, &mut player, &beh());
    match player.commands()[0] {
        PlayerCommand::SetVolume(v) => assert_eq!(v, 0),
        ref o => panic!("expected SetVolume, got {o:?}"),
    }
}

#[test]
fn cycle_repeat_advances_the_mode() {
    let mut player = CommandLog::new();
    let mut s = AppState::default();
    dispatch_input(InputAction::CycleRepeat, &mut s, &mut player, &beh());
    match player.commands()[0] {
        PlayerCommand::SetRepeat(m) => {
            assert_eq!(m, RepeatMode::One)
        }
        ref o => panic!("expected SetRepeat, got {o:?}"),
    }
}

#[test]
fn confirm_on_a_selected_track_plays_it() {
    let mut player = CommandLog::new();
    let mut s = AppState {
        pane: Pane::Songs,
        tracks: vec![Track::stub("v7", "Song")],
        selected: 0,
        ..Default::default()
    };
    dispatch_input(InputAction::Confirm, &mut s, &mut player, &beh());
    match &player.commands()[0] {
        PlayerCommand::PlayNow(t) => assert_eq!(t.video_id.as_str(), "v7"),
        o => panic!("expected PlayNow, got {o:?}"),
    }
}

#[test]
fn confirm_with_an_empty_list_sends_nothing() {
    let mut player = CommandLog::new();
    let mut s = AppState {
        pane: Pane::Songs,
        ..Default::default()
    };
    dispatch_input(InputAction::Confirm, &mut s, &mut player, &beh());
    assert!(
        player.commands().is_empty(),
        "must not play a track that does not exist"
    );
}

#[test]
fn add_to_queue_enqueues_the_selected_track() {
    let mut player = CommandLog::new();
    let mut s = AppState {
        pane: Pane::Songs,
        tracks: vec![Track::stub("v1", "A")],
        ..Default::default()
    };
    dispatch_input(InputAction::AddToQueue, &mut s, &mut player, &beh());
    assert!(matches!(
        player.commands()[0],
        PlayerCommand::EnqueueBack(_)
    ));
}

#[test]
fn an_empty_library_under_cookie_auth_hints_at_an_expired_cookie() {
    let ev = AppEvent::PlaylistsLoaded(vec![]);
    let hint = empty_library_hint(true, &ev).expect("cookie auth must hint");
    assert!(hint.contains("re-export"), "got {hint:?}");
}

#[test]
fn a_populated_library_never_hints() {
    let ev = AppEvent::PlaylistsLoaded(vec![Playlist::stub("p1", "Focus")]);
    assert!(empty_library_hint(true, &ev).is_none());
}

#[test]
fn oauth_auth_does_not_get_the_cookie_hint() {
    let ev = AppEvent::PlaylistsLoaded(vec![]);
    assert!(empty_library_hint(false, &ev).is_none());
}

#[test]
fn typing_a_query_fires_one_search_after_the_pause_not_per_keystroke() {
    let mut player = CommandLog::new();
    let mut d = SearchDebounce::new(300);
    let mut s = AppState {
        pane: Pane::Search,
        focus: Focus::SearchInput,
        ..Default::default()
    };

    let mut fired = Vec::new();
    for (i, c) in "boa".chars().enumerate() {
        let now = 1000 + i as u64 * 50;
        dispatch_input(InputAction::Char(c), &mut s, &mut player, &beh());
        note_search_input(&mut d, &s, now);
        if let Some(t) = search_tick(&mut d, &mut s, now + 10) {
            fired.push(t);
        }
    }
    assert!(fired.is_empty(), "fired mid-typing: {fired:?}");

    let task = search_tick(&mut d, &mut s, 1500).expect("must fire after the pause");
    assert_eq!(task, Task::Search("boa".into()));
    assert!(s.loading, "the spinner must show while the search runs");
}

#[test]
fn a_settled_query_does_not_fire_again_on_every_tick() {
    let mut player = CommandLog::new();
    let mut d = SearchDebounce::new(300);
    let mut s = AppState {
        pane: Pane::Search,
        focus: Focus::SearchInput,
        ..Default::default()
    };
    dispatch_input(InputAction::Char('x'), &mut s, &mut player, &beh());
    note_search_input(&mut d, &s, 1000);
    assert!(search_tick(&mut d, &mut s, 1400).is_some());
    for now in [1500, 1600, 5000] {
        assert_eq!(search_tick(&mut d, &mut s, now), None, "re-fired at {now}");
    }
}

#[test]
fn keystrokes_outside_the_search_pane_never_schedule_a_search() {
    let mut player = CommandLog::new();
    let mut d = SearchDebounce::new(300);
    let mut s = AppState {
        pane: Pane::Songs,
        focus: Focus::Main,
        ..Default::default()
    };
    dispatch_input(InputAction::Down, &mut s, &mut player, &beh());
    note_search_input(&mut d, &s, 1000);
    assert_eq!(search_tick(&mut d, &mut s, 2000), None);
}

fn queue_of_three() -> AppState {
    AppState {
        pane: Pane::Queue,
        queue: vec![
            Track::stub("v1", "A"),
            Track::stub("v2", "B"),
            Track::stub("v3", "C"),
        ],
        focus: Focus::Main,
        selected: 1,
        ..Default::default()
    }
}

#[test]
fn x_in_the_queue_removes_the_selected_entry() {
    let mut player = CommandLog::new();
    let mut s = queue_of_three();
    dispatch_input(InputAction::RemoveFromPlaylist, &mut s, &mut player, &beh());
    match player.commands()[0] {
        PlayerCommand::RemoveFromQueue(i) => assert_eq!(i, 1),
        ref o => panic!("expected RemoveFromQueue, got {o:?}"),
    }
}

fn filtered_queue_of_four() -> AppState {
    AppState {
        pane: Pane::Queue,
        focus: Focus::Main,
        queue: vec![
            Track::stub("q0", "We Don't Talk Anymore"),
            Track::stub("q1", "blue"),
            Track::stub("q2", "Something Else"),
            Track::stub("q3", "I'm Good (Blue)"),
        ],
        filter: "blu".into(),
        selected: 0,
        ..Default::default()
    }
}

#[test]
fn enter_on_a_filtered_row_plays_that_row_not_the_queues_nth() {
    let mut player = CommandLog::new();
    let mut s = filtered_queue_of_four();
    dispatch_input(InputAction::Confirm, &mut s, &mut player, &beh());
    match player.commands()[0] {
        PlayerCommand::JumpTo(i) => assert_eq!(i, 1, "visible row 0 is queue 1"),
        ref o => panic!("expected JumpTo, got {o:?}"),
    }
}

#[test]
fn enter_on_the_second_filtered_row_plays_the_right_entry() {
    let mut player = CommandLog::new();
    let mut s = AppState {
        selected: 1,
        ..filtered_queue_of_four()
    };
    dispatch_input(InputAction::Confirm, &mut s, &mut player, &beh());
    match player.commands()[0] {
        PlayerCommand::JumpTo(i) => assert_eq!(i, 3, "visible row 1 is queue 3"),
        ref o => panic!("expected JumpTo, got {o:?}"),
    }
}

#[test]
fn enter_past_the_last_filtered_row_sends_nothing() {
    let mut player = CommandLog::new();
    let mut s = AppState {
        selected: 2,
        ..filtered_queue_of_four()
    };
    dispatch_input(InputAction::Confirm, &mut s, &mut player, &beh());
    assert!(player.commands().is_empty());
}

#[test]
fn x_on_a_filtered_row_removes_that_row() {
    let mut player = CommandLog::new();
    let mut s = filtered_queue_of_four();
    dispatch_input(InputAction::RemoveFromPlaylist, &mut s, &mut player, &beh());
    match player.commands()[0] {
        PlayerCommand::RemoveFromQueue(i) => assert_eq!(i, 1),
        ref o => panic!("expected RemoveFromQueue, got {o:?}"),
    }
}

#[test]
fn moving_a_filtered_row_moves_that_entry() {
    let mut player = CommandLog::new();
    let mut s = filtered_queue_of_four();
    dispatch_input(InputAction::MoveEntryDown, &mut s, &mut player, &beh());
    assert_eq!(moves(&player), vec![(1, 2)], "queue 1 moves to 2");
}

#[test]
fn removing_a_queue_entry_does_not_mutate_the_local_queue() {
    let mut player = CommandLog::new();
    let mut s = queue_of_three();
    dispatch_input(InputAction::RemoveFromPlaylist, &mut s, &mut player, &beh());
    assert_eq!(s.queue.len(), 3, "the view must wait for QueueChanged");
}

#[test]
fn x_on_marked_range_in_queue_adjusts_selection_and_clears_marks() {
    let mut player = CommandLog::new();
    let tracks: Vec<Track> = (0..88)
        .map(|i| Track::stub(&format!("v{i}"), &format!("Track {i}")))
        .collect();
    let mut s = AppState {
        pane: Pane::Queue,
        queue: tracks,
        selected: 79,
        scroll_offset: 40,
        ..Default::default()
    };
    for i in 40..80 {
        s.marked.insert(VideoId::from(format!("v{i}")));
    }
    s.visual_anchor = Some(40);

    dispatch_input(InputAction::RemoveFromPlaylist, &mut s, &mut player, &beh());

    assert_eq!(player.commands().len(), 40);
    assert!(s.marked.is_empty());
    assert_eq!(s.visual_anchor, None);
    assert_eq!(s.selected, 40);
    assert!(s.scroll_offset <= 40);
}

#[test]
fn x_outside_the_queue_does_not_touch_the_queue() {
    let mut player = CommandLog::new();
    let mut s = AppState {
        pane: Pane::Songs,
        tracks: vec![Track::stub("v1", "A")],
        ..Default::default()
    };
    dispatch_input(InputAction::RemoveFromPlaylist, &mut s, &mut player, &beh());
    assert!(player.commands().is_empty());
}

#[test]
fn moving_an_entry_down_swaps_it_with_the_next_one() {
    let mut player = CommandLog::new();
    let mut s = queue_of_three();
    dispatch_input(InputAction::MoveEntryDown, &mut s, &mut player, &beh());
    match player.commands()[0] {
        PlayerCommand::MoveInQueue { from, to } => assert_eq!((from, to), (1, 2)),
        ref o => panic!("expected MoveInQueue, got {o:?}"),
    }
    assert_eq!(s.selected, 2, "the selection follows the entry it moved");
}

#[test]
fn moving_an_entry_up_swaps_it_with_the_previous_one() {
    let mut player = CommandLog::new();
    let mut s = queue_of_three();
    dispatch_input(InputAction::MoveEntryUp, &mut s, &mut player, &beh());
    match player.commands()[0] {
        PlayerCommand::MoveInQueue { from, to } => assert_eq!((from, to), (1, 0)),
        ref o => panic!("expected MoveInQueue, got {o:?}"),
    }
    assert_eq!(s.selected, 0);
}

#[test]
fn an_entry_cannot_be_moved_off_either_end() {
    let mut player = CommandLog::new();
    let mut top = AppState {
        selected: 0,
        ..queue_of_three()
    };
    dispatch_input(InputAction::MoveEntryUp, &mut top, &mut player, &beh());
    let mut bottom = AppState {
        selected: 2,
        ..queue_of_three()
    };
    dispatch_input(InputAction::MoveEntryDown, &mut bottom, &mut player, &beh());
    assert!(
        player.commands().is_empty(),
        "an out-of-range move would panic the actor"
    );
    assert_eq!(top.selected, 0);
    assert_eq!(bottom.selected, 2);
}

fn moves(player: &CommandLog) -> Vec<(usize, usize)> {
    player
        .commands()
        .iter()
        .filter_map(|c| match c {
            PlayerCommand::MoveInQueue { from, to } => Some((*from, *to)),
            _ => None,
        })
        .collect()
}

fn queue_of_four_with_middle_marked() -> AppState {
    let mut s = AppState {
        pane: Pane::Queue,
        queue: vec![
            Track::stub("v1", "A"),
            Track::stub("v2", "B"),
            Track::stub("v3", "C"),
            Track::stub("v4", "D"),
        ],
        focus: Focus::Main,
        selected: 1,
        ..Default::default()
    };
    s.marked.insert(VideoId::from("v2"));
    s.marked.insert(VideoId::from("v3"));
    s
}

#[test]
fn a_marked_block_moves_down_together() {
    let mut player = CommandLog::new();
    let mut s = queue_of_four_with_middle_marked();
    dispatch_input(InputAction::MoveEntryDown, &mut s, &mut player, &beh());
    assert_eq!(moves(&player), vec![(2, 3), (1, 2)]);
    assert_eq!(s.selected, 2, "the cursor follows the block");
}

#[test]
fn a_marked_block_moves_up_together() {
    let mut player = CommandLog::new();
    let mut s = queue_of_four_with_middle_marked();
    dispatch_input(InputAction::MoveEntryUp, &mut s, &mut player, &beh());
    assert_eq!(moves(&player), vec![(1, 0), (2, 1)]);
    assert_eq!(s.selected, 0);
}

#[test]
fn a_marked_block_stops_at_the_ends_instead_of_collapsing() {
    let mut player = CommandLog::new();
    let mut top = queue_of_four_with_middle_marked();
    top.marked.insert(VideoId::from("v1"));
    dispatch_input(InputAction::MoveEntryUp, &mut top, &mut player, &beh());

    let mut bottom = queue_of_four_with_middle_marked();
    bottom.marked.insert(VideoId::from("v4"));
    dispatch_input(InputAction::MoveEntryDown, &mut bottom, &mut player, &beh());

    assert!(
        moves(&player).is_empty(),
        "a block against the edge must not move at all"
    );
}

fn order_after(action: InputAction, state: &mut AppState) -> Vec<String> {
    let mut player = CommandLog::new();
    let mut q = Queue::default();
    q.push_back(state.queue.clone());
    dispatch_input(action, state, &mut player, &beh());
    for (from, to) in moves(&player) {
        q.move_item(from, to);
    }
    q.tracks()
        .iter()
        .map(|t| t.video_id.as_str().to_owned())
        .collect()
}

#[test]
fn a_block_moved_down_stays_contiguous_in_the_real_queue() {
    let mut s = queue_of_four_with_middle_marked();
    assert_eq!(
        order_after(InputAction::MoveEntryDown, &mut s),
        vec!["v1", "v4", "v2", "v3"],
        "v2+v3 must slide past v4 as one block, still adjacent and in order"
    );
}

#[test]
fn a_block_moved_up_stays_contiguous_in_the_real_queue() {
    let mut s = queue_of_four_with_middle_marked();
    assert_eq!(
        order_after(InputAction::MoveEntryUp, &mut s),
        vec!["v2", "v3", "v1", "v4"]
    );
}

#[test]
fn a_split_selection_moves_each_run_without_swallowing_a_gap() {
    let mut s = queue_of_four_with_middle_marked();
    s.marked.remove(&VideoId::from("v3"));
    s.marked.insert(VideoId::from("v4"));
    let mut player = CommandLog::new();
    dispatch_input(InputAction::MoveEntryDown, &mut s, &mut player, &beh());
    assert!(
        moves(&player).is_empty(),
        "one marked entry at the end pins the whole selection"
    );
}

#[test]
fn a_moved_block_keeps_its_marks_so_the_key_repeats() {
    let mut player = CommandLog::new();
    let mut s = queue_of_four_with_middle_marked();
    dispatch_input(InputAction::MoveEntryDown, &mut s, &mut player, &beh());
    assert!(s.marked.contains(&VideoId::from("v2")));
    assert!(s.marked.contains(&VideoId::from("v3")));
}

#[test]
fn reordering_outside_the_queue_is_ignored() {
    let mut player = CommandLog::new();
    let mut s = AppState {
        pane: Pane::Songs,
        tracks: vec![
            Track::stub("v1", "A"),
            Track::stub("v2", "B"),
        ],
        ..Default::default()
    };
    dispatch_input(InputAction::MoveEntryDown, &mut s, &mut player, &beh());
    assert!(
        player.commands().is_empty(),
        "there is no server-side track order to change"
    );
}

#[test]
fn the_clear_binding_empties_the_queue() {
    let mut player = CommandLog::new();
    let mut s = queue_of_three();
    dispatch_input(InputAction::ClearQueue, &mut s, &mut player, &beh());
    assert!(matches!(player.commands()[0], PlayerCommand::ClearQueue));
}

#[test]
fn clearing_resets_the_selection_so_it_cannot_dangle() {
    let mut player = CommandLog::new();
    let mut s = queue_of_three();
    dispatch_input(InputAction::ClearQueue, &mut s, &mut player, &beh());
    assert_eq!(s.selected, 0);
}

#[test]
fn creating_a_playlist_calls_the_source_and_commits() {
    let mut src = MockSource::new();
    let mut s = AppState {
        modal: Some(Modal::Prompt {
            title: "Name".into(),
            value: "Road Trip".into(),
            action: PromptAction::CreatePlaylist,
        }),
        ..Default::default()
    };

    let (token, task) = submit_prompt(&mut s).expect("a prompt submission yields a mutation");
    assert_eq!(
        s.playlists.len(),
        1,
        "optimistic row appears at once"
    );
    assert!(s.modal.is_none(), "the modal closes on submit");

    let ev = run_mutation(token, task, &mut src);
    assert!(
        src.calls().iter().any(|c| c.starts_with("create_playlist")),
        "got {:?}",
        src.calls()
    );
    match ev {
        AppEvent::MutationOk {
            token: t, real_id, ..
        } => {
            assert_eq!(t, token);
            assert!(real_id.is_some(), "commit needs the real id to swap in");
        }
        other => panic!("expected MutationOk, got {other:?}"),
    }
}

#[test]
fn a_failed_create_yields_mutation_failed_with_the_same_token() {
    let mut src = MockSource::new();
    src.fail_next(SourceError::RateLimited);
    let ev = run_mutation(
        7,
        MutationTask::Create {
            title: "X".into(),
            description: None,
            privacy: Privacy::Private,
        },
        &mut src,
    );
    match ev {
        AppEvent::MutationFailed { token, message } => {
            assert_eq!(token, 7);
            assert!(message.contains("too many requests"), "got: {message}");
        }
        other => panic!("expected MutationFailed, got {other:?}"),
    }
}

#[test]
fn renaming_sends_the_new_title() {
    let mut src = MockSource::new().with_playlists(vec![Playlist::stub("p1", "Old")]);
    let _ = run_mutation(
        1,
        MutationTask::Rename {
            id: "p1".into(),
            title: "New".into(),
        },
        &mut src,
    );
    assert!(src.calls().iter().any(|c| c.starts_with("edit_playlist")));
    assert_eq!(src.library_playlists().unwrap()[0].title, "New");
}

#[test]
fn renaming_a_system_playlist_is_refused_before_any_api_call() {
    let mut s = AppState {
        pane: Pane::Playlists,
        playlists: vec![Playlist {
            is_system: true,
            ..Playlist::stub("LM", "Your Likes")
        }],
        selected: 0,
        ..Default::default()
    };
    assert!(open_rename_prompt(&mut s).is_none(), "must refuse");
    assert_eq!(s.toasts.len(), 1, "and say why");
    assert!(
        s.modal.is_none(),
        "no prompt for a playlist that cannot change"
    );
}

#[test]
fn renaming_an_editable_playlist_prefills_its_current_title() {
    let mut s = AppState {
        pane: Pane::Playlists,
        playlists: vec![Playlist::stub("p1", "Focus")],
        selected: 0,
        ..Default::default()
    };
    assert!(open_rename_prompt(&mut s).is_some());
    match &s.modal {
        Some(Modal::Prompt { value, .. }) => assert_eq!(value, "Focus"),
        other => panic!("expected a prompt, got {other:?}"),
    }
}

#[test]
fn submitting_an_empty_name_is_refused() {
    let mut s = AppState {
        modal: Some(Modal::Prompt {
            title: "Name".into(),
            value: "   ".into(),
            action: PromptAction::CreatePlaylist,
        }),
        ..Default::default()
    };
    assert!(submit_prompt(&mut s).is_none());
    assert!(
        s.playlists.is_empty(),
        "no optimistic row for an invalid name"
    );
    assert_eq!(s.toasts.len(), 1, "and say why");
}

#[test]
fn a_rejected_rename_puts_the_old_title_back() {
    let mut s = AppState {
        pane: Pane::Playlists,
        playlists: vec![Playlist::stub("p1", "Focus")],
        selected: 0,
        modal: Some(Modal::Prompt {
            title: "Rename".into(),
            value: "Deep Focus".into(),
            action: PromptAction::RenamePlaylist("p1".into()),
        }),
        ..Default::default()
    };
    let (token, _) = submit_prompt(&mut s).expect("rename must start");
    assert_eq!(s.playlists[0].title, "Deep Focus");
    s.apply(AppEvent::MutationFailed {
        token,
        message: "rejected".into(),
    });
    assert_eq!(s.playlists[0].title, "Focus");
}

#[test]
fn n_opens_a_create_prompt_and_r_a_rename_prompt() {
    let mut player = CommandLog::new();
    let mut s = AppState {
        pane: Pane::Playlists,
        playlists: vec![Playlist::stub("p1", "Focus")],
        selected: 0,
        ..Default::default()
    };
    dispatch_input(InputAction::CreatePlaylist, &mut s, &mut player, &beh());
    assert!(matches!(s.modal, Some(Modal::Prompt { .. })));
    s.modal = None;
    dispatch_input(InputAction::RenamePlaylist, &mut s, &mut player, &beh());
    assert!(matches!(s.modal, Some(Modal::Prompt { .. })));
    assert!(player.commands().is_empty(), "neither touches the player");
}

#[test]
fn pressing_delete_opens_a_confirmation_rather_than_deleting() {
    let mut s = AppState {
        pane: Pane::Playlists,
        playlists: vec![Playlist::stub("p1", "Focus")],
        selected: 0,
        ..Default::default()
    };
    open_delete_confirm(&mut s);
    assert!(matches!(s.modal, Some(Modal::Confirm { .. })));
    assert_eq!(s.playlists.len(), 1, "nothing is removed until confirmed");
}

#[test]
fn the_confirmation_names_the_playlist() {
    let mut s = AppState {
        pane: Pane::Playlists,
        playlists: vec![Playlist::stub("p1", "Focus")],
        ..Default::default()
    };
    open_delete_confirm(&mut s);
    match &s.modal {
        Some(Modal::Confirm { text, .. }) => {
            assert!(text.contains("Focus"), "got: {text}")
        }
        other => panic!("expected a confirm, got {other:?}"),
    }
}

#[test]
fn confirming_removes_the_row_and_returns_the_task() {
    let mut s = AppState {
        pane: Pane::Playlists,
        playlists: vec![Playlist::stub("p1", "Focus")],
        ..Default::default()
    };
    open_delete_confirm(&mut s);
    let (_token, task) = confirm_action(&mut s).expect("confirm yields work");
    assert!(matches!(task, MutationTask::Delete { .. }));
    assert!(s.playlists.is_empty(), "optimistic removal");
    assert!(s.modal.is_none());
}

#[test]
fn a_failed_delete_puts_the_playlist_back() {
    let mut s = AppState {
        pane: Pane::Playlists,
        playlists: vec![
            Playlist::stub("p1", "A"),
            Playlist::stub("p2", "B"),
        ],
        selected: 1,
        ..Default::default()
    };
    open_delete_confirm(&mut s);
    let (token, _) = confirm_action(&mut s).unwrap();
    assert_eq!(s.playlists.len(), 1);
    s.rollback(token);
    assert_eq!(s.playlists.len(), 2);
    assert_eq!(s.playlists[1].title, "B", "restored at its original index");
}

#[test]
fn a_system_playlist_cannot_be_deleted() {
    let mut s = AppState {
        pane: Pane::Playlists,
        playlists: vec![Playlist {
            is_system: true,
            ..Playlist::stub("LM", "Your Likes")
        }],
        ..Default::default()
    };
    open_delete_confirm(&mut s);
    assert!(
        s.modal.is_none(),
        "no confirmation for an impossible action"
    );
    assert_eq!(s.toasts.len(), 1, "explain why instead");
}

#[test]
fn declining_the_confirmation_changes_nothing() {
    let mut s = AppState {
        pane: Pane::Playlists,
        playlists: vec![Playlist::stub("p1", "Focus")],
        ..Default::default()
    };
    open_delete_confirm(&mut s);
    s.apply(AppEvent::Input(InputAction::Cancel));
    assert!(s.modal.is_none());
    assert_eq!(s.playlists.len(), 1);
    assert!(s.pending.is_empty());
}

#[test]
fn y_confirms_a_delete_and_n_declines_it() {
    let mut player = CommandLog::new();
    let mut yes = AppState {
        pane: Pane::Playlists,
        playlists: vec![Playlist::stub("p1", "Focus")],
        ..Default::default()
    };
    open_delete_confirm(&mut yes);
    let task = dispatch_input(InputAction::Char('y'), &mut yes, &mut player, &beh());
    assert!(
        matches!(
            task,
            Some(Task::Mutate {
                task: MutationTask::Delete { .. },
                ..
            })
        ),
        "got {task:?}"
    );
    assert!(yes.playlists.is_empty());

    let mut no = AppState {
        playlists: vec![Playlist::stub("p1", "Focus")],
        ..Default::default()
    };
    open_delete_confirm(&mut no);
    assert!(dispatch_input(InputAction::Char('n'), &mut no, &mut player, &beh()).is_none());
    assert!(no.modal.is_none(), "n closes the box");
    assert_eq!(no.playlists.len(), 1, "and deletes nothing");
}

#[test]
fn d_on_a_playlist_opens_the_delete_confirmation() {
    let mut player = CommandLog::new();
    let mut s = AppState {
        pane: Pane::Playlists,
        playlists: vec![Playlist::stub("p1", "Focus")],
        ..Default::default()
    };
    dispatch_input(InputAction::DeletePlaylist, &mut s, &mut player, &beh());
    assert!(matches!(s.modal, Some(Modal::Confirm { .. })));
}

fn playlist_track(v: &str, sv: &str, title: &str) -> Track {
    Track {
        set_video_id: Some(SetVideoId::from(sv)),
        ..Track::stub(v, title)
    }
}

fn open_playlist_with(tracks: Vec<Track>) -> AppState {
    AppState {
        pane: Pane::Playlists,
        open_playlist: Some("p1".into()),
        tracks,
        ..Default::default()
    }
}

#[test]
fn with_no_marks_the_target_is_the_selected_track() {
    let s = AppState {
        pane: Pane::Songs,
        tracks: vec![
            Track::stub("v1", "A"),
            Track::stub("v2", "B"),
        ],
        selected: 1,
        ..Default::default()
    };
    assert_eq!(targets_for_add(&s), vec![VideoId::from("v2")]);
}

#[test]
fn marked_tracks_take_precedence_over_the_selection() {
    let mut s = AppState {
        pane: Pane::Songs,
        tracks: vec![
            Track::stub("v1", "A"),
            Track::stub("v2", "B"),
            Track::stub("v3", "C"),
        ],
        selected: 0,
        ..Default::default()
    };
    s.marked.insert(VideoId::from("v2"));
    s.marked.insert(VideoId::from("v3"));
    let mut got = targets_for_add(&s);
    got.sort();
    assert_eq!(
        got,
        vec![VideoId::from("v2"), VideoId::from("v3")]
    );
}

#[test]
fn an_empty_list_yields_no_targets() {
    let s = AppState::default();
    assert!(targets_for_add(&s).is_empty());
}

#[test]
fn toggle_mark_adds_then_removes() {
    let mut s = AppState {
        pane: Pane::Songs,
        tracks: vec![Track::stub("v1", "A")],
        ..Default::default()
    };
    s.toggle_mark();
    assert!(s.marked.contains(&VideoId::from("v1")));
    s.toggle_mark();
    assert!(s.marked.is_empty());
}

#[test]
fn removing_requires_an_open_playlist() {
    let mut s = AppState {
        pane: Pane::Songs,
        tracks: vec![playlist_track("v1", "sv1", "A")],
        ..Default::default()
    };
    open_remove_confirm(&mut s);
    assert!(s.modal.is_none(), "there is no playlist to remove from");
    assert_eq!(s.toasts.len(), 1);
}

#[test]
fn removing_a_track_without_a_set_video_id_is_refused() {
    let mut s = open_playlist_with(vec![Track::stub("v1", "A")]);
    open_remove_confirm(&mut s);
    assert!(s.modal.is_none());
    assert_eq!(s.toasts.len(), 1, "explain rather than fail silently");
}

#[test]
fn removing_opens_a_confirmation_naming_the_count() {
    let mut s = open_playlist_with(vec![
        playlist_track("v1", "sv1", "A"),
        playlist_track("v2", "sv2", "B"),
    ]);
    s.marked.insert(VideoId::from("v1"));
    s.marked.insert(VideoId::from("v2"));
    open_remove_confirm(&mut s);
    match &s.modal {
        Some(Modal::Confirm { text, .. }) => {
            assert!(text.contains('2'), "got: {text}")
        }
        other => panic!("expected a confirm, got {other:?}"),
    }
}

#[test]
fn confirming_a_removal_drops_the_rows_and_can_be_undone() {
    let mut s = open_playlist_with(vec![
        playlist_track("v1", "sv1", "A"),
        playlist_track("v2", "sv2", "B"),
        playlist_track("v3", "sv3", "C"),
    ]);
    s.selected = 1;
    open_remove_confirm(&mut s);
    let (token, task) = confirm_action(&mut s).expect("confirm yields work");
    assert!(matches!(task, MutationTask::RemoveTracks { .. }));
    assert_eq!(s.tracks.len(), 2);
    s.rollback(token);
    let titles: Vec<_> = s.tracks.iter().map(|t| t.title.as_str()).collect();
    assert_eq!(titles, ["A", "B", "C"], "restored in order");
}

#[test]
fn adding_with_no_editable_playlist_says_so_instead_of_opening_an_empty_picker() {
    let mut s = AppState {
        pane: Pane::Songs,
        tracks: vec![Track::stub("v1", "A")],
        playlists: vec![Playlist {
            is_system: true,
            ..Playlist::stub("LM", "Your Likes")
        }],
        ..Default::default()
    };
    open_add_to_playlist(&mut s);
    assert!(s.modal.is_none());
    assert_eq!(s.toasts.len(), 1);
}

#[test]
fn the_picker_lists_only_editable_playlists() {
    let mut s = AppState {
        pane: Pane::Songs,
        tracks: vec![Track::stub("v1", "A")],
        playlists: vec![
            Playlist {
                is_system: true,
                ..Playlist::stub("LM", "Your Likes")
            },
            Playlist::stub("p1", "Focus"),
        ],
        ..Default::default()
    };
    open_add_to_playlist(&mut s);
    match &s.modal {
        Some(Modal::PickPlaylist {
            choices, targets, ..
        }) => {
            assert_eq!(choices.len(), 1, "a system playlist cannot be added to");
            assert_eq!(choices[0].1, "Focus");
            assert_eq!(targets.len(), 1);
        }
        other => panic!("expected a picker, got {other:?}"),
    }
}

#[test]
fn picking_a_playlist_spawns_the_add_and_clears_the_marks() {
    let mut player = CommandLog::new();
    let mut s = AppState {
        pane: Pane::Songs,
        tracks: vec![
            Track::stub("v1", "A"),
            Track::stub("v2", "B"),
        ],
        playlists: vec![Playlist::stub("p1", "Focus")],
        ..Default::default()
    };
    s.marked.insert(VideoId::from("v1"));
    s.marked.insert(VideoId::from("v2"));
    open_add_to_playlist(&mut s);
    let task = dispatch_input(InputAction::Confirm, &mut s, &mut player, &beh());
    match task {
        Some(Task::Mutate {
            task: MutationTask::AddTracks { id, videos },
            ..
        }) => {
            assert_eq!(id, PlaylistId::from("p1"));
            assert_eq!(videos.len(), 2);
        }
        other => panic!("expected an AddTracks mutation, got {other:?}"),
    }
    assert!(s.modal.is_none());
    assert!(s.marked.is_empty(), "marks are consumed by the action");
}

#[test]
fn the_picker_moves_through_its_choices() {
    let mut s = AppState {
        pane: Pane::Songs,
        tracks: vec![Track::stub("v1", "A")],
        playlists: vec![
            Playlist::stub("p1", "One"),
            Playlist::stub("p2", "Two"),
        ],
        ..Default::default()
    };
    open_add_to_playlist(&mut s);
    s.apply(AppEvent::Input(InputAction::Down));
    match &s.modal {
        Some(Modal::PickPlaylist { selected, .. }) => assert_eq!(*selected, 1),
        other => panic!("expected a picker, got {other:?}"),
    }
    s.apply(AppEvent::Input(InputAction::Down));
    match &s.modal {
        Some(Modal::PickPlaylist { selected, .. }) => assert_eq!(*selected, 1),
        other => panic!("expected a picker, got {other:?}"),
    }
}

#[test]
fn adding_tracks_calls_the_source_with_every_video_id() {
    let mut src = MockSource::new().with_playlists(vec![Playlist::stub("p1", "Target")]);
    let _ = run_mutation(
        1,
        MutationTask::AddTracks {
            id: "p1".into(),
            videos: vec![VideoId::from("v1"), VideoId::from("v2")],
        },
        &mut src,
    );
    assert!(
        src.calls().iter().any(|c| c == "add_tracks(p1,2)"),
        "got {:?}",
        src.calls()
    );
}

#[test]
fn adding_duplicate_track_fails_with_already_in_playlist_message() {
    let mut src = MockSource::new();
    src.fail_next(SourceError::AlreadyInPlaylist);
    let event = run_mutation(
        1,
        MutationTask::AddTracks {
            id: "p1".into(),
            videos: vec![VideoId::from("v1")],
        },
        &mut src,
    );
    match event {
        AppEvent::MutationFailed { token, message } => {
            assert_eq!(token, 1);
            assert_eq!(message, "already in playlist");
        }
        other => panic!("expected MutationFailed, got {other:?}"),
    }
}

#[test]
fn removing_tracks_sends_every_set_video_id() {
    let mut src = MockSource::new();
    let _ = run_mutation(
        1,
        MutationTask::RemoveTracks {
            id: "p1".into(),
            entries: vec![
                SetVideoId::from("sv1"),
                SetVideoId::from("sv2"),
            ],
        },
        &mut src,
    );
    assert!(
        src.calls().iter().any(|c| c == "remove_tracks(p1,2)"),
        "got {:?}",
        src.calls()
    );
}

#[test]
fn navigation_actions_do_not_reach_the_player() {
    let mut player = CommandLog::new();
    let mut s = AppState {
        pane: Pane::Songs,
        tracks: vec![
            Track::stub("a", "A"),
            Track::stub("b", "B"),
        ],
        ..Default::default()
    };
    dispatch_input(InputAction::Down, &mut s, &mut player, &beh());
    assert!(player.commands().is_empty());
    assert_eq!(s.selected, 1, "state handles navigation");
}

#[test]
fn a_warm_cache_fills_state_before_any_network_call() {
    let mut cache = Cache::open_in_memory();
    cache.save_playlists(&vec![Playlist::stub("p1", "Focus")]);
    cache.save_library_songs(&vec![Track::stub("v1", "Song")]);
    let mut s = AppState::default();
    preload_from_cache(
        Ok(cache.load_playlists()),
        Ok(cache.load_library_songs()),
        Ok(cache.get_downloaded_tracks()),
        &mut s,
    );
    assert_eq!(s.playlists.len(), 1);
    assert_eq!(s.playlists[0].title, "Focus");
    assert_eq!(s.tracks.len(), 1);
}

#[test]
fn a_cold_cache_leaves_state_untouched_and_does_not_fail() {
    let mut cache = Cache::open_in_memory();
    let mut s = AppState::default();
    preload_from_cache(
        Ok(cache.load_playlists()),
        Ok(cache.load_library_songs()),
        Ok(cache.get_downloaded_tracks()),
        &mut s,
    );
    assert!(s.playlists.is_empty());
    assert!(s.tracks.is_empty());
}

fn write_through(cache: &mut Cache, ev: &AppEvent) {
    if let Some(work) = cache_work(ev) {
        work.run(cache);
    }
}

#[test]
fn a_playlists_event_is_written_through_to_the_cache() {
    let mut cache = Cache::open_in_memory();
    write_through(
        &mut cache,
        &AppEvent::PlaylistsLoaded(vec![Playlist::stub("p1", "Focus")]),
    );
    assert_eq!(cache.load_playlists()[0].title, "Focus");
}

#[test]
fn playlist_tracks_are_written_through_under_their_playlist_id() {
    let mut cache = Cache::open_in_memory();
    let id = PlaylistId::from("p1");
    write_through(
        &mut cache,
        &AppEvent::PlaylistTracksLoaded {
            id: id.clone(),
            tracks: vec![Track::stub("v1", "First")],
        },
    );
    assert_eq!(cache.load_playlist_tracks(&id)[0].title, "First");
    assert!(
        cache.load_library_songs().is_empty(),
        "playlist rows must not leak into the library songs"
    );
}

#[test]
fn an_empty_library_response_does_not_wipe_a_good_cache() {
    let mut cache = Cache::open_in_memory();
    cache.save_playlists(&vec![Playlist::stub("p1", "Focus")]);
    write_through(&mut cache, &AppEvent::PlaylistsLoaded(vec![]));
    assert_eq!(cache.load_playlists().len(), 1);
}

#[test]
fn search_results_are_not_cached() {
    let mut cache = Cache::open_in_memory();
    write_through(
        &mut cache,
        &AppEvent::SearchResults {
            query: "q".into(),
            tracks: vec![Track::stub("v1", "Hit")],
        },
    );
    assert!(cache.load_library_songs().is_empty());
}

#[test]
fn opening_a_cached_playlist_shows_its_tracks_before_the_fetch_returns() {
    let mut cache = Cache::open_in_memory();
    let id = PlaylistId::from("p1");
    cache.save_playlist_tracks(&id, &vec![Track::stub("v1", "cached title")]);

    let mut state = AppState {
        pane: Pane::Playlists,
        playlists: vec![Playlist::stub("p1", "One")],
        selected: 0,
        ..Default::default()
    };
    preload_playlist_tracks(Ok(cache.load_playlist_tracks(&id)), &mut state, &id);
    assert_eq!(state.tracks.len(), 1, "cached rows must be shown at once");
    assert_eq!(state.tracks[0].title, "cached title");
    assert_eq!(
        state.selected_track().map(|t| t.title),
        Some("cached title".to_owned()),
        "the pane must actually be showing the cached rows"
    );
}

#[test]
fn an_uncached_playlist_leaves_the_list_untouched() {
    let mut cache = Cache::open_in_memory();
    let mut state = AppState {
        tracks: vec![Track::stub("old", "still here")],
        ..Default::default()
    };
    let id = PlaylistId::from("never-seen");
    preload_playlist_tracks(Ok(cache.load_playlist_tracks(&id)), &mut state, &id);
    assert_eq!(
        state.tracks.len(),
        1,
        "a cache miss must leave the list alone, not clear it"
    );
    assert_eq!(state.tracks[0].title, "still here");
    assert!(
        state.open_playlist.is_none(),
        "a miss must not descend into a playlist with nothing to show"
    );
}

#[test]
fn the_spawn_path_itself_shows_the_cached_rows() {
    let mut cache = Cache::open_in_memory();
    let id = PlaylistId::from("p1");
    cache.save_playlist_tracks(&id, &vec![Track::stub("v1", "cached title")]);
    let mut state = AppState::default();

    try_spawn(Task::OpenPlaylist(id), false, &mut state, Some(&cache), false);
    assert_eq!(state.tracks.len(), 1, "try_spawn must run the preload");
    assert_eq!(state.tracks[0].title, "cached title");
}

#[test]
fn the_cache_writer_thread_performs_the_write_the_loop_sends_it() {
    let mut cache = Cache::open_in_memory();
    let work = cache_work(&AppEvent::PlaylistsLoaded(vec![Playlist::stub(
        "p1", "Focus",
    )]))
    .expect("a non-empty playlists event is worth persisting");
    work.run(&mut cache);
    let seen = cache.load_playlists();
    assert_eq!(seen.len(), 1, "the writer must perform the write");
    assert_eq!(seen[0].title, "Focus");
}

#[test]
fn art_is_fetched_once_for_the_playing_track() {
    let mut art = ArtCache::disabled();
    let s = AppState {
        now_playing: Some(Track {
            thumbnail_url: Some("https://example.com/a.jpg".into()),
            ..Track::stub("v1", "T")
        }),
        ..Default::default()
    };
    assert_eq!(
        art_tick(&mut art, &s).as_deref(),
        Some("https://example.com/a.jpg")
    );
    assert!(
        art_tick(&mut art, &s).is_none(),
        "a second tick must not refetch the same URL"
    );
}

#[test]
fn no_art_is_fetched_when_nothing_is_playing() {
    let mut art = ArtCache::disabled();
    assert!(art_tick(&mut art, &AppState::default()).is_none());
}

#[test]
fn a_track_without_a_thumbnail_fetches_nothing() {
    let mut art = ArtCache::disabled();
    let s = AppState {
        now_playing: Some(Track::stub("v1", "T")),
        ..Default::default()
    };
    assert!(art_tick(&mut art, &s).is_none());
}

#[test]
fn a_failed_art_url_is_not_refetched() {
    let mut art = ArtCache::disabled();
    let s = AppState {
        now_playing: Some(Track {
            thumbnail_url: Some("https://example.com/dead.jpg".into()),
            ..Track::stub("v1", "T")
        }),
        ..Default::default()
    };
    assert!(art_tick(&mut art, &s).is_some());
    art.mark_failed("https://example.com/dead.jpg");
    assert!(
        art_tick(&mut art, &s).is_none(),
        "a dead thumbnail must not be retried every tick"
    );
}

#[test]
fn right_on_a_playlist_opens_it_like_enter() {
    let mut player = CommandLog::new();
    let mut s = AppState {
        pane: Pane::Playlists,
        playlists: vec![Playlist::stub("p1", "Focus")],
        focus: Focus::Main,
        ..Default::default()
    };
    let task = dispatch_input(InputAction::Right, &mut s, &mut player, &beh());
    assert_eq!(task, Some(Task::OpenPlaylist("p1".into())));
}

#[test]
fn right_on_an_artist_opens_their_tracks_like_enter() {
    let mut player = CommandLog::new();
    let mut s = AppState {
        pane: Pane::Artists,
        artists: vec![Artist {
            id: ArtistId::from("UC1"),
            name: "Sabrina Carpenter".into(),
            subscribers: None,
            thumbnail_url: None,
        }],
        focus: Focus::Main,
        ..Default::default()
    };
    let task = dispatch_input(InputAction::Right, &mut s, &mut player, &beh());
    assert_eq!(
        task,
        Some(Task::OpenArtist {
            id: ArtistId::from("UC1"),
            name: "Sabrina Carpenter".into(),
        })
    );
}

#[test]
fn right_inside_an_open_artist_does_not_reopen_them() {
    let mut player = CommandLog::new();
    let mut s = AppState {
        pane: Pane::Artists,
        open_artist: Some((ArtistId::from("UC1"), "Someone".into())),
        artist_tracks: vec![Track::stub("v1", "T")],
        focus: Focus::Main,
        ..Default::default()
    };
    assert_eq!(
        dispatch_input(InputAction::Right, &mut s, &mut player, &beh()),
        None
    );
}

#[test]
fn right_inside_an_open_playlist_does_not_reopen_it() {
    let mut player = CommandLog::new();
    let mut s = AppState {
        pane: Pane::Playlists,
        playlists: vec![Playlist::stub("p1", "Focus")],
        open_playlist: Some("p1".into()),
        tracks: vec![Track::stub("v1", "T")],
        focus: Focus::Main,
        ..Default::default()
    };
    assert!(dispatch_input(InputAction::Right, &mut s, &mut player, &beh()).is_none());
}

fn home_state(row: HomeRow) -> AppState {
    AppState {
        pane: Pane::Home,
        home_rows: vec![row],
        focus: Focus::Main,
        ..Default::default()
    }
}

fn home_item(title: &str, target: HomeTarget) -> HomeRow {
    HomeRow::Item(HomeItem {
        title: title.into(),
        subtitle: String::new(),
        target,
        thumbnail_url: None,
    })
}

#[test]
fn enter_on_a_home_playlist_opens_it_in_the_playlists_pane() {
    let mut player = CommandLog::new();
    let mut s = home_state(home_item(
        "Recap",
        HomeTarget::Playlist("PL1".into()),
    ));
    let task = dispatch_input(InputAction::Confirm, &mut s, &mut player, &beh());
    assert_eq!(task, Some(Task::OpenPlaylist("PL1".into())));
    assert_eq!(
        s.pane,
        Pane::Playlists,
        "the playlist's tracks render in the Playlists pane, not Home"
    );
}

#[test]
fn enter_on_a_home_artist_opens_them_in_the_artists_pane() {
    let mut player = CommandLog::new();
    let mut s = home_state(home_item(
        "Someone",
        HomeTarget::Artist("UC1".into()),
    ));
    let task = dispatch_input(InputAction::Confirm, &mut s, &mut player, &beh());
    assert_eq!(
        task,
        Some(Task::OpenArtist {
            id: "UC1".into(),
            name: "Someone".into(),
        })
    );
    assert_eq!(s.pane, Pane::Artists);
}

#[test]
fn enter_on_a_home_album_opens_it_in_the_albums_pane() {
    let mut player = CommandLog::new();
    let mut s = home_state(home_item(
        "Blue Eyes",
        HomeTarget::Album("MPREb_1".into()),
    ));
    let task = dispatch_input(InputAction::Confirm, &mut s, &mut player, &beh());
    assert_eq!(
        task,
        Some(Task::OpenAlbum {
            id: "MPREb_1".into(),
            name: "Blue Eyes".into(),
        })
    );
    assert_eq!(s.pane, Pane::Albums);
}

#[test]
fn enter_on_a_home_track_still_plays_it() {
    let mut player = CommandLog::new();
    let mut s = home_state(home_item("Blow", HomeTarget::Track("v1".into())));
    let task = dispatch_input(InputAction::Confirm, &mut s, &mut player, &beh());
    assert!(task.is_none(), "a track plays via the player, not a task");
    assert_eq!(s.pane, Pane::Home);
    assert_eq!(
        player.commands().len(),
        1,
        "one PlayNow must reach the player"
    );
}

#[test]
fn enter_on_an_album_row_opens_its_songs() {
    let mut player = CommandLog::new();
    let mut s = AppState {
        pane: Pane::Albums,
        albums: vec![Album {
            id: "MPREb_1".into(),
            title: "Blue Eyes".into(),
            artists: vec!["Honey".into()],
            year: None,
            thumbnail_url: None,
        }],
        focus: Focus::Main,
        ..Default::default()
    };
    assert_eq!(
        dispatch_input(InputAction::Confirm, &mut s, &mut player, &beh()),
        Some(Task::OpenAlbum {
            id: "MPREb_1".into(),
            name: "Blue Eyes".into(),
        })
    );
}

#[test]
fn right_on_an_album_row_opens_it_like_enter() {
    let mut player = CommandLog::new();
    let mut s = AppState {
        pane: Pane::Albums,
        albums: vec![Album {
            id: "MPREb_1".into(),
            title: "Blue Eyes".into(),
            artists: vec!["Honey".into()],
            year: None,
            thumbnail_url: None,
        }],
        focus: Focus::Main,
        ..Default::default()
    };
    assert_eq!(
        dispatch_input(InputAction::Right, &mut s, &mut player, &beh()),
        Some(Task::OpenAlbum {
            id: "MPREb_1".into(),
            name: "Blue Eyes".into(),
        })
    );
}

#[test]
fn right_inside_an_open_album_does_not_reopen_it() {
    let mut player = CommandLog::new();
    let mut s = AppState {
        pane: Pane::Albums,
        open_album: Some(("MPREb_1".into(), "Blue Eyes".into())),
        album_tracks: vec![Track::stub("v1", "T")],
        focus: Focus::Main,
        ..Default::default()
    };
    assert!(dispatch_input(InputAction::Right, &mut s, &mut player, &beh()).is_none());
}

#[test]
fn right_on_a_track_pane_does_not_play_anything() {
    let mut player = CommandLog::new();
    let mut s = AppState {
        pane: Pane::Songs,
        tracks: vec![Track::stub("v1", "T")],
        focus: Focus::Main,
        ..Default::default()
    };
    let task = dispatch_input(InputAction::Right, &mut s, &mut player, &beh());
    assert!(task.is_none());
    assert!(
        player.commands().is_empty(),
        "nothing should reach the player"
    );
}

#[test]
fn a_number_key_switching_to_a_pane_loads_it() {
    let mut player = CommandLog::new();
    let mut s = AppState::default();
    let task = dispatch_input(InputAction::GoTo(4), &mut s, &mut player, &beh());
    assert_eq!(task, Some(Task::LoadAlbums));
    assert_eq!(s.pane, Pane::Albums);
}

#[test]
fn a_number_key_for_the_queue_needs_no_fetch() {
    let mut player = CommandLog::new();
    let mut s = AppState::default();
    assert!(dispatch_input(InputAction::GoTo(7), &mut s, &mut player, &beh()).is_none());
    assert_eq!(s.pane, Pane::Queue);
}

#[test]
fn marked_targets_come_out_in_row_order() {
    let mut s = AppState {
        pane: Pane::Songs,
        tracks: (0..12)
            .map(|i| Track::stub(&format!("v{i:02}"), "T"))
            .collect(),
        ..Default::default()
    };
    for t in s.tracks.clone() {
        s.marked.insert(t.video_id.clone());
    }
    let got: Vec<String> = targets_for_add(&s).iter().map(|v| v.0.clone()).collect();
    let want: Vec<String> = s.tracks.iter().map(|t| t.video_id.0.clone()).collect();
    assert_eq!(got, want, "targets must follow the on-screen order");
}

#[test]
fn a_visual_range_reaches_add_to_playlist_through_the_keymap() {
    let mut player = CommandLog::new();
    let km = KeyMap::new(true);
    let mut s = AppState {
        pane: Pane::Songs,
        focus: Focus::Main,
        tracks: (0..5)
            .map(|i| Track::stub(&format!("v{i}"), "T"))
            .collect(),
        playlists: vec![Playlist::stub("p1", "Focus")],
        ..Default::default()
    };
    let mut press = |s: &mut AppState, c: char| {
            let a = km
            .resolve(
                KeyEvent::plain(KeyCode::Char(c)),
                s.input_focus(),
            )
            .unwrap_or_else(|| panic!("{c:?} is unbound"));
        dispatch_input(a, s, &mut player, &beh())
    };
    press(&mut s, 'V');
    press(&mut s, 'j');
    press(&mut s, 'j');
    assert_eq!(s.marked.len(), 3, "V then j j must mark three rows");
    press(&mut s, 'A');
    match dispatch_input(InputAction::Confirm, &mut s, &mut player, &beh()) {
        Some(Task::Mutate {
            task: MutationTask::AddTracks { videos, .. },
            ..
        }) => {
            let ids: Vec<String> = videos.iter().map(|v| v.0.clone()).collect();
            assert_eq!(ids, vec!["v0", "v1", "v2"], "in order, all three");
        }
        other => panic!("expected AddTracks, got {other:?}"),
    }
}

#[test]
fn hand_marks_and_a_visual_range_add_up_through_the_keymap() {
    let mut player = CommandLog::new();
    let km = KeyMap::new(true);
    let mut s = AppState {
        pane: Pane::Songs,
        focus: Focus::Main,
        tracks: (0..6)
            .map(|i| Track::stub(&format!("v{i}"), "T"))
            .collect(),
        playlists: vec![Playlist::stub("p1", "Focus")],
        ..Default::default()
    };
    let mut press = |s: &mut AppState, c: char| {
            let a = km
            .resolve(
                KeyEvent::plain(KeyCode::Char(c)),
                s.input_focus(),
            )
            .unwrap();
        dispatch_input(a, s, &mut player, &beh())
    };
    press(&mut s, 'v');
    press(&mut s, 'j');
    press(&mut s, 'j');
    press(&mut s, 'V');
    press(&mut s, 'j');
    press(&mut s, 'A');
    match dispatch_input(InputAction::Confirm, &mut s, &mut player, &beh()) {
        Some(Task::Mutate {
            task: MutationTask::AddTracks { videos, .. },
            ..
        }) => {
            let ids: Vec<String> = videos.iter().map(|v| v.0.clone()).collect();
            assert_eq!(ids, vec!["v0", "v2", "v3"]);
        }
        other => panic!("expected AddTracks, got {other:?}"),
    }
}

#[test]
fn a_visual_range_removes_every_selected_track_from_a_playlist() {
    let mut s = open_playlist_with(vec![
        playlist_track("v1", "sv1", "A"),
        playlist_track("v2", "sv2", "B"),
        playlist_track("v3", "sv3", "C"),
        playlist_track("v4", "sv4", "D"),
    ]);
    s.apply(AppEvent::Input(InputAction::ToggleVisual));
    s.apply(AppEvent::Input(InputAction::Down));
    s.apply(AppEvent::Input(InputAction::Down));
    open_remove_confirm(&mut s);
    match &s.modal {
        Some(Modal::Confirm {
            action: ConfirmAction::RemoveTracks { entries, .. },
            ..
        }) => assert_eq!(entries.len(), 3, "all three rows of the range"),
        other => panic!("expected a remove confirm, got {other:?}"),
    }
}

#[test]
fn enter_on_an_album_row_does_not_play_an_invisible_song() {
    let mut player = CommandLog::new();
    let mut s = AppState {
        pane: Pane::Songs,
        focus: Focus::Main,
        tracks: vec![Track::stub("v0", "Left over from Songs")],
        ..Default::default()
    };
    s.apply(AppEvent::Input(InputAction::GoTo(4)));
    assert_eq!(s.pane, Pane::Albums);
    dispatch_input(InputAction::Confirm, &mut s, &mut player, &beh());
    let log = player.commands();
    assert!(
        log.is_empty(),
        "Enter on an album row started audio: {log:?}"
    );
}

#[test]
fn add_to_queue_on_an_album_row_queues_nothing() {
    let mut player = CommandLog::new();
    let mut s = AppState {
        pane: Pane::Songs,
        focus: Focus::Main,
        tracks: vec![Track::stub("v0", "Left over from Songs")],
        ..Default::default()
    };
    s.apply(AppEvent::Input(InputAction::GoTo(4)));
    dispatch_input(InputAction::AddToQueue, &mut s, &mut player, &beh());
    let log = player.commands();
    assert!(log.is_empty(), "`a` on an album row queued a song: {log:?}");
}

#[test]
fn adding_to_the_queue_confirms_with_a_toast() {
    let mut player = CommandLog::new();
    let mut s = AppState {
        pane: Pane::Songs,
        tracks: vec![Track::stub("v1", "Roygbiv")],
        ..Default::default()
    };
    dispatch_input(InputAction::AddToQueue, &mut s, &mut player, &beh());
    assert_eq!(s.toasts.len(), 1, "adding must be acknowledged");
    assert_eq!(s.toasts[0].kind, ToastKind::Success);
    assert!(
        s.toasts[0].text.contains("Roygbiv"),
        "name what was added, got: {}",
        s.toasts[0].text
    );
}

#[test]
fn play_next_confirms_with_its_own_wording() {
    let mut player = CommandLog::new();
    let mut s = AppState {
        pane: Pane::Songs,
        tracks: vec![Track::stub("v1", "Roygbiv")],
        ..Default::default()
    };
    dispatch_input(InputAction::PlayNext, &mut s, &mut player, &beh());
    assert_eq!(s.toasts.len(), 1);
    assert!(
        s.toasts[0].text.to_lowercase().contains("next"),
        "got: {}",
        s.toasts[0].text
    );
}

#[test]
fn adding_a_whole_marked_selection_reports_the_count() {
    let mut player = CommandLog::new();
    let mut s = AppState {
        pane: Pane::Songs,
        tracks: (0..3)
            .map(|i| Track::stub(&format!("v{i}"), "T"))
            .collect(),
        ..Default::default()
    };
    for t in s.tracks.clone() {
        s.marked.insert(t.video_id.clone());
    }
    dispatch_input(InputAction::AddToQueue, &mut s, &mut player, &beh());
    assert!(s.toasts[0].text.contains('3'), "got: {}", s.toasts[0].text);
    match player.commands().first() {
        Some(PlayerCommand::EnqueueBack(ts)) => {
            assert_eq!(ts.len(), 3, "all marked tracks must be queued")
        }
        other => panic!("expected EnqueueBack, got {other:?}"),
    }
}

#[test]
fn adding_with_an_empty_list_says_nothing_rather_than_lying() {
    let mut player = CommandLog::new();
    let mut s = AppState {
        pane: Pane::Songs,
        ..Default::default()
    };
    dispatch_input(InputAction::AddToQueue, &mut s, &mut player, &beh());
    assert!(s.toasts.is_empty(), "nothing was added, so say nothing");
    assert!(player.commands().is_empty());
}

#[test]
fn the_bundled_example_config_parses() {
    let c = Config::from_toml_str(EXAMPLE_TOML)
        .expect("config.example.toml must parse");
    let d = Config::default();
    assert_eq!(c.playback.volume, d.playback.volume);
    assert_eq!(c.behaviour.seek_step_secs, d.behaviour.seek_step_secs);
    assert_eq!(c.behaviour.volume_step, d.behaviour.volume_step);
    assert_eq!(c.ui.tick_ms, d.ui.tick_ms);
    assert_eq!(c.ui.theme, d.ui.theme);
    assert_eq!(c.ui.auto_reload_theme, d.ui.auto_reload_theme);
}

#[test]
fn every_commented_keybinding_in_the_example_names_a_real_action() {
    let mut checked = 0;
    for line in EXAMPLE_TOML.lines() {
        let l = line.trim().trim_start_matches('#').trim();
        let Some((name, _)) = l.split_once(" = ") else {
            continue;
        };
        if !l.contains('"') || name.contains('.') {
            continue;
        }
        if KeyMap::action_names().contains(&name) {
            checked += 1;
        }
    }
    assert!(
        checked >= 25,
        "expected the example to document the bindings, matched {checked}"
    );
}

#[test]
fn reloading_applies_a_rebound_key_and_a_new_theme() {
    let r = reloaded(
        r#"
        [ui]
        theme = "gruvbox"
        [keys]
        toggle_visual = "z"
        "#,
    )
    .expect("valid config must reload");
    assert_eq!(r.theme_name, "gruvbox");
    assert_eq!(
        r.keymap.resolve(
            KeyEvent::plain(KeyCode::Char('z')),
            Focus::Main
        ),
        Some(InputAction::ToggleVisual)
    );
}

#[test]
fn reloading_a_broken_config_is_an_error_rather_than_a_reset() {
    assert!(reloaded("[ui]\ntheme = \"no-such-theme\"").is_err());
    assert!(reloaded("this is not toml").is_err());
    assert!(reloaded("[behaviour]\nvolume_step = 0").is_err());
}

#[test]
fn reloading_config_includes_custom_theme_and_auto_reload_flag() {
    let toml = "[ui]\ntheme_file = \"/tmp/ytm-test/theme.toml\"\nauto_reload_theme = true";
    let file = Some(Ok("accent = \"#112233\"".to_owned()));
    let r = reload_config(toml, None, file, None)
        .expect("valid config with theme_file must reload");
    assert_eq!(r.theme_name, "custom");
    assert!(r.custom_theme.is_some());
    assert_eq!(r.theme_file, Some("/tmp/ytm-test/theme.toml".to_owned()));
    assert!(r.auto_reload_theme);
}

#[test]
fn theme_file_update_detects_changes_and_ignores_unchanged_or_invalid() {
    let mut last_mtime = None;
    let t1 = check_theme_file_update("accent = \"#112233\"", 7, &mut last_mtime);
    assert!(t1.is_some());
    assert_eq!(
        t1.unwrap().accent,
        Color { r: 0x11, g: 0x22, b: 0x33 }
    );

    let t2 = check_theme_file_update("accent = \"#112233\"", 7, &mut last_mtime);
    assert!(t2.is_none());

    let t3 = check_theme_file_update("invalid toml {]", 8, &mut last_mtime);
    assert!(t3.is_none());
    assert_eq!(last_mtime, Some(7), "a file still being written is looked at again");
}

#[test]
fn pressing_add_to_queue_on_playlist_row_dispatches_enqueue_playlist() {
    let mut player = CommandLog::new();
    let mut state = AppState {
        pane: Pane::Playlists,
        open_playlist: None,
        selected: 0,
        playlists: vec![Playlist {
            track_count: Some(2),
            ..Playlist::stub("p1", "Test Playlist")
        }],
        ..Default::default()
    };

    let task = dispatch_input(InputAction::AddToQueue, &mut state, &mut player, &beh());

    assert_eq!(
        task,
        Some(Task::EnqueuePlaylist {
            id: PlaylistId::from("p1"),
            title: "Test Playlist".to_owned(),
            play_next: false,
        })
    );
    assert!(state.loading);
}

#[test]
fn pressing_play_next_on_playlist_row_dispatches_enqueue_playlist_next() {
    let mut player = CommandLog::new();
    let mut state = AppState {
        pane: Pane::Playlists,
        open_playlist: None,
        selected: 0,
        playlists: vec![Playlist {
            track_count: Some(2),
            ..Playlist::stub("p1", "Test Playlist")
        }],
        ..Default::default()
    };

    let task = dispatch_input(InputAction::PlayNext, &mut state, &mut player, &beh());

    assert_eq!(
        task,
        Some(Task::EnqueuePlaylist {
            id: PlaylistId::from("p1"),
            title: "Test Playlist".to_owned(),
            play_next: true,
        })
    );
    assert!(state.loading);
}

#[test]
fn try_spawn_enqueue_playlist_from_cache() {
    let mut cache = Cache::open_in_memory();
    let pid = PlaylistId::from("p1");
    cache.save_playlist_tracks(&pid, &vec![Track::stub("t1", "Track 1")]);
    let mut state = AppState {
        loading: true,
        ..Default::default()
    };

    let started = try_spawn(
        Task::EnqueuePlaylist {
            id: pid,
            title: "Test Playlist".to_owned(),
            play_next: false,
        },
        false,
        &mut state,
        Some(&cache),
        false,
    );

    assert!(!state.loading);
    match started {
        Spawn::Event(AppEvent::EnqueueTracks {
            tracks,
            play_next,
            toast,
        }) => {
            assert_eq!(tracks.len(), 1);
            assert!(!play_next);
            assert!(toast.unwrap().contains("Test Playlist"));
        }
        other => panic!("expected EnqueueTracks, got {:?}", other),
    }
}

#[test]
fn try_spawn_enqueue_playlist_from_source() {
    let mut src = MockSource::new().with_tracks(vec![Track::stub("t1", "Track 1")]);
    let pid = PlaylistId::from("p1");
    let mut state = AppState {
        loading: true,
        ..Default::default()
    };

    let started = try_spawn(
        Task::EnqueuePlaylist {
            id: pid,
            title: "Test Playlist".to_owned(),
            play_next: true,
        },
        true,
        &mut state,
        None,
        false,
    );
    let Spawn::FetchPlaylist { id, title, play_next } = started else {
        panic!("expected a fetch, got {started:?}");
    };
    let fetched = src.playlist_tracks(&id);
    let (_kept, ev) = playlist_fetched(id, &title, play_next, fetched);
    match ev {
        AppEvent::EnqueueTracks {
            tracks,
            play_next,
            toast,
        } => {
            assert_eq!(tracks.len(), 1);
            assert!(play_next);
            assert!(toast.unwrap().contains("Test Playlist"));
        }
        other => panic!("expected EnqueueTracks, got {:?}", other),
    }
}

#[test]
fn pressing_d_dispatches_download_job_with_toast() {
    let mut player = CommandLog::new();
    let mut state = AppState {
        tracks: vec![Track::stub("dl_track", "Download Track")],
        selected: 0,
        pane: Pane::Songs,
        ..Default::default()
    };

    let task = dispatch_input(InputAction::Download, &mut state, &mut player, &beh());

    assert!(state.toasts.iter().any(|t| t.text.contains("Downloading")));
    assert!(matches!(task, Some(Task::Download(_))));
}

#[test]
fn pressing_d_with_marked_tracks_dispatches_all_marked_tracks() {
    let mut player = CommandLog::new();
    let mut state = AppState {
        tracks: vec![
            Track::stub("t1", "Track 1"),
            Track::stub("t2", "Track 2"),
            Track::stub("t3", "Track 3"),
        ],
        selected: 0,
        pane: Pane::Songs,
        ..Default::default()
    };
    state.marked.insert(VideoId::from("t1"));
    state.marked.insert(VideoId::from("t3"));

    let task = dispatch_input(InputAction::Download, &mut state, &mut player, &beh());

    assert!(
        state
            .toasts
            .iter()
            .any(|t| t.text.contains("Downloading 2 tracks"))
    );
    assert!(state.marked.is_empty(), "marks must be cleared");
    match task {
        Some(Task::Download(tracks)) => {
            assert_eq!(tracks.len(), 2);
            assert_eq!(tracks[0].video_id.as_str(), "t1");
            assert_eq!(tracks[1].video_id.as_str(), "t3");
        }
        other => panic!("expected Download task, got {:?}", other),
    }
}

#[test]
fn pressing_x_on_downloads_pane_removes_track_and_returns_delete_task() {
    let mut player = CommandLog::new();
    let mut state = AppState {
        downloaded_tracks: vec![
            Track::stub("t1", "Track 1"),
            Track::stub("t2", "Track 2"),
        ],
        selected: 0,
        pane: Pane::Downloads,
        ..Default::default()
    };

    let task = dispatch_input(
        InputAction::RemoveFromPlaylist,
        &mut state,
        &mut player,
        &beh(),
    );

    assert_eq!(state.downloaded_tracks.len(), 1);
    assert_eq!(state.downloaded_tracks[0].video_id.as_str(), "t2");
    assert!(
        state
            .toasts
            .iter()
            .any(|t| t.text.contains("Deleted \"Track 1\" from downloads"))
    );
    match task {
        Some(Task::DeleteDownloads(tracks)) => {
            assert_eq!(tracks.len(), 1);
            assert_eq!(tracks[0].video_id.as_str(), "t1");
        }
        other => panic!("expected DeleteDownloads task, got {:?}", other),
    }
}

#[test]
fn preload_from_cache_populates_downloaded_tracks() {
    let mut cache = Cache::open_in_memory();

    let dt = DownloadedTrack {
        video_id: VideoId::from("dl1"),
        title: "Downloaded Title".into(),
        artists: vec!["Artist".into()],
        album: None,
        duration_secs: 180,
        thumbnail_url: None,
        file_path: "/tmp/dl1.opus".into(),
        file_size_bytes: 4096,
        downloaded_at: 1000,
    };
    cache.save_downloaded_track(&dt);

    let mut state = AppState::default();
    preload_from_cache(
        Ok(cache.load_playlists()),
        Ok(cache.load_library_songs()),
        Ok(cache.get_downloaded_tracks()),
        &mut state,
    );

    assert_eq!(state.downloaded_tracks.len(), 1);
    assert_eq!(state.downloaded_tracks[0].video_id.as_str(), "dl1");
    assert_eq!(state.downloaded_tracks[0].title, "Downloaded Title");

}

#[test]
fn cache_writer_handles_save_and_remove_downloaded() {
    let mut cache = Cache::open_in_memory();

    let dt = DownloadedTrack {
        video_id: VideoId::from("w1"),
        title: "Writer Test".into(),
        artists: vec!["Artist".into()],
        album: None,
        duration_secs: 200,
        thumbnail_url: None,
        file_path: "/tmp/w1.opus".into(),
        file_size_bytes: 1024,
        downloaded_at: 2000,
    };

    CacheWork::SaveDownloaded(dt).run(&mut cache);
    assert!(
        cache.is_track_downloaded(&VideoId::from("w1"))
    );

    CacheWork::RemoveDownloaded(VideoId::from("w1")).run(&mut cache);
    assert!(
        !cache.is_track_downloaded(&VideoId::from("w1"))
    );

}
