//! What the user's intents come to: which track is played, which list is opened, what the
//! player is sent and what is asked of the background.

use crate::app::{
    self, ConfirmActionView, HomeRowView, ModalView, PANE_ORDER, Pane, StateView, ToastKind,
};
use crate::app_loop::{self, Step};
use crate::config::BehaviourConfig;
use crate::edits;
use crate::event::InputAction;
use crate::keymap::{self, KeyCode};
use crate::laws_keys::{self, plain};
use crate::model::{HomeTargetView, TrackView};
use crate::player::PlayerCommandView;
use crate::tasks::TaskView;
use crate::text;
use vstd::prelude::*;

verus! {

/// These are the tracks that a pane lists.
pub open spec fn lists(s: StateView, ts: Seq<TrackView>) -> bool {
    ||| s.pane is Songs && ts == s.tracks
    ||| s.pane is Playlists && s.open_playlist is Some && ts == s.tracks
    ||| s.pane is Albums && s.open_album is Some && ts == s.album_tracks
    ||| s.pane is Artists && s.open_artist is Some && ts == s.artist_tracks
    ||| s.pane is Search && ts == s.search_results
    ||| s.pane is Queue && ts == s.queue
    ||| s.pane is Downloads && ts == s.downloaded_tracks
}

/// The cursor is on this row of the list, which the filter shows.
pub open spec fn on(s: StateView, row: int) -> bool {
    s.cursor_row() == Some(row)
}

/// Nothing goes to the player and no work starts.
pub open spec fn idle(step: Step) -> bool {
    step.sent.len() == 0 && step.task is None
}

/// The user is told one thing more, and nothing of what was said before is lost.
pub open spec fn says(before: StateView, after: StateView, kind: ToastKind) -> bool {
    &&& after.toasts.len() == before.toasts.len() + 1
    &&& after.toasts.drop_last() == before.toasts
    &&& after.toasts.last().kind == kind
    &&& after.toasts.last().since_ms == before.elapsed_ms
}

/// What is marked is no longer marked, and no range is under way.
pub open spec fn has_no_marks(s: StateView) -> bool {
    s.marked == Set::<Seq<char>>::empty() && s.visual_anchor is None && s.marks_before_visual
        == Set::<Seq<char>>::empty()
}

/// The library, the lists that are open and the queue are the same.
pub open spec fn same_lists(a: StateView, b: StateView) -> bool {
    &&& a.playlists == b.playlists
    &&& a.tracks == b.tracks
    &&& a.albums == b.albums
    &&& a.artists == b.artists
    &&& a.home_rows == b.home_rows
    &&& a.artist_tracks == b.artist_tracks
    &&& a.album_tracks == b.album_tracks
    &&& a.search_results == b.search_results
    &&& a.downloaded_tracks == b.downloaded_tracks
    &&& a.queue == b.queue
    &&& a.queue_current == b.queue_current
}

/// The track under the cursor is the one in that row of the list.
pub proof fn the_cursor_names_the_row_it_is_on(s: StateView, ts: Seq<TrackView>, row: int)
    requires
        lists(s, ts),
        on(s, row),
    ensures
        s.selected_track() == Some(ts[row]),
        s.selected_playlist() is None,
        s.selected_artist() is None,
        s.selected_album() is None,
        s.selected_home_item() is None,
{
}

/// Without a filter every row is on screen, and the cursor is on the row of its number.
pub proof fn without_a_filter_every_row_shows(s: StateView)
    requires
        s.filter.len() == 0,
    ensures
        s.visible().len() == s.row_titles().len(),
        forall|i: int| 0 <= i < s.visible().len() ==> #[trigger] s.visible()[i] == i,
        s.selected < s.row_titles().len() ==> on(s, s.selected as int),
{
    let rows = s.row_titles();
    let keep = Seq::new(rows.len(), |i: int| text::passes(s.filter, rows[i]));
    assert forall|i: int| 0 <= i < keep.len() implies keep[i] by {
        assert(text::passes(s.filter, rows[i]));
    }
    lemma_all_kept(keep);
}

proof fn lemma_all_kept(keep: Seq<bool>)
    requires
        forall|i: int| 0 <= i < keep.len() ==> keep[i],
    ensures
        app::kept(keep).len() == keep.len(),
        forall|i: int| 0 <= i < keep.len() ==> #[trigger] app::kept(keep)[i] == i,
    decreases keep.len(),
{
    if keep.len() > 0 {
        let rest = keep.drop_last();
        assert forall|i: int| 0 <= i < rest.len() implies rest[i] by {
            assert(keep[i]);
        }
        lemma_all_kept(rest);
        assert forall|i: int| 0 <= i < keep.len() implies #[trigger] app::kept(keep)[i] == i by {
            if i < rest.len() {
                assert(app::kept(keep)[i] == app::kept(rest)[i]);
            }
        }
    }
}

proof fn lemma_kept_all(keep: Seq<bool>, i: int)
    requires
        0 <= i < keep.len(),
        keep[i],
    ensures
        app::kept(keep).contains(i),
    decreases keep.len(),
{
    let rest = keep.drop_last();
    if i < rest.len() {
        lemma_kept_all(rest, i);
        let k = choose|k: int| 0 <= k < app::kept(rest).len() && app::kept(rest)[k] == i;
        assert(app::kept(keep)[k] == i);
    } else {
        assert(app::kept(keep)[app::kept(keep).len() - 1] == i);
    }
}

/// A filter shows the rows whose title has it as a part, whatever the case of the letters,
/// and no others, in the order of the list.
pub proof fn a_filter_shows_the_rows_it_names(s: StateView, row: int)
    requires
        0 <= row < s.row_titles().len(),
    ensures
        s.visible().contains(row) <==> text::passes(s.filter, s.row_titles()[row]),
        forall|j: int, k: int|
            0 <= j < k < s.visible().len() ==> #[trigger] s.visible()[j] < #[trigger] s.visible()[k],
{
    let rows = s.row_titles();
    let keep = Seq::new(rows.len(), |i: int| text::passes(s.filter, rows[i]));
    app::lemma_kept(keep);
    if keep[row] {
        lemma_kept_all(keep, row);
    }
}

/// Pressing Enter on a track plays that track, and does nothing else. In the queue it is
/// played where it stands.
pub proof fn enter_plays_the_track_under_the_cursor(
    s: StateView,
    m: Map<char, InputAction>,
    b: BehaviourConfig,
    ts: Seq<TrackView>,
    row: int,
)
    requires
        s.modal is None,
        lists(s, ts),
        on(s, row),
    ensures
        keymap::resolved(m, plain(KeyCode::Enter), s.input_focus()) matches Some(a) && ({
            let step = s.dispatched(a, b);
            &&& step.state == s
            &&& step.task is None
            &&& step.sent == if s.pane is Queue {
                seq![PlayerCommandView::JumpTo(row as usize)]
            } else {
                seq![PlayerCommandView::PlayNow(ts[row])]
            }
        }),
{
    reveal(StateView::entered);
    reveal(StateView::descended);
    laws_keys::enter_confirms_and_escape_cancels(m, s.input_focus());
}

/// Pressing Enter on a playlist, an artist or an album asks for what is in it, and shows
/// that it does. Nothing is played.
pub proof fn enter_opens_what_is_no_track(
    s: StateView,
    m: Map<char, InputAction>,
    b: BehaviourConfig,
    row: int,
)
    requires
        s.modal is None,
        on(s, row),
        (s.pane is Playlists && s.open_playlist is None) || (s.pane is Artists && s.open_artist
            is None) || (s.pane is Albums && s.open_album is None),
    ensures
        keymap::resolved(m, plain(KeyCode::Enter), s.input_focus()) matches Some(a) && ({
            let step = s.dispatched(a, b);
            &&& step.sent.len() == 0
            &&& step.state == (StateView { loading: true, ..s })
            &&& step.task == Some(
                if s.pane is Playlists {
                    TaskView::OpenPlaylist(s.playlists[row].id)
                } else if s.pane is Artists {
                    TaskView::OpenArtist { id: s.artists[row].id, name: s.artists[row].name }
                } else {
                    TaskView::OpenAlbum { id: s.albums[row].id, name: s.albums[row].title }
                },
            )
        }),
{
    reveal(StateView::entered);
    reveal(StateView::descended);
    laws_keys::enter_confirms_and_escape_cancels(m, s.input_focus());
}

/// Pressing Enter on a card of the home feed plays the track it stands for, or asks for
/// the list it stands for in the pane of such lists. On a heading it does nothing.
pub proof fn enter_on_a_card(
    s: StateView,
    m: Map<char, InputAction>,
    b: BehaviourConfig,
    row: int,
)
    requires
        s.modal is None,
        s.pane is Home,
        !s.guest,
        on(s, row),
    ensures
        keymap::resolved(m, plain(KeyCode::Enter), s.input_focus()) matches Some(a) && ({
            let step = s.dispatched(a, b);
            match s.home_rows[row] {
                HomeRowView::Shelf(_) => step.state == s && idle(step),
                HomeRowView::Item(item) => match item.target {
                    HomeTargetView::Track(id) => step.state == s && step.task is None
                        && step.sent.len() == 1 && (step.sent[0] matches PlayerCommandView::PlayNow(t)
                        && t.video_id == id && t.title == item.title && t.thumbnail_url
                        == item.thumbnail_url),
                    HomeTargetView::Playlist(id) => step.sent.len() == 0 && step.state.pane
                        is Playlists && step.state.loading && step.task == Some(
                        TaskView::OpenPlaylist(id),
                    ),
                    HomeTargetView::Artist(id) => step.sent.len() == 0 && step.state.pane is Artists
                        && step.state.loading && step.task == Some(
                        TaskView::OpenArtist { id, name: item.title },
                    ),
                    HomeTargetView::Album(id) => step.sent.len() == 0 && step.state.pane is Albums
                        && step.state.loading && step.task == Some(
                        TaskView::OpenAlbum { id, name: item.title },
                    ),
                },
            }
        }),
{
    reveal(StateView::entered);
    reveal(StateView::descended);
    reveal(StateView::at_source);
    reveal(StateView::unmarked);
    laws_keys::enter_confirms_and_escape_cancels(m, s.input_focus());
}

/// Where there is nothing under the cursor, Enter does nothing.
pub proof fn enter_on_nothing_does_nothing(s: StateView, b: BehaviourConfig)
    requires
        s.modal is None,
        s.cursor_row() is None,
    ensures
        s.dispatched(InputAction::Confirm, b).state == s,
        idle(s.dispatched(InputAction::Confirm, b)),
{
    reveal(StateView::entered);
    reveal(StateView::descended);
}

/// Going right opens what Enter opens, and never plays anything.
pub proof fn going_right_opens_and_never_plays(s: StateView, b: BehaviourConfig)
    requires
        s.modal is None,
    ensures
        s.dispatched(InputAction::Right, b).sent.len() == 0,
        s.dispatched(InputAction::Right, b).task == s.dispatched(InputAction::Confirm, b).task,
        s.dispatched(InputAction::Right, b).task is Some ==> s.dispatched(
            InputAction::Right,
            b,
        ).state == s.dispatched(InputAction::Confirm, b).state,
{
    reveal(StateView::entered);
    reveal(StateView::forward);
    reveal(StateView::descended);
}

/// What is chosen: the one row under the cursor, where nothing is marked.
pub proof fn without_marks_one_row_is_chosen(s: StateView, ts: Seq<TrackView>, row: int)
    requires
        lists(s, ts),
        on(s, row),
        s.marked == Set::<Seq<char>>::empty(),
    ensures
        s.targets() == seq![ts[row]],
{
}

/// What is chosen where something is marked: every marked track of the list, and no other.
pub proof fn with_marks_exactly_those_are_chosen(s: StateView, ts: Seq<TrackView>, t: TrackView)
    requires
        lists(s, ts),
        s.marked != Set::<Seq<char>>::empty(),
    ensures
        s.targets().contains(t) <==> ts.contains(t) && s.marked.contains(t.video_id),
        s.targets().len() <= ts.len(),
{
    lemma_chosen(ts, s.marked, t);
}

proof fn lemma_chosen(rows: Seq<TrackView>, marked: Set<Seq<char>>, t: TrackView)
    ensures
        edits::chosen(rows, marked).contains(t) <==> rows.contains(t) && marked.contains(t.video_id),
        edits::chosen(rows, marked).len() <= rows.len(),
    decreases rows.len(),
{
    if rows.len() > 0 {
        let rest = rows.drop_last();
        lemma_chosen(rest, marked, t);
        assert(rows =~= rest.push(rows.last()));
        lemma_pushed(rest, rows.last(), t);
        lemma_pushed(edits::chosen(rest, marked), rows.last(), t);
    }
}

proof fn lemma_pushed(s: Seq<TrackView>, x: TrackView, t: TrackView)
    ensures
        s.push(x).contains(t) <==> s.contains(t) || x == t,
{
    if s.contains(t) {
        let i = choose|i: int| 0 <= i < s.len() && s[i] == t;
        assert(s.push(x)[i] == t);
    }
    if x == t {
        assert(s.push(x)[s.len() as int] == t);
    }
}

/// What is chosen goes to the player: behind what is to come, or right behind what plays.
/// The user is told, and the marks are used up.
pub proof fn what_is_chosen_is_queued(s: StateView, b: BehaviourConfig, ts: Seq<TrackView>)
    requires
        s.modal is None,
        lists(s, ts),
        s.targets().len() > 0,
    ensures
        ({
            let last = s.dispatched(InputAction::AddToQueue, b);
            let next = s.dispatched(InputAction::PlayNext, b);
            &&& last.sent == seq![PlayerCommandView::EnqueueBack(s.targets())]
            &&& next.sent == seq![PlayerCommandView::EnqueueNext(s.targets())]
            &&& last.task is None && next.task is None
            &&& has_no_marks(last.state) && has_no_marks(next.state)
            &&& says(s, last.state, ToastKind::Success) && says(s, next.state, ToastKind::Success)
            &&& same_lists(s, last.state) && same_lists(s, next.state)
        }),
{
    reveal(StateView::enqueued);
    reveal(StateView::told);
    reveal(StateView::toasted);
    reveal(StateView::unmarked);
    let toasts = s.dispatched(InputAction::AddToQueue, b).state.toasts;
    assert(toasts.drop_last() =~= s.toasts);
    let toasts = s.dispatched(InputAction::PlayNext, b).state.toasts;
    assert(toasts.drop_last() =~= s.toasts);
}

/// A whole playlist or album is queued from its row: its tracks are asked for, to go where
/// they were to go.
pub proof fn a_whole_list_is_queued_from_its_row(
    s: StateView,
    b: BehaviourConfig,
    row: int,
    next: bool,
)
    requires
        s.modal is None,
        on(s, row),
        (s.pane is Playlists && s.open_playlist is None) || (s.pane is Albums && s.open_album
            is None),
    ensures
        ({
            let a = if next {
                InputAction::PlayNext
            } else {
                InputAction::AddToQueue
            };
            let step = s.dispatched(a, b);
            &&& step.sent.len() == 0
            &&& step.state == (StateView { loading: true, ..s })
            &&& step.task == Some(
                if s.pane is Playlists {
                    TaskView::EnqueuePlaylist {
                        id: s.playlists[row].id,
                        title: s.playlists[row].title,
                        play_next: next,
                    }
                } else {
                    TaskView::EnqueueAlbum {
                        id: s.albums[row].id,
                        title: s.albums[row].title,
                        play_next: next,
                    }
                },
            )
        }),
{
    reveal(StateView::enqueued);
}

/// The keys of the player send it one command each, and start no work.
pub proof fn the_player_gets_what_is_asked_of_it(s: StateView, b: BehaviourConfig)
    requires
        s.modal is None,
    ensures
        s.dispatched(InputAction::TogglePause, b) == (Step {
            state: s,
            sent: seq![PlayerCommandView::TogglePause],
            task: None,
        }),
        s.dispatched(InputAction::NextTrack, b) == (Step {
            state: s,
            sent: seq![PlayerCommandView::Next],
            task: None,
        }),
        s.dispatched(InputAction::PrevTrack, b) == (Step {
            state: s,
            sent: seq![PlayerCommandView::Previous],
            task: None,
        }),
{
    reveal(StateView::transported);
}

/// Going forward within a track and going back are by the same time, in opposite
/// directions.
pub proof fn seeking_back_is_seeking_forward_turned_round(s: StateView, b: BehaviourConfig)
    requires
        s.modal is None,
        b.seek_step_secs > i64::MIN,
    ensures
        ({
            let on = s.dispatched(InputAction::SeekForward, b);
            let back = s.dispatched(InputAction::SeekBack, b);
            &&& on.state == s && back.state == s
            &&& on.task is None && back.task is None
            &&& on.sent.len() == 1 && back.sent.len() == 1
            &&& on.sent[0] == PlayerCommandView::SeekRelative(b.seek_step_secs)
            &&& back.sent[0] matches PlayerCommandView::SeekRelative(secs) && secs
                + b.seek_step_secs == 0
        }),
{
    reveal(StateView::transported);
}

/// Louder is never softer, softer never louder, both stay on the scale, and what shows is
/// what the player is sent. Where no end of the scale is in the way, one undoes the other.
pub proof fn louder_and_softer_are_opposites(s: StateView, b: BehaviourConfig)
    requires
        s.modal is None,
        s.volume <= 100,
        b.volume_step >= 0,
    ensures
        ({
            let up = s.dispatched(InputAction::VolumeUp, b);
            let down = s.dispatched(InputAction::VolumeDown, b);
            &&& down.state.volume <= s.volume <= up.state.volume <= 100
            &&& up.sent == seq![PlayerCommandView::SetVolume(up.state.volume)]
            &&& down.sent == seq![PlayerCommandView::SetVolume(down.state.volume)]
            &&& s.volume + b.volume_step <= 100 ==> up.state.volume == s.volume + b.volume_step
                && up.state.dispatched(InputAction::VolumeDown, b).state == s
            &&& s.volume >= b.volume_step ==> down.state.volume == s.volume - b.volume_step
                && down.state.dispatched(InputAction::VolumeUp, b).state == s
        }),
{
    reveal(StateView::transported);
    reveal(StateView::louder);
}

/// Mute and shuffle are their own undoing, repeat comes round after three steps, and the
/// player is told the mode that shows.
pub proof fn what_shows_is_what_the_player_is_told(s: StateView, b: BehaviourConfig)
    requires
        s.modal is None,
    ensures
        ({
            let muted = s.dispatched(InputAction::ToggleMute, b);
            let shuffled = s.dispatched(InputAction::ToggleShuffle, b);
            let repeated = s.dispatched(InputAction::CycleRepeat, b);
            let twice = repeated.state.dispatched(InputAction::CycleRepeat, b);
            &&& muted.sent == seq![PlayerCommandView::ToggleMute] && muted.state.muted != s.muted
            &&& muted.state.dispatched(InputAction::ToggleMute, b).state == s
            &&& shuffled.sent == seq![PlayerCommandView::SetShuffle(shuffled.state.shuffle)]
            &&& shuffled.state.shuffle != s.shuffle
            &&& shuffled.state.dispatched(InputAction::ToggleShuffle, b).state == s
            &&& repeated.sent == seq![PlayerCommandView::SetRepeat(repeated.state.repeat)]
            &&& repeated.state.repeat != s.repeat && twice.state.repeat != s.repeat
            &&& twice.state.repeat != repeated.state.repeat
            &&& twice.state.dispatched(InputAction::CycleRepeat, b).state == s
            &&& s.repeat is Off ==> repeated.state.repeat is One && twice.state.repeat is All
            &&& muted.task is None && shuffled.task is None && repeated.task is None
        }),
{
    reveal(StateView::transported);
}

/// Quitting is at once, or asks first where it is to; then yes, Enter or the same key again
/// quits, and no stays. Control and `c` never asks.
pub proof fn quitting(s: StateView, b: BehaviourConfig)
    requires
        s.modal is None,
        !s.should_quit,
    ensures
        s.dispatched(InputAction::ForceQuit, b).state.should_quit,
        ({
            let asked = s.dispatched(InputAction::Quit, b);
            &&& idle(asked)
            &&& asked.state.should_quit == !b.confirm_on_quit
            &&& b.confirm_on_quit ==> {
                &&& asked.state.modal is Some
                &&& asked.state.dispatched(InputAction::Char('y'), b).state.should_quit
                &&& asked.state.dispatched(InputAction::Confirm, b).state.should_quit
                &&& asked.state.dispatched(InputAction::Quit, b).state.should_quit
                &&& asked.state.dispatched(InputAction::ForceQuit, b).state.should_quit
                &&& asked.state.dispatched(InputAction::Char('n'), b).state == s
                &&& asked.state.dispatched(InputAction::Cancel, b).state == s
            }
        }),
{
    reveal(StateView::transported);
    reveal(StateView::in_modal);
    reveal(StateView::after);
    reveal(StateView::after_input);
    reveal(StateView::answered);
}

/// Emptying the queue is for the queue's own pane: there the player is sent it, elsewhere
/// nothing happens.
pub proof fn the_queue_is_emptied_where_it_is_seen(s: StateView, b: BehaviourConfig)
    requires
        s.modal is None,
    ensures
        ({
            let step = s.dispatched(InputAction::ClearQueue, b);
            if s.pane is Queue {
                step.sent == seq![PlayerCommandView::ClearQueue] && step.task is None
                    && has_no_marks(step.state) && same_lists(s, step.state)
            } else {
                step.state == s && idle(step)
            }
        }),
{
    reveal(StateView::arranged);
    reveal(StateView::queue_cleared);
    reveal(StateView::unmarked);
}

/// One entry under the cursor is taken out of the queue, or moved by one place with the
/// cursor on it; at the end of the queue it stays.
pub proof fn one_entry_of_the_queue_is_edited(s: StateView, b: BehaviourConfig, row: int)
    requires
        s.modal is None,
        s.pane is Queue,
        on(s, row),
        0 <= row < s.queue.len() <= usize::MAX,
        s.marked == Set::<Seq<char>>::empty(),
    ensures
        s.dispatched(InputAction::RemoveFromPlaylist, b).sent == seq![
            PlayerCommandView::RemoveFromQueue(row as usize),
        ],
        ({
            let down = s.dispatched(InputAction::MoveEntryDown, b);
            if row + 1 < s.queue.len() {
                down.sent == seq![
                    PlayerCommandView::MoveInQueue { from: row as usize, to: (row + 1) as usize },
                ]
            } else {
                down.state == s && idle(down)
            }
        }),
        ({
            let up = s.dispatched(InputAction::MoveEntryUp, b);
            if row > 0 {
                up.sent == seq![
                    PlayerCommandView::MoveInQueue { from: row as usize, to: (row - 1) as usize },
                ]
            } else {
                up.state == s && idle(up)
            }
        }),
{
    reveal(StateView::arranged);
    reveal(StateView::dequeued);
    reveal(StateView::shifted);
    assert(s.queue_places() =~= seq![row]);
    assert(s.dispatched(InputAction::RemoveFromPlaylist, b).sent =~= seq![
        PlayerCommandView::RemoveFromQueue(row as usize),
    ]);
    if row + 1 < s.queue.len() {
        assert(s.dispatched(InputAction::MoveEntryDown, b).sent =~= seq![
            PlayerCommandView::MoveInQueue { from: row as usize, to: (row + 1) as usize },
        ]);
    }
    if row > 0 {
        assert(s.dispatched(InputAction::MoveEntryUp, b).sent =~= seq![
            PlayerCommandView::MoveInQueue { from: row as usize, to: (row - 1) as usize },
        ]);
    }
}

/// Downloads that are removed are off the list at once, and exactly their files are to be
/// deleted; the other rows stay.
pub proof fn removed_downloads_are_gone(s: StateView, b: BehaviourConfig, t: TrackView)
    requires
        s.modal is None,
        s.pane is Downloads,
        s.targets().len() > 0,
    ensures
        ({
            let step = s.dispatched(InputAction::RemoveFromPlaylist, b);
            let kept = step.state.downloaded_tracks;
            &&& step.task == Some(TaskView::DeleteDownloads(s.targets()))
            &&& step.sent.len() == 0
            &&& s.targets().contains(t) ==> !kept.contains(t)
            &&& kept.contains(t) ==> s.downloaded_tracks.contains(t)
            &&& (s.downloaded_tracks.contains(t) && !app_loop::names(s.targets(), t.video_id))
                ==> kept.contains(t)
            &&& has_no_marks(step.state)
            &&& says(s, step.state, ToastKind::Success)
        }),
{
    reveal(StateView::arranged);
    reveal(StateView::undownloaded);
    reveal(StateView::told);
    reveal(StateView::toasted);
    reveal(StateView::unmarked);
    reveal(StateView::clamped);
    assert(s.doomed() == s.targets());
    lemma_left(s.downloaded_tracks, s.targets(), t);
    let after = s.dispatched(InputAction::RemoveFromPlaylist, b).state.toasts;
    assert(after.drop_last() =~= s.toasts);
    if s.targets().contains(t) {
        let i = choose|i: int| 0 <= i < s.targets().len() && s.targets()[i] == t;
        assert(s.targets()[i].video_id == t.video_id);
    }
}

proof fn lemma_left(ts: Seq<TrackView>, gone: Seq<TrackView>, t: TrackView)
    ensures
        app_loop::without_tracks(ts, gone).contains(t) <==> ts.contains(t) && !app_loop::names(
            gone,
            t.video_id,
        ),
    decreases ts.len(),
{
    if ts.len() > 0 {
        let rest = ts.drop_last();
        lemma_left(rest, gone, t);
        assert(ts =~= rest.push(ts.last()));
        lemma_pushed(rest, ts.last(), t);
        lemma_pushed(app_loop::without_tracks(rest, gone), ts.last(), t);
    }
}

/// What is chosen is to be downloaded, and nothing else; where nothing is chosen, that is
/// said. Nothing goes to the player.
pub proof fn what_is_chosen_is_downloaded(s: StateView, b: BehaviourConfig)
    requires
        s.modal is None,
    ensures
        ({
            let step = s.dispatched(InputAction::Download, b);
            &&& step.sent.len() == 0
            &&& same_lists(s, step.state)
            &&& s.targets().len() == 0 ==> step.task is None && says(s, step.state, ToastKind::Error)
            &&& s.targets().len() > 0 ==> step.task == Some(TaskView::Download(s.targets())) && says(
                s,
                step.state,
                ToastKind::Info,
            ) && has_no_marks(step.state)
        }),
{
    reveal(StateView::downloading);
    reveal(StateView::told);
    reveal(StateView::toasted);
    reveal(StateView::unmarked);
    let after = s.dispatched(InputAction::Download, b).state.toasts;
    assert(after.drop_last() =~= s.toasts);
}

/// Marks and cursor movements ask nothing of anybody.
pub proof fn looking_round_asks_for_nothing(s: StateView, b: BehaviourConfig, a: InputAction)
    requires
        s.modal is None,
        a is Up || a is Down || a is PageUp || a is PageDown || a is Home || a is End || a is Left
            || a is Cancel || a is ToggleMark || a is ToggleVisual || a is OpenFilter || a
            is OpenHelp || a is CenterOnCursor || a is FocusCurrent || a is ScrollUp || a
            is ScrollDown || a is Char || a is Backspace,
    ensures
        idle(s.dispatched(a, b)),
{
    reveal(StateView::transported);
}

/// Another source is opened with its number: its pane shows, from the top and without
/// what was open, and its rows are asked for. The same key again asks again.
pub proof fn a_source_is_opened_by_its_number(s: StateView, b: BehaviourConfig, n: u8)
    requires
        s.modal is None,
        !s.guest,
        1 <= n <= 8,
    ensures
        ({
            let step = s.dispatched(InputAction::GoTo(n), b);
            &&& step.state.pane == if n == 1 {
                Pane::Home
            } else if n == 2 {
                Pane::Playlists
            } else if n == 3 {
                Pane::Songs
            } else if n == 4 {
                Pane::Albums
            } else if n == 5 {
                Pane::Artists
            } else if n == 6 {
                Pane::Search
            } else if n == 7 {
                Pane::Queue
            } else {
                Pane::Downloads
            }
            &&& step.state.sidebar_selected + 1 == n
            &&& step.state.selected == 0 && step.state.scroll_offset == 0
            &&& step.state.filter.len() == 0
            &&& step.state.open_playlist is None && step.state.open_artist is None
            &&& step.state.open_album is None
            &&& same_lists(s, step.state)
            &&& has_no_marks(step.state)
            &&& step.sent.len() == 0
            &&& step.task is Some <==> n != 6 && n != 7
            &&& step.task is Some ==> step.state.loading
            &&& step.task == step.state.dispatched(InputAction::Refresh, b).task
        }),
{
    reveal(StateView::gone_to);
    reveal(StateView::after);
    reveal(StateView::after_input);
    reveal(StateView::navigated);
    reveal(StateView::at_source);
    reveal(StateView::unmarked);
}

/// A guest who goes to a source that takes an account stays, and is told why.
pub proof fn a_guest_stays_out(s: StateView, b: BehaviourConfig, n: u8)
    requires
        s.modal is None,
        s.guest,
        1 <= n <= 8,
    ensures
        ({
            let step = s.dispatched(InputAction::GoTo(n), b);
            if n <= 5 {
                step.state.pane == s.pane && same_lists(s, step.state) && says(
                    s,
                    step.state,
                    ToastKind::Info,
                )
            } else {
                step.state.sidebar_selected + 1 == n && step.state.toasts == s.toasts
            }
        }),
{
    reveal(StateView::gone_to);
    reveal(StateView::after);
    reveal(StateView::after_input);
    reveal(StateView::navigated);
    reveal(StateView::at_source);
    reveal(StateView::unmarked);
    reveal(StateView::refused);
    reveal(StateView::told);
    reveal(StateView::toasted);
    let after = s.dispatched(InputAction::GoTo(n), b).state.toasts;
    if n <= 5 {
        assert(after.drop_last() =~= s.toasts);
    }
}

/// Once an entry is taken out, the cursor is on the one that followed it, or on the last
/// where none did; no mark is left.
pub proof fn the_cursor_stays_where_an_entry_was(s: StateView, b: BehaviourConfig, row: int)
    requires
        s.modal is None,
        s.pane is Queue,
        on(s, row),
        0 <= row < s.queue.len() <= usize::MAX,
        s.marked == Set::<Seq<char>>::empty(),
    ensures
        ({
            let t = s.dispatched(InputAction::RemoveFromPlaylist, b).state;
            &&& row + 1 < s.queue.len() ==> t.selected == row
            &&& row + 1 == s.queue.len() && row > 0 ==> t.selected == row - 1
            &&& s.queue.len() == 1 ==> t.selected == 0
            &&& t.scroll_offset <= t.selected
            &&& s.scroll_offset <= t.selected ==> t.scroll_offset == s.scroll_offset
            &&& has_no_marks(t) && same_lists(s, t) && t.pane == s.pane
        }),
{
    reveal(StateView::arranged);
    reveal(StateView::dequeued);
    reveal(StateView::unmarked);
    assert(s.queue_places() =~= seq![row]);
}

/// The cursor goes along with an entry that is moved, where it is on one that moves, and
/// stays where it is on one that does not. The marks stay.
pub proof fn the_cursor_goes_along(s: StateView, b: BehaviourConfig, down: bool)
    requires
        s.modal is None,
        s.pane is Queue,
        s.can_move(down),
        s.selected < s.queue.len() <= usize::MAX,
    ensures
        ({
            let t = s.dispatched(
                if down {
                    InputAction::MoveEntryDown
                } else {
                    InputAction::MoveEntryUp
                },
                b,
            ).state;
            let moves = s.marked == Set::<Seq<char>>::empty() || s.marked.contains(
                s.queue[s.selected as int].video_id,
            );
            &&& !moves ==> t.selected == s.selected
            &&& moves && down && s.selected < usize::MAX ==> t.selected == s.selected + 1
            &&& moves && !down && s.selected > 0 ==> t.selected == s.selected - 1
            &&& t.marked == s.marked && t.visual_anchor is None && same_lists(s, t)
        }),
{
    reveal(StateView::arranged);
    reveal(StateView::shifted);
}

/// Only the rows of the queue are moved and emptied, and only there; elsewhere those keys do
/// nothing.
pub proof fn only_the_queue_is_arranged(s: StateView, b: BehaviourConfig, a: InputAction)
    requires
        s.modal is None,
        !(s.pane is Queue),
        a is MoveEntryUp || a is MoveEntryDown || a is ClearQueue,
    ensures
        s.dispatched(a, b).state == s,
        idle(s.dispatched(a, b)),
{
    reveal(StateView::arranged);
}

/// A source with a field to type in is opened with the caret there, any other with the
/// cursor in its list; a search among the artists is over.
pub proof fn a_source_is_opened_ready_for_use(s: StateView, b: BehaviourConfig, n: u8)
    requires
        s.modal is None,
        !s.guest,
        1 <= n <= 8,
    ensures
        ({
            let t = s.dispatched(InputAction::GoTo(n), b).state;
            &&& n == 6 ==> t.focus is SearchInput
            &&& n != 6 ==> t.focus is Main
            &&& !t.artist_search_active
            &&& t.search_query == s.search_query && t.modal is None
        }),
{
    reveal(StateView::gone_to);
    reveal(StateView::after);
    reveal(StateView::after_input);
    reveal(StateView::navigated);
    reveal(StateView::at_source);
    reveal(StateView::unmarked);
}

/// A question is answered with a letter in either case, and Enter is yes.
pub proof fn a_question_is_answered_in_either_case(
    s: StateView,
    b: BehaviourConfig,
    question: Seq<char>,
    action: ConfirmActionView,
)
    requires
        s.modal == Some(ModalView::Confirm { text: question, action }),
    ensures
        s.dispatched(InputAction::Char('y'), b) == s.dispatched(InputAction::Char('Y'), b),
        s.dispatched(InputAction::Char('y'), b) == s.dispatched(InputAction::Confirm, b),
        s.dispatched(InputAction::Char('n'), b) == s.dispatched(InputAction::Char('N'), b),
        s.dispatched(InputAction::Char('n'), b).state == (StateView { modal: None, ..s }),
        idle(s.dispatched(InputAction::Char('n'), b)),
        s.dispatched(InputAction::Cancel, b).state == (StateView { modal: None, ..s }),
        idle(s.dispatched(InputAction::Cancel, b)),
        s.dispatched(InputAction::Char('y'), b).state.modal is None,
{
    reveal(StateView::in_modal);
    reveal(StateView::after);
    reveal(StateView::after_input);
    reveal(StateView::answered);
    reveal(StateView::begun);
    reveal(StateView::edited);
    reveal(StateView::clamped);
}

/// What was handed to the player before stays before what is handed to it now.
pub proof fn commands_are_kept_in_their_order(before: Seq<PlayerCommandView>, step: Step)
    ensures
        ({
            let all = app_loop::logged(before, step);
            &&& all.len() == before.len() + step.sent.len()
            &&& all.take(before.len() as int) == before
            &&& all.skip(before.len() as int) == step.sent
        }),
{
    let all = app_loop::logged(before, step);
    assert(all.take(before.len() as int) =~= before);
    assert(all.skip(before.len() as int) =~= step.sent);
}

/// Where nothing under the cursor opens, going right from the sidebar opens the source that
/// the sidebar is on, and from the list it changes nothing.
pub proof fn going_right_leaves_the_sidebar(s: StateView, b: BehaviourConfig)
    requires
        s.modal is None,
        !s.guest,
        s.sidebar_selected < 8,
        s.dispatched(InputAction::Right, b).task is None,
    ensures
        ({
            let t = s.dispatched(InputAction::Right, b).state;
            &&& s.focus is Sidebar ==> t.pane == PANE_ORDER@[s.sidebar_selected as int] && !(t.focus
                is Sidebar) && t.sidebar_selected == s.sidebar_selected
            &&& s.focus is Main ==> t == s
        }),
{
    reveal(StateView::forward);
    reveal(StateView::descended);
    reveal(StateView::after);
    reveal(StateView::after_input);
    reveal(StateView::navigated);
    reveal(StateView::at_source);
    reveal(StateView::unmarked);
}

} // verus!
