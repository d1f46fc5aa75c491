//! What each intent of the user does: to the state, to the player, and to the
//! background work. Nothing here does any of that work itself.

use crate::app::{
    self, AppState, ConfirmAction, ConfirmActionView, Modal, ModalView, Pane, StateView, ToastKind,
};
use crate::config::BehaviourConfig;
use crate::copied::Copied;
use crate::edits::{
    self, EditView, choose_marked, confirm_action, open_add_to_playlist, open_create_prompt,
    open_delete_confirm, open_remove_confirm, open_rename_prompt, queue_targets, submit_pick,
    submit_prompt,
};
use crate::event::{AppEvent, InputAction};
use crate::marks::MarkSet;
use crate::model::{HomeItem, HomeItemView, HomeTarget, HomeTargetView, Track, TrackView, VideoId};
use crate::player::{self, CommandLog, PlayerCommand, PlayerCommandView};
use crate::tasks::{MutationTask, Task, TaskView};
use crate::text::{self, join3, push_decimal};
use vstd::prelude::*;

verus! {

/// What an intent leads to: the next state, the commands to the player in order,
/// and the work to start in the background.
#[verifier::ext_equal]
pub struct Step {
    pub state: StateView,
    pub sent: Seq<PlayerCommandView>,
    pub task: Option<TaskView>,
}

/// Only the state changes.
pub open spec fn only(state: StateView) -> Step {
    Step { state, sent: Seq::empty(), task: None }
}

/// The state changes and one command goes out.
pub open spec fn sending(state: StateView, cmd: PlayerCommandView) -> Step {
    Step { state, sent: seq![cmd], task: None }
}

/// Work starts; the spinner shows for the whole round trip.
pub open spec fn starting(state: StateView, task: TaskView) -> Step {
    Step { state: StateView { loading: true, ..state }, sent: Seq::empty(), task: Some(task) }
}

/// An edit starts, or nothing does.
pub open spec fn editing(r: (StateView, EditView)) -> Step {
    Step {
        state: r.0,
        sent: Seq::empty(),
        task: match r.1 {
            Some((token, task)) => Some(TaskView::Mutate { token, task }),
            None => None,
        },
    }
}

/// What the fetch of a pane is; the queue is local and the search waits for a query.
pub open spec fn fetch_of(pane: Pane) -> Option<TaskView> {
    match pane {
        Pane::Home => Some(TaskView::LoadHome),
        Pane::Playlists => Some(TaskView::LoadPlaylists),
        Pane::Songs => Some(TaskView::LoadSongs),
        Pane::Albums => Some(TaskView::LoadAlbums),
        Pane::Artists => Some(TaskView::LoadArtists),
        Pane::Downloads => Some(TaskView::LoadDownloads),
        Pane::Search => None,
        Pane::Queue => None,
    }
}

/// `where: title` for one track, `where n tracks` for several.
pub open spec fn enqueue_text(ts: Seq<TrackView>, next: bool) -> Seq<char> {
    let place = if next {
        "playing next"@
    } else {
        "added to queue"@
    };
    if ts.len() == 1 {
        place + ": "@ + ts[0].title
    } else {
        place + " "@ + text::decimal(ts.len()) + " tracks"@
    }
}

/// `before "title" after` for one track, `before n tracks after` for several.
pub open spec fn counted(
    ts: Seq<TrackView>,
    before: Seq<char>,
    after_one: Seq<char>,
    after_many: Seq<char>,
) -> Seq<char> {
    if ts.len() == 1 {
        before + "\""@ + ts[0].title + after_one
    } else {
        before + text::decimal(ts.len()) + after_many
    }
}

/// The queue entries an edit of the queue works on: the marked ones, else the one
/// under the cursor. Ascending.
pub open spec fn marked_places(queue: Seq<TrackView>, marked: Set<Seq<char>>) -> Seq<int> {
    app::kept(Seq::new(queue.len(), |i: int| marked.contains(queue[i].video_id)))
}

/// One removal per entry, the last entry first: each removal shifts what follows.
pub open spec fn removals(places: Seq<int>) -> Seq<PlayerCommandView> {
    Seq::new(
        places.len(),
        |k: int| PlayerCommandView::RemoveFromQueue(places[places.len() - 1 - k] as usize),
    )
}

/// One move per entry: the last first on the way down, the first first on the way
/// up, so that no move disturbs the place of an entry still to be moved.
pub open spec fn moves(places: Seq<int>, down: bool) -> Seq<PlayerCommandView> {
    Seq::new(
        places.len(),
        |k: int|
            if down {
                let i = places[places.len() - 1 - k];
                PlayerCommandView::MoveInQueue { from: i as usize, to: (i + 1) as usize }
            } else {
                let i = places[k];
                PlayerCommandView::MoveInQueue { from: i as usize, to: (i - 1) as usize }
            },
    )
}

/// The tracks whose id is not among those of `gone`.
pub open spec fn without_tracks(ts: Seq<TrackView>, gone: Seq<TrackView>) -> Seq<TrackView>
    decreases ts.len(),
{
    if ts.len() == 0 {
        Seq::empty()
    } else if names(gone, ts.last().video_id) {
        without_tracks(ts.drop_last(), gone)
    } else {
        without_tracks(ts.drop_last(), gone).push(ts.last())
    }
}

/// One of the tracks has this id.
pub open spec fn names(ts: Seq<TrackView>, id: Seq<char>) -> bool {
    exists|i: int| 0 <= i < ts.len() && (#[trigger] ts[i]).video_id == id
}

impl StateView {
    /// What opening the row under the cursor does, where it opens into something.
    #[verifier::opaque]
    pub open spec fn descended(self) -> Option<Step> {
        match self.selected_playlist() {
            Some(p) => Some(starting(self, TaskView::OpenPlaylist(p.id))),
            None => match self.selected_artist() {
                Some(a) => Some(starting(self, TaskView::OpenArtist { id: a.id, name: a.name })),
                None => match self.selected_album() {
                    Some(a) => Some(
                        starting(self, TaskView::OpenAlbum { id: a.id, name: a.title }),
                    ),
                    None => match self.selected_home_item() {
                        Some(item) => self.card_opened(item),
                        None => None,
                    },
                },
            },
        }
    }

    /// What a home card opens: its own pane first, then the fetch. Tracks open nothing.
    pub open spec fn card_opened(self, item: HomeItemView) -> Option<Step> {
        match item.target {
            HomeTargetView::Playlist(id) => Some(
                starting(self.at_source(2), TaskView::OpenPlaylist(id)),
            ),
            HomeTargetView::Artist(id) => Some(
                starting(self.at_source(5), TaskView::OpenArtist { id, name: item.title }),
            ),
            HomeTargetView::Album(id) => Some(
                starting(self.at_source(4), TaskView::OpenAlbum { id, name: item.title }),
            ),
            HomeTargetView::Track(_) => None,
        }
    }

    /// Enter: a queue row is played where it is; a row that opens is opened; a track
    /// is played.
    #[verifier::opaque]
    pub open spec fn entered(self) -> Step {
        if self.pane is Queue {
            match self.queue_index_of_selected() {
                Some(i) => sending(self, PlayerCommandView::JumpTo(i as usize)),
                None => only(self),
            }
        } else {
            match self.descended() {
                Some(step) => step,
                None => match self.selected_track() {
                    Some(t) => sending(self, PlayerCommandView::PlayNow(t)),
                    None => only(self),
                },
            }
        }
    }

    /// The forward half of the back/forward pair: opens what opens, and never plays.
    #[verifier::opaque]
    pub open spec fn forward(self) -> Step {
        match self.descended() {
            Some(step) => step,
            None => only(self.after(AppEvent::Input(InputAction::Right))),
        }
    }

    /// Queues the chosen tracks, or all of the playlist or album under the cursor.
    #[verifier::opaque]
    pub open spec fn enqueued(self, next: bool) -> Step {
        match self.selected_playlist() {
            Some(p) => starting(
                self,
                TaskView::EnqueuePlaylist { id: p.id, title: p.title, play_next: next },
            ),
            None => match self.selected_album() {
                Some(a) => starting(
                    self,
                    TaskView::EnqueueAlbum { id: a.id, title: a.title, play_next: next },
                ),
                None => {
                    let ts = self.targets();
                    if ts.len() == 0 {
                        only(self)
                    } else {
                        sending(
                            self.told(ToastKind::Success, enqueue_text(ts, next)).unmarked(),
                            if next {
                                PlayerCommandView::EnqueueNext(ts)
                            } else {
                                PlayerCommandView::EnqueueBack(ts)
                            },
                        )
                    }
                },
            },
        }
    }

    /// The places in the queue that an edit of the queue works on.
    pub open spec fn queue_places(self) -> Seq<int> {
        if self.marked == Set::<Seq<char>>::empty() {
            match self.queue_index_of_selected() {
                Some(i) => seq![i],
                None => Seq::empty(),
            }
        } else {
            marked_places(self.queue, self.marked)
        }
    }

    /// Takes entries out of the queue. The player owns the queue and will report it;
    /// only the cursor moves at once, to where the first of them was.
    #[verifier::opaque]
    pub open spec fn dequeued(self) -> Step {
        let places = self.queue_places();
        let s = if places.len() == 0 {
            self
        } else {
            let left = self.queue.len() - places.len();
            let last = if left > 0 {
                left - 1
            } else {
                0
            };
            let sel = if places[0] < last {
                places[0]
            } else {
                last
            };
            StateView {
                selected: sel as usize,
                scroll_offset: if self.scroll_offset < sel {
                    self.scroll_offset
                } else {
                    sel as usize
                },
                ..self
            }
        };
        Step { state: s.unmarked(), sent: removals(places), task: None }
    }

    /// The downloads to delete: the marked ones, else the one under the cursor.
    pub open spec fn doomed(self) -> Seq<TrackView> {
        if self.marked == Set::<Seq<char>>::empty() {
            match self.selected_track() {
                Some(t) => seq![t],
                None => Seq::empty(),
            }
        } else {
            edits::chosen(self.downloaded_tracks, self.marked)
        }
    }

    /// Takes downloads off the list, and starts deleting their files.
    #[verifier::opaque]
    pub open spec fn undownloaded(self) -> Step {
        let gone = self.doomed();
        if gone.len() == 0 {
            only(self)
        } else {
            let first = if self.marked == Set::<Seq<char>>::empty() {
                self.selected as int
            } else {
                marked_places(self.downloaded_tracks, self.marked)[0]
            };
            let left = without_tracks(self.downloaded_tracks, gone);
            let last = if left.len() > 0 {
                left.len() - 1
            } else {
                0
            };
            Step {
                state: (StateView {
                    downloaded_tracks: left,
                    selected: (if first < last {
                        first
                    } else {
                        last
                    }) as usize,
                    ..self
                }).clamped().told(
                    ToastKind::Success,
                    counted(
                        gone,
                        "Deleted "@,
                        "\" from downloads"@,
                        " tracks from downloads"@,
                    ),
                ).unmarked(),
                sent: Seq::empty(),
                task: Some(TaskView::DeleteDownloads(gone)),
            }
        }
    }

    /// A block of queue entries can move: there is one, and none of it is at the end.
    pub open spec fn can_move(self, down: bool) -> bool {
        let places = self.queue_places();
        places.len() > 0 && if down {
            places.last() + 1 < self.queue.len()
        } else {
            places[0] > 0
        }
    }

    /// Moves entries of the queue by one place, all together or not at all. The
    /// cursor goes along when it is on one of them.
    #[verifier::opaque]
    pub open spec fn shifted(self, down: bool) -> Step {
        if self.can_move(down) {
            let follows = self.marked == Set::<Seq<char>>::empty() || (self.selected
                < self.queue.len() && self.marked.contains(
                self.queue[self.selected as int].video_id,
            ));
            Step {
                state: StateView {
                    selected: if !follows {
                        self.selected
                    } else if down {
                        (self.selected + 1) as usize
                    } else if self.selected > 0 {
                        (self.selected - 1) as usize
                    } else {
                        0
                    },
                    visual_anchor: None,
                    marks_before_visual: Set::empty(),
                    ..self
                },
                sent: moves(self.queue_places(), down),
                task: None,
            }
        } else {
            only(self)
        }
    }

    /// Empties the queue.
    #[verifier::opaque]
    pub open spec fn queue_cleared(self) -> Step {
        sending(
            (StateView { selected: 0, scroll_offset: 0, ..self }).unmarked(),
            PlayerCommandView::ClearQueue,
        )
    }

    /// Starts downloading the chosen tracks.
    #[verifier::opaque]
    pub open spec fn downloading(self) -> Step {
        let ts = self.targets();
        if ts.len() == 0 {
            only(self.told(ToastKind::Error, "nothing selected to download"@))
        } else {
            Step {
                state: self.told(
                    ToastKind::Info,
                    counted(ts, "Downloading "@, "\"\u{2026}"@, " tracks\u{2026}"@),
                ).unmarked(),
                sent: Seq::empty(),
                task: Some(TaskView::Download(ts)),
            }
        }
    }

    /// Opens a source and fetches its rows.
    #[verifier::opaque]
    pub open spec fn gone_to(self, n: u8) -> Step {
        let s = self.after(AppEvent::Input(InputAction::GoTo(n)));
        match fetch_of(s.pane) {
            Some(task) => starting(s, task),
            None => only(s),
        }
    }

    /// The volume after a step.
    #[verifier::opaque]
    pub open spec fn louder(self, delta: int) -> Step {
        let v = player::clamped(self.volume + delta, 0, 100) as u8;
        sending(StateView { volume: v, ..self }, PlayerCommandView::SetVolume(v))
    }

    /// Playlist editing, which takes an account.
    pub open spec fn is_account_action(self, a: InputAction) -> bool {
        ||| a is AddToPlaylist
        ||| a is CreatePlaylist
        ||| a is RenamePlaylist
        ||| a is DeletePlaylist
        ||| (a is RemoveFromPlaylist && !(self.pane is Queue) && !(self.pane is Downloads))
    }

    /// An intent while an overlay is open: the overlay owns the keyboard.
    #[verifier::opaque]
    pub open spec fn in_modal(self, a: InputAction) -> Step {
        let yes = a == InputAction::Char('y') || a == InputAction::Char('Y') || a is Confirm;
        let no = a == InputAction::Char('n') || a == InputAction::Char('N');
        let closed = StateView { modal: None, ..self };
        match self.modal {
            Some(ModalView::Prompt { .. }) if a is Confirm => editing(self.submitted()),
            Some(ModalView::PickPlaylist { .. }) if a is Confirm => editing(self.picked()),
            Some(ModalView::Confirm { text: _, action }) => if action is Quit && (yes
                || a is Quit) {
                only(StateView { should_quit: true, ..closed })
            } else if no {
                only(closed)
            } else if yes {
                editing(self.confirmed())
            } else {
                only(self.after(AppEvent::Input(a)))
            },
            _ => only(self.after(AppEvent::Input(a))),
        }
    }

    /// An intent that belongs to the player.
    #[verifier::opaque]
    pub open spec fn transported(self, a: InputAction, b: BehaviourConfig) -> Option<Step> {
        match a {
            InputAction::TogglePause => Some(sending(self, PlayerCommandView::TogglePause)),
            InputAction::NextTrack => Some(sending(self, PlayerCommandView::Next)),
            InputAction::PrevTrack => Some(sending(self, PlayerCommandView::Previous)),
            InputAction::SeekForward => Some(
                sending(self, PlayerCommandView::SeekRelative(b.seek_step_secs)),
            ),
            InputAction::SeekBack => Some(
                sending(self, PlayerCommandView::SeekRelative((-b.seek_step_secs) as i64)),
            ),
            InputAction::VolumeUp => Some(self.louder(b.volume_step as int)),
            InputAction::VolumeDown => Some(self.louder(-b.volume_step)),
            InputAction::ToggleMute => Some(
                sending(
                    StateView { muted: !self.muted, ..self },
                    PlayerCommandView::ToggleMute,
                ),
            ),
            InputAction::ToggleShuffle => Some(
                sending(
                    StateView { shuffle: !self.shuffle, ..self },
                    PlayerCommandView::SetShuffle(!self.shuffle),
                ),
            ),
            InputAction::CycleRepeat => Some(
                sending(
                    StateView { repeat: self.repeat.after(), ..self },
                    PlayerCommandView::SetRepeat(self.repeat.after()),
                ),
            ),
            _ => None,
        }
    }

    /// An intent that edits the queue, the downloads or a playlist.
    #[verifier::opaque]
    pub open spec fn arranged(self, a: InputAction) -> Step {
        match a {
            InputAction::RemoveFromPlaylist => if self.pane is Queue {
                self.dequeued()
            } else if self.pane is Downloads {
                self.undownloaded()
            } else {
                only(self.removal_asked())
            },
            InputAction::MoveEntryUp => if self.pane is Queue {
                self.shifted(false)
            } else {
                only(self)
            },
            InputAction::MoveEntryDown => if self.pane is Queue {
                self.shifted(true)
            } else {
                only(self)
            },
            InputAction::ClearQueue => if self.pane is Queue {
                self.queue_cleared()
            } else {
                only(self)
            },
            InputAction::AddToPlaylist => only(self.picker_opened()),
            InputAction::CreatePlaylist => only(self.create_prompted()),
            InputAction::DeletePlaylist => only(self.delete_asked()),
            InputAction::RenamePlaylist => only(self.rename_prompted().0),
            _ => only(self),
        }
    }

    /// Any intent.
    pub open spec fn dispatched(self, a: InputAction, b: BehaviourConfig) -> Step {
        if self.modal is Some {
            self.in_modal(a)
        } else if self.guest && self.is_account_action(a) {
            only(self.refused("playlist editing"@))
        } else {
            match a {
                InputAction::Quit if b.confirm_on_quit => only(
                    StateView {
                        modal: Some(
                            ModalView::Confirm {
                                text: "Quit ytm-tui? (y/n)"@,
                                action: ConfirmActionView::Quit,
                            },
                        ),
                        ..self
                    },
                ),
                InputAction::Confirm => self.entered(),
                InputAction::AddToQueue => self.enqueued(false),
                InputAction::PlayNext => self.enqueued(true),
                InputAction::RemoveFromPlaylist
                | InputAction::MoveEntryUp
                | InputAction::MoveEntryDown
                | InputAction::ClearQueue
                | InputAction::AddToPlaylist
                | InputAction::CreatePlaylist
                | InputAction::DeletePlaylist
                | InputAction::RenamePlaylist => self.arranged(a),
                InputAction::Download => self.downloading(),
                InputAction::ToggleMark => only(self.mark_toggled()),
                InputAction::Refresh => match fetch_of(self.pane) {
                    Some(task) => starting(self, task),
                    None => only(self),
                },
                InputAction::Right => self.forward(),
                InputAction::GoTo(n) => self.gone_to(n),
                _ => match self.transported(a, b) {
                    Some(step) => step,
                    None => only(self.after(AppEvent::Input(a))),
                },
            }
        }
    }
}

/// Marks the spinner before handing work off.
pub fn start(state: &mut AppState, task: Task) -> (r: Option<Task>)
    ensures
        final(state)@ == starting(old(state)@, task.deep_view()).state,
        r.deep_view() == starting(old(state)@, task.deep_view()).task,
{
    state.set_loading(true);
    Some(task)
}

/// The fetch a pane needs to fill itself, or `None` when it has nothing to load.
pub fn pane_task(pane: Pane) -> (r: Option<Task>)
    ensures
        r.deep_view() == fetch_of(pane),
{
    match pane {
        Pane::Home => Some(Task::LoadHome),
        Pane::Playlists => Some(Task::LoadPlaylists),
        Pane::Songs => Some(Task::LoadSongs),
        Pane::Albums => Some(Task::LoadAlbums),
        Pane::Artists => Some(Task::LoadArtists),
        Pane::Downloads => Some(Task::LoadDownloads),
        Pane::Search | Pane::Queue => None,
    }
}

/// What the toast says. Names a single track, and counts a selection.
pub fn enqueue_message(tracks: &Vec<Track>, next: bool) -> (r: String)
    ensures
        r@ == enqueue_text(tracks.deep_view(), next),
{
    let place: &str = if next {
        "playing next"
    } else {
        "added to queue"
    };
    assert(tracks@.len() == tracks.deep_view().len());
    if tracks.len() == 1 {
        join3(place, ": ", tracks[0].title.as_str())
    } else {
        let mut s = place.to_owned();
        s.append(" ");
        push_decimal(&mut s, tracks.len() as u64);
        s.append(" tracks");
        s
    }
}

fn count_message(tracks: &Vec<Track>, before: &str, after_one: &str, after_many: &str) -> (r: String)
    ensures
        r@ == counted(tracks.deep_view(), before@, after_one@, after_many@),
{
    let mut s = before.to_owned();
    assert(tracks@.len() == tracks.deep_view().len());
    if tracks.len() == 1 {
        s.append("\"");
        s.append(tracks[0].title.as_str());
        s.append(after_one);
    } else {
        push_decimal(&mut s, tracks.len() as u64);
        s.append(after_many);
    }
    s
}

/// What a home card opens. Tracks play in place; a playlist, artist or album
/// descends into its own pane first.
fn open_home_item(state: &mut AppState, item: HomeItem) -> (r: Option<Task>)
    ensures
        match old(state)@.card_opened(item.deep_view()) {
            Some(step) => final(state)@ == step.state && r.deep_view() == step.task,
            None => final(state)@ == old(state)@ && r is None,
        },
{
    let name = item.title;
    match item.target {
        HomeTarget::Playlist(id) => {
            state.goto_source(2);
            start(state, Task::OpenPlaylist(id))
        },
        HomeTarget::Artist(id) => {
            state.goto_source(5);
            start(state, Task::OpenArtist { id, name })
        },
        HomeTarget::Album(id) => {
            state.goto_source(4);
            start(state, Task::OpenAlbum { id, name })
        },
        HomeTarget::Track(_) => None,
    }
}

/// Opens the row under the cursor, where it opens into something.
fn descend(state: &mut AppState) -> (r: Option<Task>)
    ensures
        match old(state)@.descended() {
            Some(step) => final(state)@ == step.state && r.deep_view() == step.task
                && r is Some && step.sent == Seq::<PlayerCommandView>::empty(),
            None => final(state)@ == old(state)@ && r is None,
        },
{
    proof {
        reveal(StateView::descended);
    }
    match state.selected_playlist() {
        Some(p) => {
            return start(state, Task::OpenPlaylist(p.id));
        },
        None => {},
    }
    match state.selected_artist() {
        Some(a) => {
            return start(state, Task::OpenArtist { id: a.id, name: a.name });
        },
        None => {},
    }
    match state.selected_album() {
        Some(a) => {
            return start(state, Task::OpenAlbum { id: a.id, name: a.title });
        },
        None => {},
    }
    match state.selected_home_item() {
        Some(item) => open_home_item(state, item),
        None => None,
    }
}

/// The log after a step.
pub open spec fn logged(before: Seq<PlayerCommandView>, step: Step) -> Seq<PlayerCommandView> {
    before + step.sent
}

/// Hands one command to the player.
fn send(player: &mut CommandLog, cmd: PlayerCommand)
    ensures
        final(player)@ == old(player)@.push(cmd.deep_view()),
        final(player)@ == old(player)@ + seq![cmd.deep_view()],
{
    player.send(cmd);
    assert(player@ =~= old(player)@ + seq![cmd.deep_view()]);
}

fn enter(state: &mut AppState, player: &mut CommandLog) -> (r: Option<Task>)
    ensures
        final(state)@ == old(state)@.entered().state,
        final(player)@ == logged(old(player)@, old(state)@.entered()),
        r.deep_view() == old(state)@.entered().task,
{
    proof {
        reveal(StateView::entered);
        app::state_shows_its_switches(&*state);
        assert(player@ + Seq::<PlayerCommandView>::empty() =~= player@);
    }
    if state.pane == Pane::Queue {
        match state.queue_index_of_selected() {
            Some(i) => send(player, PlayerCommand::JumpTo(i)),
            None => {},
        }
        return None;
    }
    match descend(state) {
        Some(task) => Some(task),
        None => {
            match state.selected_track() {
                Some(t) => send(player, PlayerCommand::PlayNow(t)),
                None => {},
            }
            None
        },
    }
}

fn enqueue(state: &mut AppState, player: &mut CommandLog, next: bool) -> (r: Option<Task>)
    ensures
        final(state)@ == old(state)@.enqueued(next).state,
        final(player)@ == logged(old(player)@, old(state)@.enqueued(next)),
        r.deep_view() == old(state)@.enqueued(next).task,
{
    proof {
        reveal(StateView::enqueued);
        assert(player@ + Seq::<PlayerCommandView>::empty() =~= player@);
    }
    match state.selected_playlist() {
        Some(p) => {
            return start(
                state,
                Task::EnqueuePlaylist { id: p.id, title: p.title, play_next: next },
            );
        },
        None => {},
    }
    match state.selected_album() {
        Some(a) => {
            return start(
                state,
                Task::EnqueueAlbum { id: a.id, title: a.title, play_next: next },
            );
        },
        None => {},
    }
    let tracks = queue_targets(state);
    assert(tracks@.len() == tracks.deep_view().len());
    if tracks.len() == 0 {
        return None;
    }
    let msg = enqueue_message(&tracks, next);
    send(
        player,
        if next {
            PlayerCommand::EnqueueNext(tracks)
        } else {
            PlayerCommand::EnqueueBack(tracks)
        },
    );
    state.tell(ToastKind::Success, msg.as_str());
    state.clear_marks();
    None
}

/// The places of the marked tracks of a list, ascending.
fn places_of_marked(rows: &Vec<Track>, marked: &MarkSet) -> (r: Vec<usize>)
    ensures
        app::ints(r@) == marked_places(rows.deep_view(), marked@),
        forall|k: int| 0 <= k < r@.len() ==> (#[trigger] r@[k]) < rows@.len(),
{
    let ghost keep = Seq::new(
        rows.deep_view().len(),
        |i: int| marked@.contains(rows.deep_view()[i].video_id),
    );
    let mut out: Vec<usize> = Vec::new();
    let mut i: usize = 0;
    while i < rows.len()
        invariant
            i <= rows@.len(),
            keep == Seq::new(
                rows.deep_view().len(),
                |i: int| marked@.contains(rows.deep_view()[i].video_id),
            ),
            app::ints(out@) == app::kept(keep.take(i as int)),
            forall|k: int| 0 <= k < out@.len() ==> (#[trigger] out@[k]) < i,
        decreases rows@.len() - i,
    {
        let ghost upto = keep.take(i + 1);
        assert(upto.drop_last() =~= keep.take(i as int));
        assert(upto.last() == marked@.contains(rows@[i as int].video_id.deep_view()));
        if marked.contains(&rows[i].video_id) {
            let ghost before = out@;
            out.push(i);
            assert(app::ints(out@) =~= app::ints(before).push(i as int));
        }
        i += 1;
    }
    assert(keep.take(i as int) =~= keep);
    out
}

/// The places in the queue that an edit of the queue works on, ascending.
fn queue_places(state: &AppState) -> (r: Vec<usize>)
    ensures
        app::ints(r@) == state@.queue_places(),
        r@.len() == state@.queue_places().len(),
        forall|k: int|
            0 <= k < r@.len() ==> (#[trigger] r@[k]) < state@.queue.len() && r@[k]
                == state@.queue_places()[k],
{
    proof {
        app::state_shows_its_fields(state);
    }
    let r = if state.marked.is_empty() {
        let mut out: Vec<usize> = Vec::new();
        match state.queue_index_of_selected() {
            None => {
                assert(app::ints(out@) =~= Seq::<int>::empty());
            },
            Some(i) => {
                out.push(i);
                assert(app::ints(out@) =~= seq![i as int]);
            },
        }
        out
    } else {
        places_of_marked(&state.queue, &state.marked)
    };
    assert(state.queue@.len() == state@.queue.len());
    assert(app::ints(r@).len() == r@.len());
    assert forall|k: int| 0 <= k < r@.len() implies (#[trigger] r@[k]) < state@.queue.len() && r@[k]
        == state@.queue_places()[k] by {
        assert(app::ints(r@)[k] == r@[k]);
    }
    r
}

/// The places an edit of the queue works on ascend, and lie within the queue.
pub proof fn queue_places_ascend(s: StateView)
    ensures
        s.queue_places().len() <= s.queue.len(),
        forall|j: int, k: int|
            0 <= j < k < s.queue_places().len() ==> (#[trigger] s.queue_places()[j])
                < (#[trigger] s.queue_places()[k]),
        forall|k: int|
            0 <= k < s.queue_places().len() ==> 0 <= (#[trigger] s.queue_places()[k])
                < s.queue.len(),
{
    app::lemma_kept(Seq::new(s.queue.len(), |i: int| s.marked.contains(s.queue[i].video_id)));
    app::lemma_kept(
        Seq::new(
            s.row_titles().len(),
            |i: int| crate::text::passes(s.filter, s.row_titles()[i]),
        ),
    );
}

fn dequeue(state: &mut AppState, player: &mut CommandLog)
    ensures
        old(state)@.dequeued().task is None,
        final(state)@ == old(state)@.dequeued().state,
        final(player)@ == logged(old(player)@, old(state)@.dequeued()),
{
    proof {
        reveal(StateView::dequeued);
        app::state_shows_its_fields(&*state);
        queue_places_ascend(state@);
    }
    let places = queue_places(state);
    let n: usize = places.len();
    let ghost sent = removals(state@.queue_places());
    assert(state.queue@.len() == state@.queue.len());
    if n > 0 {
        let left: usize = state.queue.len() - n;
        let last: usize = left.saturating_sub(1);
        let sel: usize = if places[0] < last {
            places[0]
        } else {
            last
        };
        let top: usize = if state.scroll_offset < sel {
            state.scroll_offset
        } else {
            sel
        };
        state.set_selected(sel);
        state.set_scroll_offset(top);
    }
    state.clear_marks();
    let mut k: usize = n;
    assert(sent.take(0) =~= Seq::<PlayerCommandView>::empty());
    assert(player@ + Seq::<PlayerCommandView>::empty() =~= player@);
    while k > 0
        invariant
            k <= n == places@.len(),
            n == old(state)@.queue_places().len(),
            sent == removals(old(state)@.queue_places()),
            forall|k: int|
                0 <= k < places@.len() ==> (#[trigger] places@[k])
                    == old(state)@.queue_places()[k],
            player@ == old(player)@ + sent.take(n - k),
        decreases k,
    {
        k -= 1;
        send(player, PlayerCommand::RemoveFromQueue(places[k]));
        assert(sent[n - 1 - k] == PlayerCommandView::RemoveFromQueue(places@[k as int]));
        assert(sent.take(n - k) =~= sent.take(n - k - 1).push(sent[n - k - 1]));
        assert(player@ =~= old(player)@ + sent.take(n - k));
    }
    assert(sent.take(n as int) =~= sent);
}

fn names_id(ts: &Vec<Track>, id: &VideoId) -> (r: bool)
    ensures
        r == names(ts.deep_view(), id.deep_view()),
{
    let mut i: usize = 0;
    while i < ts.len()
        invariant
            i <= ts@.len(),
            forall|k: int| 0 <= k < i ==> (#[trigger] ts@[k]).video_id.deep_view()
                != id.deep_view(),
        decreases ts@.len() - i,
    {
        if ts[i].video_id.same(id) {
            assert(ts.deep_view()[i as int].video_id == id.deep_view());
            return true;
        }
        i += 1;
    }
    assert forall|k: int| 0 <= k < ts.deep_view().len() implies (#[trigger] ts.deep_view()[k]).video_id
        != id.deep_view() by {
        assert(ts@[k].video_id.deep_view() != id.deep_view());
    }
    false
}

fn drop_tracks(ts: &Vec<Track>, gone: &Vec<Track>) -> (r: Vec<Track>)
    ensures
        r.deep_view() == without_tracks(ts.deep_view(), gone.deep_view()),
{
    let mut out: Vec<Track> = Vec::new();
    let mut i: usize = 0;
    assert(out.deep_view() =~= without_tracks(ts.deep_view().take(0), gone.deep_view()));
    while i < ts.len()
        invariant
            i <= ts@.len(),
            out.deep_view() == without_tracks(ts.deep_view().take(i as int), gone.deep_view()),
        decreases ts@.len() - i,
    {
        let ghost upto = ts.deep_view().take(i + 1);
        let ghost before = out.deep_view();
        assert(upto.last() == ts@[i as int].deep_view());
        assert(upto.drop_last() =~= ts.deep_view().take(i as int));
        if !names_id(gone, &ts[i].video_id) {
            out.push(ts[i].copy());
            assert(out.deep_view() =~= before.push(upto.last()));
        }
        i += 1;
    }
    assert(ts.deep_view().take(i as int) =~= ts.deep_view());
    out
}

/// A list has as many chosen tracks as it has marked places.
pub proof fn lemma_chosen_places(rows: Seq<TrackView>, marked: Set<Seq<char>>)
    ensures
        edits::chosen(rows, marked).len() == marked_places(rows, marked).len(),
    decreases rows.len(),
{
    if rows.len() > 0 {
        lemma_chosen_places(rows.drop_last(), marked);
        let keep = Seq::new(rows.len(), |i: int| marked.contains(rows[i].video_id));
        let rest = Seq::new(
            rows.drop_last().len(),
            |i: int| marked.contains(rows.drop_last()[i].video_id),
        );
        assert(keep.drop_last() =~= rest);
    }
}

fn undownload(state: &mut AppState) -> (r: Option<Task>)
    ensures
        old(state)@.undownloaded().sent == Seq::<PlayerCommandView>::empty(),
        final(state)@ == old(state)@.undownloaded().state,
        r.deep_view() == old(state)@.undownloaded().task,
{
    proof {
        reveal(StateView::undownloaded);
        app::state_shows_its_fields(&*state);
    }
    let unmarked = state.marked.is_empty();
    let gone: Vec<Track> = if unmarked {
        let mut out: Vec<Track> = Vec::new();
        match state.selected_track() {
            None => {
                assert(out.deep_view() =~= Seq::<TrackView>::empty());
            },
            Some(t) => {
                let ghost v = t.deep_view();
                out.push(t);
                assert(out.deep_view() =~= seq![v]);
            },
        }
        out
    } else {
        choose_marked(&state.downloaded_tracks, &state.marked)
    };
    assert(gone@.len() == gone.deep_view().len());
    if gone.len() == 0 {
        return None;
    }
    let first: usize = if unmarked {
        state.selected
    } else {
        let places = places_of_marked(&state.downloaded_tracks, &state.marked);
        proof {
            lemma_chosen_places(state@.downloaded_tracks, state@.marked);
            assert(app::ints(places@).len() == places@.len());
            assert(app::ints(places@)[0] == places@[0]);
        }
        places[0]
    };
    let left = drop_tracks(&state.downloaded_tracks, &gone);
    assert(left@.len() == left.deep_view().len());
    let last: usize = left.len().saturating_sub(1);
    let msg = count_message(
        &gone,
        "Deleted ",
        "\" from downloads",
        " tracks from downloads",
    );
    state.set_downloaded_tracks(left);
    state.set_selected(
        if first < last {
            first
        } else {
            last
        },
    );
    state.clamp_selection();
    state.tell(ToastKind::Success, msg.as_str());
    state.clear_marks();
    Some(Task::DeleteDownloads(gone))
}

/// Ends a range selection, leaving its marks.
fn end_range(state: &mut AppState)
    ensures
        final(state)@ == (StateView {
            visual_anchor: None,
            marks_before_visual: Set::empty(),
            ..old(state)@
        }),
{
    proof {
        reveal(AppState::model);
    }
    state.visual_anchor = None;
    state.marks_before_visual = MarkSet::new();
}

/// Sends one move per place.
fn send_moves(player: &mut CommandLog, places: &Vec<usize>, down: bool)
    requires
        forall|k: int|
            0 <= k < places@.len() ==> if down {
                (#[trigger] places@[k]) < usize::MAX
            } else {
                places@[k] > 0
            },
    ensures
        final(player)@ == old(player)@ + moves(app::ints(places@), down),
{
    let n: usize = places.len();
    let ghost sent = moves(app::ints(places@), down);
    let mut k: usize = 0;
    assert(sent.take(0) =~= Seq::<PlayerCommandView>::empty());
    assert(player@ + Seq::<PlayerCommandView>::empty() =~= player@);
    while k < n
        invariant
            k <= n == places@.len(),
            sent == moves(app::ints(places@), down),
            forall|k: int|
                0 <= k < places@.len() ==> if down {
                    (#[trigger] places@[k]) < usize::MAX
                } else {
                    places@[k] > 0
                },
            player@ == old(player)@ + sent.take(k as int),
        decreases n - k,
    {
        let from: usize = if down {
            places[n - 1 - k]
        } else {
            places[k]
        };
        let to: usize = if down {
            from + 1
        } else {
            from - 1
        };
        send(player, PlayerCommand::MoveInQueue { from, to });
        assert(sent[k as int] == PlayerCommandView::MoveInQueue { from, to });
        assert(sent.take(k + 1) =~= sent.take(k as int).push(sent[k as int]));
        k += 1;
        assert(player@ =~= old(player)@ + sent.take(k as int));
    }
    assert(sent.take(n as int) =~= sent);
}

fn shift(state: &mut AppState, player: &mut CommandLog, down: bool)
    requires
        old(state)@.pane is Queue,
    ensures
        old(state)@.shifted(down).task is None,
        final(state)@ == old(state)@.shifted(down).state,
        final(player)@ == logged(old(player)@, old(state)@.shifted(down)),
{
    proof {
        reveal(StateView::shifted);
        app::state_shows_its_fields(&*state);
        queue_places_ascend(state@);
        app::lemma_kept(
            Seq::new(
                state@.row_titles().len(),
                |i: int| crate::text::passes(state@.filter, state@.row_titles()[i]),
            ),
        );
        assert(player@ + Seq::<PlayerCommandView>::empty() =~= player@);
    }
    let places = queue_places(state);
    let n: usize = places.len();
    let len: usize = state.queue.len();
    assert(len == state@.queue.len());
    assert(app::ints(places@) =~= state@.queue_places());
    // Checked across the whole block: sliding only the entries with room left would
    // squash the range together.
    let free: bool = n > 0 && if down {
        places[n - 1] < len - 1
    } else {
        places[0] > 0
    };
    assert(free == state@.can_move(down)) by {
        if n > 0 {
            assert(places@[n - 1] == state@.queue_places()[n - 1]);
            assert(places@[0] == state@.queue_places()[0]);
        }
    }
    if free {
        assert forall|k: int| 0 <= k < places@.len() implies if down {
            (#[trigger] places@[k]) < usize::MAX
        } else {
            places@[k] > 0
        } by {
            assert(places@[k] == state@.queue_places()[k]);
            assert(places@[0] == state@.queue_places()[0]);
            if k > 0 {
                assert(state@.queue_places()[0] < state@.queue_places()[k]);
            }
        }
        let follows: bool = state.marked.is_empty() || (state.selected < len
            && state.marked.contains(&state.queue[state.selected].video_id));
        send_moves(player, &places, down);
        if follows {
            let sel: usize = state.selected;
            assert(sel < usize::MAX) by {
                assert(state@.visible().len() <= state@.row_titles().len());
            }
            state.set_selected(
                if down {
                    sel + 1
                } else {
                    sel.saturating_sub(1)
                },
            );
        }
        end_range(state);
    }
}

fn clear_queue(state: &mut AppState, player: &mut CommandLog)
    ensures
        old(state)@.queue_cleared().task is None,
        final(state)@ == old(state)@.queue_cleared().state,
        final(player)@ == logged(old(player)@, old(state)@.queue_cleared()),
{
    proof {
        reveal(StateView::queue_cleared);
    }
    send(player, PlayerCommand::ClearQueue);
    state.set_selected(0);
    state.set_scroll_offset(0);
    state.clear_marks();
}

fn download(state: &mut AppState) -> (r: Option<Task>)
    ensures
        old(state)@.downloading().sent == Seq::<PlayerCommandView>::empty(),
        final(state)@ == old(state)@.downloading().state,
        r.deep_view() == old(state)@.downloading().task,
{
    proof {
        reveal(StateView::downloading);
    }
    let tracks = queue_targets(state);
    assert(tracks@.len() == tracks.deep_view().len());
    if tracks.len() == 0 {
        state.tell(ToastKind::Error, "nothing selected to download");
        return None;
    }
    let msg = count_message(&tracks, "Downloading ", "\"\u{2026}", " tracks\u{2026}");
    state.tell(ToastKind::Info, msg.as_str());
    state.clear_marks();
    Some(Task::Download(tracks))
}

/// The task of an edit just begun.
fn mutate(edit: Option<(u64, MutationTask)>) -> (r: Option<Task>)
    ensures
        r.deep_view() == match edits::edit_view(edit) {
            Some((token, task)) => Some(TaskView::Mutate { token, task }),
            None => None,
        },
{
    match edit {
        Some((token, task)) => Some(Task::Mutate { token, task }),
        None => None,
    }
}

/// An intent while an overlay is open.
fn dispatch_in_modal(a: InputAction, state: &mut AppState) -> (r: Option<Task>)
    requires
        old(state)@.modal is Some,
        old(state)@.pending.next < u64::MAX,
    ensures
        old(state)@.in_modal(a).sent == Seq::<PlayerCommandView>::empty(),
        final(state)@ == old(state)@.in_modal(a).state,
        r.deep_view() == old(state)@.in_modal(a).task,
{
    proof {
        reveal(StateView::in_modal);
        app::state_shows_its_switches(&*state);
    }
    let yes: bool = a == InputAction::Char('y') || a == InputAction::Char('Y') || a
        == InputAction::Confirm;
    let no: bool = a == InputAction::Char('n') || a == InputAction::Char('N');
    match &state.modal {
        Some(Modal::Prompt { .. }) => {
            if a == InputAction::Confirm {
                return mutate(submit_prompt(state));
            }
        },
        Some(Modal::PickPlaylist { .. }) => {
            if a == InputAction::Confirm {
                return mutate(submit_pick(state));
            }
        },
        Some(Modal::Confirm { text: _, action }) => {
            let quitting: bool = match action {
                ConfirmAction::Quit => true,
                _ => false,
            };
            // `q` confirms a quit as well as `y`: it is the key just pressed, and
            // making it mean "no" would be a trap.
            if quitting && (yes || a == InputAction::Quit) {
                state.set_modal(None);
                state.set_should_quit(true);
                return None;
            }
            if no {
                state.set_modal(None);
                return None;
            }
            if yes {
                return mutate(confirm_action(state));
            }
        },
        _ => {},
    }
    state.apply(AppEvent::Input(a));
    None
}

fn step_volume(state: &mut AppState, player: &mut CommandLog, delta: i128)
    requires
        i64::MIN <= delta <= -i64::MIN,
    ensures
        old(state)@.louder(delta as int).task is None,
        final(state)@ == old(state)@.louder(delta as int).state,
        final(player)@ == logged(old(player)@, old(state)@.louder(delta as int)),
{
    proof {
        reveal(StateView::louder);
        app::state_shows_its_switches(&*state);
    }
    let wanted: i128 = state.volume as i128 + delta;
    let v: u8 = if wanted < 0 {
        0
    } else if wanted > 100 {
        100
    } else {
        wanted as u8
    };
    state.set_volume(v);
    send(player, PlayerCommand::SetVolume(v));
}

/// An intent that belongs to the player; whether it was one.
fn transport(
    a: InputAction,
    state: &mut AppState,
    player: &mut CommandLog,
    behaviour: &BehaviourConfig,
) -> (r: bool)
    requires
        behaviour.in_range(),
    ensures
        match old(state)@.transported(a, *behaviour) {
            Some(step) => r && final(state)@ == step.state && final(player)@ == logged(
                old(player)@,
                step,
            ) && step.task is None,
            None => !r && final(state)@ == old(state)@ && final(player)@ == old(player)@,
        },
{
    proof {
        reveal(StateView::transported);
        app::state_shows_its_switches(&*state);
    }
    match a {
        InputAction::TogglePause => send(player, PlayerCommand::TogglePause),
        InputAction::NextTrack => send(player, PlayerCommand::Next),
        InputAction::PrevTrack => send(player, PlayerCommand::Previous),
        InputAction::SeekForward => send(
            player,
            PlayerCommand::SeekRelative(behaviour.seek_step_secs),
        ),
        InputAction::SeekBack => send(
            player,
            PlayerCommand::SeekRelative(-behaviour.seek_step_secs),
        ),
        InputAction::VolumeUp => step_volume(state, player, behaviour.volume_step as i128),
        InputAction::VolumeDown => step_volume(
            state,
            player,
            -(behaviour.volume_step as i128),
        ),
        InputAction::ToggleMute => {
            let muted: bool = !state.muted;
            state.set_muted(muted);
            send(player, PlayerCommand::ToggleMute);
        },
        InputAction::ToggleShuffle => {
            let on: bool = !state.shuffle;
            state.set_shuffle(on);
            send(player, PlayerCommand::SetShuffle(on));
        },
        InputAction::CycleRepeat => {
            let mode = state.repeat.next();
            state.set_repeat(mode);
            send(player, PlayerCommand::SetRepeat(mode));
        },
        _ => {
            return false;
        },
    }
    true
}

/// An intent that edits the queue, the downloads or a playlist.
fn arrange(a: InputAction, state: &mut AppState, player: &mut CommandLog) -> (r: Option<Task>)
    ensures
        final(state)@ == old(state)@.arranged(a).state,
        final(player)@ == logged(old(player)@, old(state)@.arranged(a)),
        r.deep_view() == old(state)@.arranged(a).task,
{
    proof {
        reveal(StateView::arranged);
        app::state_shows_its_switches(&*state);
        assert(player@ + Seq::<PlayerCommandView>::empty() =~= player@);
    }
    let in_queue = state.pane == Pane::Queue;
    match a {
        InputAction::RemoveFromPlaylist => {
            if in_queue {
                dequeue(state, player);
            } else if state.pane == Pane::Downloads {
                return undownload(state);
            } else {
                open_remove_confirm(state);
            }
        },
        InputAction::MoveEntryUp => {
            if in_queue {
                shift(state, player, false);
            }
        },
        InputAction::MoveEntryDown => {
            if in_queue {
                shift(state, player, true);
            }
        },
        InputAction::ClearQueue => {
            if in_queue {
                clear_queue(state, player);
            }
        },
        InputAction::AddToPlaylist => open_add_to_playlist(state),
        InputAction::CreatePlaylist => open_create_prompt(state),
        InputAction::DeletePlaylist => open_delete_confirm(state),
        InputAction::RenamePlaylist => {
            let _ = open_rename_prompt(state);
        },
        _ => {},
    }
    None
}

fn is_account_action(a: InputAction, state: &AppState) -> (r: bool)
    ensures
        r == state@.is_account_action(a),
{
    proof {
        app::state_shows_its_switches(state);
    }
    match a {
        InputAction::AddToPlaylist
        | InputAction::CreatePlaylist
        | InputAction::RenamePlaylist
        | InputAction::DeletePlaylist => true,
        InputAction::RemoveFromPlaylist => state.pane != Pane::Queue && state.pane
            != Pane::Downloads,
        _ => false,
    }
}

fn go_forward(state: &mut AppState) -> (r: Option<Task>)
    ensures
        final(state)@ == old(state)@.forward().state,
        old(state)@.forward().sent == Seq::<PlayerCommandView>::empty(),
        r.deep_view() == old(state)@.forward().task,
{
    proof {
        reveal(StateView::forward);
    }
    match descend(state) {
        Some(task) => Some(task),
        None => {
            state.apply(AppEvent::Input(InputAction::Right));
            None
        },
    }
}

fn go_to(state: &mut AppState, n: u8) -> (r: Option<Task>)
    ensures
        final(state)@ == old(state)@.gone_to(n).state,
        old(state)@.gone_to(n).sent == Seq::<PlayerCommandView>::empty(),
        r.deep_view() == old(state)@.gone_to(n).task,
{
    proof {
        reveal(StateView::gone_to);
    }
    state.apply(AppEvent::Input(InputAction::GoTo(n)));
    proof {
        app::state_shows_its_switches(&*state);
    }
    match pane_task(state.pane) {
        Some(task) => start(state, task),
        None => None,
    }
}

/// Translates one intent into player commands, state changes and background work.
pub fn dispatch_input(
    action: InputAction,
    state: &mut AppState,
    player: &mut CommandLog,
    behaviour: &BehaviourConfig,
) -> (r: Option<Task>)
    requires
        behaviour.in_range(),
        old(state)@.pending.next < u64::MAX,
    ensures
        final(state)@ == old(state)@.dispatched(action, *behaviour).state,
        final(player)@ == logged(old(player)@, old(state)@.dispatched(action, *behaviour)),
        r.deep_view() == old(state)@.dispatched(action, *behaviour).task,
{
    proof {
        app::state_shows_its_switches(&*state);
        assert(player@ + Seq::<PlayerCommandView>::empty() =~= player@);
    }
    if state.modal.is_some() {
        return dispatch_in_modal(action, state);
    }
    // Refused here rather than deeper down, so that no overlay opens for an edit
    // that could never be sent.
    if state.guest && is_account_action(action, state) {
        state.guest_refusal("playlist editing");
        return None;
    }
    match action {
        InputAction::Quit if behaviour.confirm_on_quit => {
            state.set_modal(
                Some(
                    Modal::Confirm {
                        text: "Quit ytm-tui? (y/n)".to_owned(),
                        action: ConfirmAction::Quit,
                    },
                ),
            );
            None
        },
        InputAction::Confirm => enter(state, player),
        InputAction::AddToQueue => enqueue(state, player, false),
        InputAction::PlayNext => enqueue(state, player, true),
        InputAction::RemoveFromPlaylist
        | InputAction::MoveEntryUp
        | InputAction::MoveEntryDown
        | InputAction::ClearQueue
        | InputAction::AddToPlaylist
        | InputAction::CreatePlaylist
        | InputAction::DeletePlaylist
        | InputAction::RenamePlaylist => arrange(action, state, player),
        InputAction::Download => download(state),
        InputAction::ToggleMark => {
            state.toggle_mark();
            None
        },
        InputAction::Refresh => {
            match pane_task(state.pane) {
                Some(task) => start(state, task),
                None => None,
            }
        },
        InputAction::Right => go_forward(state),
        InputAction::GoTo(n) => go_to(state, n),
        _ => {
            if !transport(action, state, player, behaviour) {
                state.apply(AppEvent::Input(action));
            }
            None
        },
    }
}

} // verus!
