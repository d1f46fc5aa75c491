//! One turn of the event loop, for each thing that can happen: a click, a key, the
//! player, an answer from the background, the source, the clock. Nothing here waits.

use crate::app::{self, AppState, Focus, Pane, StateView, ToastKind};
use crate::app_loop::{self, Step, dispatch_input, enqueue_message, pane_task, start};
use crate::art::ArtCache;
use crate::background::{self, art_tick, empty_library_hint, source_ready};
use crate::cache::{self, CacheWork, cache_work};
use crate::config::BehaviourConfig;
use crate::event::{AppEvent, EventView, InputAction};
use crate::model::Track;
use crate::nowplaying::{self, seek_target_secs};
use crate::player::{CommandLog, PlayerCommand, PlayerCommandView, PlayerEvent};
use crate::render::{self, ClickTarget, body_and_nowplaying, click_target, list_rows_for};
use crate::screen::Rect;
use crate::search_state::{DebounceView, SearchDebounce};
use crate::tasks::{Task, TaskView};
use crate::text::{join2, same_text};
use crate::theme::{self, Theme};
use vstd::prelude::*;

verus! {

/// How close two clicks must be to count as a double click, in milliseconds.
pub const DOUBLE_CLICK_MS: u64 = 400;

/// How often a theme file is looked at, in milliseconds.
pub const THEME_CHECK_INTERVAL_MS: u64 = 1000;

/// How many sources the sidebar has.
pub const SOURCE_COUNT: usize = 8;

impl StateView {
    /// What sits under a click.
    pub open spec fn under(self, area: Rect, col: u16, row: u16) -> ClickTarget {
        render::target(
            render::halves(area).0,
            render::halves(area).1,
            col,
            row,
            render::list_top(
                self.search_row_visible(),
                self.filter_row_visible(),
                self.column_header_visible(),
            ),
        )
    }

    /// What a click on something does. It moves the selection, or the position in
    /// what is playing; it never starts anything playing. `width` is that of the bar.
    #[verifier::opaque]
    pub open spec fn clicked(self, on: ClickTarget, width: u16) -> Step {
        match on {
            ClickTarget::Source(i) => if i < SOURCE_COUNT {
                let s = self.after(AppEvent::Input(InputAction::GoTo((i + 1) as u8)));
                Step { state: s, sent: Seq::empty(), task: app_loop::fetch_of(s.pane) }
            } else {
                app_loop::only(self)
            },
            ClickTarget::Row(offset) => if self.scroll_offset + offset < self.visible().len() {
                app_loop::only(
                    (StateView {
                        selected: (self.scroll_offset + offset) as usize,
                        focus: Focus::Main,
                        ..self
                    }).stretched(),
                )
            } else {
                app_loop::only(self)
            },
            ClickTarget::Progress(col) => match nowplaying::second_at(
                col as int,
                nowplaying::bar(width as int, self).0,
                nowplaying::bar(width as int, self).1,
                self.duration as int,
            ) {
                Some(n) => app_loop::sending(self, PlayerCommandView::SeekAbsolute(n as u64)),
                None => app_loop::only(self),
            },
            ClickTarget::Nothing => app_loop::only(self),
        }
    }

    /// Two clicks on the same row, close enough to each other.
    pub open spec fn is_double(self, last: Option<(usize, u64)>) -> bool {
        match last {
            Some((row, at)) => row == self.selected && (if self.elapsed_ms > at {
                self.elapsed_ms - at
            } else {
                0
            }) <= DOUBLE_CLICK_MS,
            None => false,
        }
    }

    /// What a left click does, and the click to remember. The second click on a row
    /// activates it; a click on a source is no part of a double click.
    #[verifier::opaque]
    pub open spec fn left_clicked(
        self,
        on: ClickTarget,
        width: u16,
        b: BehaviourConfig,
        last: Option<(usize, u64)>,
    ) -> (Step, Option<(usize, u64)>) {
        let step = self.clicked(on, width);
        if self.modal is Some {
            (app_loop::only(self), last)
        } else {
            match step.task {
                Some(task) => (
                    Step {
                        state: app_loop::starting(step.state, task).state,
                        sent: step.sent,
                        task: Some(task),
                    },
                    None,
                ),
                None => if step.state.is_double(last) && step.state.selected == self.selected {
                    let second = step.state.dispatched(InputAction::Confirm, b);
                    (
                        Step {
                            state: second.state,
                            sent: step.sent + second.sent,
                            task: second.task,
                        },
                        None,
                    )
                } else {
                    (step, Some((step.state.selected, step.state.elapsed_ms)))
                },
            }
        }
    }

    /// What a right click does: it queues the row under the pointer.
    #[verifier::opaque]
    pub open spec fn right_clicked(self, on: ClickTarget, width: u16) -> Step {
        let step = self.clicked(on, width);
        if self.modal is Some {
            app_loop::only(self)
        } else if step.task is Some {
            Step { task: None, ..step }
        } else {
            match step.state.selected_track() {
                Some(t) => Step {
                    state: step.state.told(ToastKind::Success, app_loop::enqueue_text(seq![t], false)),
                    sent: step.sent.push(PlayerCommandView::EnqueueBack(seq![t])),
                    task: None,
                },
                None => step,
            }
        }
    }
}

fn send_one(player: &mut CommandLog, cmd: PlayerCommand)
    ensures
        final(player)@ == old(player)@ + seq![cmd.deep_view()],
{
    player.send(cmd);
    assert(player@ =~= old(player)@ + seq![cmd.deep_view()]);
}

fn click_on(on: ClickTarget, width: u16, state: &mut AppState, player: &mut CommandLog) -> (r: Option<
    Task,
>)
    ensures
        final(state)@ == old(state)@.clicked(on, width).state,
        final(player)@ == app_loop::logged(old(player)@, old(state)@.clicked(on, width)),
        r.deep_view() == old(state)@.clicked(on, width).task,
{
    proof {
        reveal(StateView::clicked);
        app::state_shows_its_switches(&*state);
        assert(player@ + Seq::<PlayerCommandView>::empty() =~= player@);
    }
    match on {
        ClickTarget::Source(i) => {
            if i < SOURCE_COUNT {
                state.apply(AppEvent::Input(InputAction::GoTo((i + 1) as u8)));
                proof {
                    app::state_shows_its_switches(&*state);
                }
                pane_task(state.pane)
            } else {
                None
            }
        },
        ClickTarget::Row(offset) => {
            // The offset counts from the top of the visible window.
            let row: u128 = state.scroll_offset as u128 + offset as u128;
            if row < state.list_len() as u128 {
                state.set_selected(row as usize);
                state.set_focus(Focus::Main);
                state.refresh_visual_marks();
            }
            None
        },
        ClickTarget::Progress(col) => {
            match seek_target_secs(width as usize, col as usize, state) {
                Some(secs) => send_one(player, PlayerCommand::SeekAbsolute(secs)),
                None => {},
            }
            None
        },
        ClickTarget::Nothing => None,
    }
}

fn under(state: &AppState, area: Rect, col: u16, row: u16) -> (r: (ClickTarget, u16))
    ensures
        r.0 == state@.under(area, col, row),
        r.1 == render::halves(area).1.width,
{
    let (_, np) = body_and_nowplaying(area);
    (
        click_target(
            area,
            col,
            row,
            state.search_row_visible(),
            state.filter_row_visible(),
            state.column_header_visible(),
        ),
        np.width,
    )
}

/// Moves the selection to whatever was clicked, returning a fetch if the click
/// changed the pane.
pub fn handle_click(
    col: u16,
    row: u16,
    area: Rect,
    state: &mut AppState,
    player: &mut CommandLog,
) -> (r: Option<Task>)
    ensures
        ({
            let step = old(state)@.clicked(old(state)@.under(area, col, row), render::halves(area).1.width);
            final(state)@ == step.state && final(player)@ == app_loop::logged(old(player)@, step)
                && r.deep_view() == step.task
        }),
{
    let (on, width) = under(state, area, col, row);
    click_on(on, width, state, player)
}

/// A left click at what sits under it.
pub fn left_click_on(
    on: ClickTarget,
    width: u16,
    state: &mut AppState,
    player: &mut CommandLog,
    behaviour: &BehaviourConfig,
    last: Option<(usize, u64)>,
) -> (r: (Option<Task>, Option<(usize, u64)>))
    requires
        behaviour.in_range(),
        old(state)@.pending.next < u64::MAX,
    ensures
        ({
            let (step, next) = old(state)@.left_clicked(on, width, *behaviour, last);
            final(state)@ == step.state && final(player)@ == app_loop::logged(old(player)@, step)
                && r.0.deep_view() == step.task && r.1 == next
        }),
{
    proof {
        reveal(StateView::left_clicked);
        app::state_shows_its_switches(&*state);
        assert(player@ + Seq::<PlayerCommandView>::empty() =~= player@);
    }
    if state.modal.is_some() {
        return (None, last);
    }
    let before: usize = state.selected;
    match click_on(on, width, state, player) {
        Some(task) => (start(state, task), None),
        None => {
            proof {
                lemma_a_click_begins_no_edit(old(state)@, on, width);
                app::state_shows_its_switches(&*state);
            }
            let now: u64 = state.elapsed_ms;
            let same: bool = match last {
                Some((row, at)) => row == state.selected && now.saturating_sub(at)
                    <= DOUBLE_CLICK_MS,
                None => false,
            };
            if same && state.selected == before {
                let ghost mid = player@;
                let task = dispatch_input(InputAction::Confirm, state, player, behaviour);
                proof {
                    let first = old(state)@.clicked(on, width);
                    let second = first.state.dispatched(InputAction::Confirm, *behaviour);
                    assert(player@ =~= old(player)@ + (first.sent + second.sent));
                }
                (task, None)
            } else {
                (None, Some((state.selected, now)))
            }
        },
    }
}

/// A click leaves the pending edits alone.
proof fn lemma_a_click_begins_no_edit(s: StateView, on: ClickTarget, width: u16)
    requires
        s.clicked(on, width).task is None,
    ensures
        s.clicked(on, width).state.pending == s.pending,
{
    reveal(StateView::clicked);
    reveal(StateView::after);
    reveal(StateView::after_input);
    reveal(StateView::navigated);
    reveal(StateView::at_source);
    reveal(StateView::refused);
    reveal(StateView::told);
    reveal(StateView::toasted);
    reveal(StateView::stretched);
    reveal(StateView::answered);
    reveal(StateView::unmarked);
}

/// A left click.
pub fn left_click(
    col: u16,
    row: u16,
    area: Rect,
    state: &mut AppState,
    player: &mut CommandLog,
    behaviour: &BehaviourConfig,
    last: Option<(usize, u64)>,
) -> (r: (Option<Task>, Option<(usize, u64)>))
    requires
        behaviour.in_range(),
        old(state)@.pending.next < u64::MAX,
    ensures
        ({
            let (step, next) = old(state)@.left_clicked(
                old(state)@.under(area, col, row),
                render::halves(area).1.width,
                *behaviour,
                last,
            );
            final(state)@ == step.state && final(player)@ == app_loop::logged(old(player)@, step)
                && r.0.deep_view() == step.task && r.1 == next
        }),
{
    let (on, width) = under(state, area, col, row);
    left_click_on(on, width, state, player, behaviour, last)
}

/// A right click at what sits under it.
pub fn right_click_on(
    on: ClickTarget,
    width: u16,
    state: &mut AppState,
    player: &mut CommandLog,
)
    ensures
        final(state)@ == old(state)@.right_clicked(on, width).state,
        final(player)@ == app_loop::logged(old(player)@, old(state)@.right_clicked(on, width)),
{
    proof {
        reveal(StateView::right_clicked);
        app::state_shows_its_switches(&*state);
        assert(player@ + Seq::<PlayerCommandView>::empty() =~= player@);
    }
    if state.modal.is_some() {
        return;
    }
    if click_on(on, width, state, player).is_some() {
        return;
    }
    match state.selected_track() {
        Some(t) => {
            let ghost v = t.deep_view();
            let mut tracks: Vec<Track> = Vec::new();
            tracks.push(t);
            assert(tracks.deep_view() =~= seq![v]);
            let msg = enqueue_message(&tracks, false);
            let ghost mid = player@;
            send_one(player, PlayerCommand::EnqueueBack(tracks));
            assert(player@ =~= old(player)@ + old(state)@.clicked(on, width).sent.push(
                PlayerCommandView::EnqueueBack(seq![v]),
            ));
            state.tell(ToastKind::Success, msg.as_str());
        },
        None => {},
    }
}

/// A right click.
pub fn right_click(
    col: u16,
    row: u16,
    area: Rect,
    state: &mut AppState,
    player: &mut CommandLog,
)
    ensures
        ({
            let step = old(state)@.right_clicked(
                old(state)@.under(area, col, row),
                render::halves(area).1.width,
            );
            final(state)@ == step.state && final(player)@ == app_loop::logged(old(player)@, step)
        }),
{
    let (on, width) = under(state, area, col, row);
    right_click_on(on, width, state, player);
}

impl StateView {
    /// A query is being typed: in the search pane, or in the field of the artists.
    pub open spec fn is_querying(self) -> bool {
        self.pane is Search || (self.pane is Artists && self.artist_search_active)
    }

    /// The search that a query starts: for artists in their pane, for songs elsewhere.
    pub open spec fn search_for(self, q: Seq<char>) -> TaskView {
        if self.pane is Artists && self.artist_search_active {
            TaskView::SearchArtists(q)
        } else {
            TaskView::Search(q)
        }
    }

    /// A query that is due starts its search.
    pub open spec fn searching(self, due: Option<Seq<char>>) -> Step {
        match due {
            Some(q) => app_loop::starting(self, self.search_for(q)),
            None => app_loop::only(self),
        }
    }
}

/// The pause of a query after a keystroke: it starts over while a query is being typed.
pub open spec fn pause_after(d: DebounceView, s: StateView, now_ms: u64) -> DebounceView {
    if s.is_querying() {
        d.noted(s.search_query, now_ms)
    } else {
        d
    }
}

/// Records the current query on every keystroke, restarting the pause. Keystrokes
/// outside a search field are ignored.
pub fn note_search_input(d: &mut SearchDebounce, state: &AppState, now_ms: u64)
    ensures
        final(d)@ == pause_after(old(d)@, state@, now_ms),
{
    proof {
        app::state_shows_its_switches(state);
    }
    if state.pane == Pane::Search || (state.pane == Pane::Artists && state.artist_search_active) {
        d.note_input(state.search_query.as_str(), now_ms);
    }
}

/// Called on every tick. Returns a search to run once typing has settled.
pub fn search_tick(d: &mut SearchDebounce, state: &mut AppState, now_ms: u64) -> (r: Option<Task>)
    ensures
        final(d)@ == old(d)@.asked(now_ms),
        final(state)@ == old(state)@.searching(old(d)@.due(now_ms)).state,
        r.deep_view() == old(state)@.searching(old(d)@.due(now_ms)).task,
{
    proof {
        app::state_shows_its_switches(&*state);
    }
    match d.should_fire(now_ms) {
        Some(q) => {
            let task = if state.pane == Pane::Artists && state.artist_search_active {
                Task::SearchArtists(q)
            } else {
                Task::Search(q)
            };
            start(state, task)
        },
        None => None,
    }
}

/// The theme in use, its name, and the user's own where there is one.
#[derive(Debug, Clone, PartialEq, Eq)]
pub struct ThemeState {
    pub theme: Theme,
    pub name: String,
    pub custom: Option<Theme>,
}

/// The model of a `ThemeState`.
#[verifier::ext_equal]
pub struct ThemeStateView {
    pub theme: Theme,
    pub name: Seq<char>,
    pub custom: Option<Theme>,
}

impl View for ThemeState {
    type V = ThemeStateView;

    open spec fn view(&self) -> ThemeStateView {
        ThemeStateView { theme: self.theme, name: self.name@, custom: self.custom }
    }
}

/// The theme of a name; the default one where there is none of that name.
pub open spec fn theme_named(name: Seq<char>, custom: Option<Theme>) -> Theme {
    let found = if name == "custom"@ {
        custom
    } else {
        theme::preset_named(name)
    };
    match found {
        Some(t) => t,
        None => theme::theme_at(0),
    }
}

impl ThemeStateView {
    /// With the next theme of the cycle.
    pub open spec fn cycled(self) -> ThemeStateView {
        let name = theme::next_name(self.name, self.custom is Some);
        ThemeStateView { theme: theme_named(name, self.custom), name, custom: self.custom }
    }

    /// After the user's own theme changed on disk.
    pub open spec fn recoloured(self, t: Theme) -> ThemeStateView {
        ThemeStateView {
            theme: if self.name == "custom"@ {
                t
            } else {
                self.theme
            },
            custom: Some(t),
            ..self
        }
    }
}

/// Goes on to the next theme of the cycle, and says which.
pub fn cycle_theme(themes: &mut ThemeState, state: &mut AppState)
    ensures
        final(themes)@ == old(themes)@.cycled(),
        final(state)@ == old(state)@.told(
            ToastKind::Info,
            "theme: "@ + old(themes)@.cycled().name,
        ),
{
    let name = Theme::next_preset_with_custom(themes.name.as_str(), themes.custom.is_some());
    let found = if same_text(name, "custom") {
        themes.custom
    } else {
        Theme::preset(name)
    };
    themes.theme = match found {
        Some(t) => t,
        None => Theme::default(),
    };
    themes.name = name.to_owned();
    let msg = join2("theme: ", name);
    state.tell(ToastKind::Info, msg.as_str());
}

/// The user's own theme changed on disk: it is used where it is the one in use.
pub fn theme_file_changed(themes: &mut ThemeState, state: &mut AppState, t: Theme)
    ensures
        final(themes)@ == old(themes)@.recoloured(t),
        final(state)@ == if old(themes)@.name == "custom"@ {
            old(state)@.told(ToastKind::Info, "theme: custom (reloaded)"@)
        } else {
            old(state)@
        },
{
    themes.custom = Some(t);
    if same_text(themes.name.as_str(), "custom") {
        themes.theme = t;
        state.tell(ToastKind::Info, "theme: custom (reloaded)");
    }
}

/// Whether a theme file is to be looked at again.
pub fn theme_check_due(auto_reload: bool, has_file: bool, now_ms: u64, last_ms: u64) -> (r: bool)
    ensures
        r == (auto_reload && has_file && now_ms - last_ms >= THEME_CHECK_INTERVAL_MS),
{
    auto_reload && has_file && now_ms.saturating_sub(last_ms) >= THEME_CHECK_INTERVAL_MS
}

/// The theme of a file that was written at `mtime`, where that is news and it is a
/// theme. A file that is being written is looked at again.
pub fn check_theme_file_update(text: &str, mtime: u64, last_mtime: &mut Option<u64>) -> (r: Option<
    Theme,
>)
    ensures
        ({
            let read = theme::theme_parsed(text@);
            if *old(last_mtime) == Some(mtime) || read is Err {
                r is None && *final(last_mtime) == *old(last_mtime)
            } else {
                r == Some(read->Ok_0) && *final(last_mtime) == Some(mtime)
            }
        }),
{
    let seen: bool = match *last_mtime {
        Some(t) => t == mtime,
        None => false,
    };
    if seen {
        return None;
    }
    match Theme::from_toml_str(text) {
        Ok(t) => {
            *last_mtime = Some(mtime);
            Some(t)
        },
        Err(_) => None,
    }
}

/// What a key leads to, beyond what it changes at once.
#[derive(Debug, Clone, PartialEq, Eq)]
pub enum Pressed {
    /// Work to start, if any.
    Work(Option<Task>),
    /// The configuration is to be edited.
    EditConfig,
}

/// What a key leads to: to the state, the player and the background, to the theme, and
/// whether the configuration is to be edited.
pub struct Keyed {
    pub step: Step,
    pub themes: ThemeStateView,
    pub edits: bool,
}

impl StateView {
    /// What an intent by key leads to. Where nothing lies over the interface, one key is for
    /// the theme and one for the configuration; the others are dispatched.
    pub open spec fn keyed(self, a: InputAction, b: BehaviourConfig, themes: ThemeStateView) -> Keyed {
        if a is CycleTheme && self.modal is None {
            Keyed {
                step: app_loop::only(
                    self.told(ToastKind::Info, "theme: "@ + themes.cycled().name),
                ),
                themes: themes.cycled(),
                edits: false,
            }
        } else if a is EditConfig && self.modal is None {
            Keyed { step: app_loop::only(self), themes, edits: true }
        } else {
            Keyed { step: self.dispatched(a, b), themes, edits: false }
        }
    }
}

/// An intent, by key: those that reach for the theme or the terminal are taken here,
/// the others dispatched.
pub fn press(
    a: InputAction,
    state: &mut AppState,
    player: &mut CommandLog,
    behaviour: &BehaviourConfig,
    themes: &mut ThemeState,
) -> (r: Pressed)
    requires
        behaviour.in_range(),
        old(state)@.pending.next < u64::MAX,
    ensures
        ({
            let k = old(state)@.keyed(a, *behaviour, old(themes)@);
            &&& final(state)@ == k.step.state
            &&& final(player)@ == app_loop::logged(old(player)@, k.step)
            &&& final(themes)@ == k.themes
            &&& match r {
                Pressed::Work(t) => !k.edits && t.deep_view() == k.step.task,
                Pressed::EditConfig => k.edits,
            }
        }),
{
    proof {
        app::state_shows_its_switches(&*state);
    }
    proof {
        assert(player@ + Seq::<PlayerCommandView>::empty() =~= player@);
    }
    let open: bool = state.modal.is_some();
    if a == InputAction::CycleTheme && !open {
        cycle_theme(themes, state);
        Pressed::Work(None)
    } else if a == InputAction::EditConfig && !open {
        Pressed::EditConfig
    } else {
        let task = dispatch_input(a, state, player, behaviour);
        Pressed::Work(task)
    }
}

/// After a key: the clock, and the pause of a query.
pub fn key_done(d: &mut SearchDebounce, state: &mut AppState, now_ms: u64)
    ensures
        final(state)@ == (StateView { elapsed_ms: now_ms, ..old(state)@ }),
        final(d)@ == pause_after(old(d)@, old(state)@, now_ms),
{
    state.set_elapsed_ms(now_ms);
    note_search_input(d, state, now_ms);
}

/// Says what came of editing the configuration: whether it was reloaded, or why not.
pub fn config_edited(state: &mut AppState, outcome: Result<bool, String>)
    ensures
        final(state)@ == match outcome {
            Ok(true) => old(state)@.told(ToastKind::Success, "config reloaded"@),
            Ok(false) => old(state)@,
            Err(e) => old(state)@.told(ToastKind::Error, "config not reloaded: "@ + e@),
        },
{
    match outcome {
        Ok(reloaded) => {
            if reloaded {
                state.tell(ToastKind::Success, "config reloaded");
            }
        },
        Err(e) => {
            let msg = join2("config not reloaded: ", e.as_str());
            state.tell(ToastKind::Error, msg.as_str());
        },
    }
}

/// Whether the desktop is to be told of something the player did. Not of every step
/// of the progress: a desktop reckons the position by itself.
pub fn is_news(ev: &PlayerEvent) -> (r: bool)
    ensures
        r == (ev is TrackChanged || ev is StateChanged),
{
    match ev {
        PlayerEvent::TrackChanged(_) => true,
        PlayerEvent::StateChanged(_) => true,
        _ => false,
    }
}

impl StateView {
    /// After an answer that may show an expired cookie.
    pub open spec fn hinted(self, cookie_auth: bool, ev: EventView) -> StateView {
        if background::looks_expired(cookie_auth, ev) {
            self.told(
                ToastKind::Info,
                "library came back empty \u{2014} if that is wrong, the cookie expired; re-export it"@,
            )
        } else {
            self
        }
    }

    /// After tracks were fetched in order to be queued.
    pub open spec fn queued(self, toast: Option<Seq<char>>) -> StateView {
        let s = StateView { loading: false, ..self };
        match toast {
            Some(m) => s.told(ToastKind::Success, m),
            None => s,
        }
    }

    /// After an answer from the background, and what goes to the player for it: tracks that
    /// were fetched in order to be queued.
    pub open spec fn took(self, cookie_auth: bool, ev: AppEvent) -> Step {
        let s = self.hinted(cookie_auth, ev.deep_view());
        match ev.deep_view() {
            EventView::ArtLoaded { .. } => app_loop::only(s),
            EventView::EnqueueTracks { tracks, play_next, toast } => app_loop::sending(
                s.queued(toast),
                if play_next {
                    PlayerCommandView::EnqueueNext(tracks)
                } else {
                    PlayerCommandView::EnqueueBack(tracks)
                },
            ),
            _ => app_loop::only(s.after(ev)),
        }
    }

    /// After the handshake of the source, or its failure, and the fetch that fills the pane
    /// one starts in.
    pub open spec fn connected(self, built: Result<bool, Seq<char>>) -> Step {
        match built {
            Ok(authenticated) => {
                let s = self.settled(authenticated);
                let task = app_loop::fetch_of(s.pane);
                Step {
                    state: if task is Some {
                        s
                    } else {
                        StateView { loading: false, ..s }
                    },
                    sent: Seq::empty(),
                    task,
                }
            },
            Err(why) => app_loop::only(
                (StateView { loading: false, ..self }).told(
                    ToastKind::Error,
                    "could not sign in: "@ + why,
                ),
            ),
        }
    }

    /// After the clock has moved on: messages fade, and a query that is due is searched for.
    pub open spec fn ticked(self, now_ms: u64, due: Option<Seq<char>>) -> Step {
        (StateView { elapsed_ms: now_ms, ..self }).after(AppEvent::Tick).searching(due)
    }

    /// The picture that belongs to what plays.
    pub open spec fn picture(self) -> Option<Seq<char>> {
        match self.now_playing {
            Some(t) => t.thumbnail_url,
            None => None,
        }
    }

    /// What the player is told at the end of a frame: that it is over, where it is.
    pub open spec fn parting(self) -> Seq<PlayerCommandView> {
        if self.should_quit {
            seq![PlayerCommandView::Shutdown]
        } else {
            Seq::empty()
        }
    }

    /// The volume to keep, where it is over.
    pub open spec fn parting_volume(self) -> Option<u8> {
        if self.should_quit {
            Some(self.volume)
        } else {
            None
        }
    }
}

/// What came of a handshake, as a model.
pub open spec fn handshake(built: Result<bool, String>) -> Result<bool, Seq<char>> {
    match built {
        Ok(authenticated) => Ok(authenticated),
        Err(e) => Err(e@),
    }
}

/// An answer from the background, handed to whom it concerns. Returns what is to be
/// kept of it.
pub fn background_event(
    ev: AppEvent,
    cookie_auth: bool,
    state: &mut AppState,
    player: &mut CommandLog,
    art: &mut ArtCache,
) -> (r: Option<CacheWork>)
    ensures
        r.deep_view() == cache::work_of(ev.deep_view()),
        final(art)@ == match ev.deep_view() {
            EventView::ArtFailed { url } => old(art)@.trying(url),
            _ => old(art)@,
        },
        final(state)@ == old(state)@.took(cookie_auth, ev).state,
        final(player)@ == app_loop::logged(old(player)@, old(state)@.took(cookie_auth, ev)),
{
    proof {
        assert(player@ + Seq::<PlayerCommandView>::empty() =~= player@);
    }
    match empty_library_hint(cookie_auth, &ev) {
        Some(hint) => state.tell(ToastKind::Info, hint.as_str()),
        None => {},
    }
    let work = cache_work(&ev);
    match &ev {
        AppEvent::ArtFailed { url } => art.mark_failed(url.as_str()),
        _ => {},
    }
    match ev {
        AppEvent::ArtLoaded { .. } => {},
        AppEvent::EnqueueTracks { tracks, play_next, toast } => {
            state.set_loading(false);
            send_one(
                player,
                if play_next {
                    PlayerCommand::EnqueueNext(tracks)
                } else {
                    PlayerCommand::EnqueueBack(tracks)
                },
            );
            match toast {
                Some(m) => state.tell(ToastKind::Success, m.as_str()),
                None => {},
            }
        },
        other => state.apply(other),
    }
    work
}

/// The source has finished its handshake, with or without an account; or it could
/// not. Returns the fetch that fills the pane one starts in.
pub fn source_built(state: &mut AppState, built: Result<bool, String>) -> (r: Option<Task>)
    ensures
        final(state)@ == old(state)@.connected(handshake(built)).state,
        r.deep_view() == old(state)@.connected(handshake(built)).task,
{
    match built {
        Ok(authenticated) => {
            source_ready(state, authenticated);
            proof {
                app::state_shows_its_switches(&*state);
            }
            match pane_task(state.pane) {
                Some(task) => Some(task),
                None => {
                    state.set_loading(false);
                    None
                },
            }
        },
        Err(e) => {
            state.set_loading(false);
            let msg = join2("could not sign in: ", e.as_str());
            state.tell(ToastKind::Error, msg.as_str());
            None
        },
    }
}

/// The clock: messages fade, a search that is due starts, and a picture that is still
/// to be had is asked for.
pub fn tick(
    now_ms: u64,
    state: &mut AppState,
    d: &mut SearchDebounce,
    art: &mut ArtCache,
) -> (r: (Option<Task>, Option<String>))
    ensures
        final(d)@ == old(d)@.asked(now_ms),
        final(state)@ == old(state)@.ticked(now_ms, old(d)@.due(now_ms)).state,
        r.0.deep_view() == old(state)@.ticked(now_ms, old(d)@.due(now_ms)).task,
        ({
            let s = (StateView { elapsed_ms: now_ms, ..old(state)@ }).after(AppEvent::Tick);
            match s.picture() {
                Some(u) if old(art)@.enabled => final(art)@ == old(art)@.trying(u)
                    && r.1.deep_view() == if old(art)@.tried.contains(u) {
                    None
                } else {
                    Some(u)
                },
                _ => final(art)@ == old(art)@ && r.1 is None,
            }
        }),
{
    state.set_elapsed_ms(now_ms);
    state.apply(AppEvent::Tick);
    let task = search_tick(d, state, now_ms);
    let url = if art.is_enabled() {
        art_tick(art, state)
    } else {
        None
    };
    (task, url)
}

/// Before a frame: how many rows of the list it has room for.
pub fn frame_begins(state: &mut AppState, area: Rect)
    ensures
        final(state)@ == (StateView {
            viewport_rows: render::list_rows(
                area,
                render::list_top(
                    old(state)@.search_row_visible(),
                    old(state)@.filter_row_visible(),
                    old(state)@.column_header_visible(),
                ),
            ) as usize,
            ..old(state)@
        }),
{
    let rows = list_rows_for(
        area,
        state.search_row_visible(),
        state.filter_row_visible(),
        state.column_header_visible(),
    );
    state.set_viewport_rows(rows);
}

/// After a frame: where the user quits, the player is shut down, and the volume they
/// left at is handed out to be kept.
pub fn frame_ends(state: &AppState, player: &mut CommandLog) -> (r: Option<u8>)
    ensures
        r == state@.parting_volume(),
        final(player)@ == old(player)@ + state@.parting(),
{
    proof {
        app::state_shows_its_switches(state);
        assert(player@ + Seq::<PlayerCommandView>::empty() =~= player@);
    }
    if state.should_quit {
        send_one(player, PlayerCommand::Shutdown);
        Some(state.volume)
    } else {
        None
    }
}

/// A single click never starts anything playing: all it sends the player is where in
/// what is playing to be.
pub proof fn a_click_never_starts_playing(s: StateView, on: ClickTarget, width: u16)
    ensures
        forall|i: int|
            0 <= i < s.clicked(on, width).sent.len() ==> (#[trigger] s.clicked(
                on,
                width,
            ).sent[i]) is SeekAbsolute,
{
    reveal(StateView::clicked);
}

/// While an overlay is open, clicks do nothing.
pub proof fn an_overlay_takes_no_clicks(
    s: StateView,
    on: ClickTarget,
    width: u16,
    b: BehaviourConfig,
    last: Option<(usize, u64)>,
)
    requires
        s.modal is Some,
    ensures
        s.left_clicked(on, width, b, last) == (app_loop::only(s), last),
        s.right_clicked(on, width) == app_loop::only(s),
{
    reveal(StateView::left_clicked);
    reveal(StateView::right_clicked);
}

} // verus!
