//! What the loop round the interface is for: that what is typed is searched for, that the
//! source fills the pane one starts in, that clicks do what keys do, and that quitting
//! shuts the player down.

use crate::app::{self, StateView, ToastKind};
use crate::app_loop;
use crate::config::BehaviourConfig;
use crate::event::InputAction;
use crate::event_loop::{self, ThemeStateView};
use crate::laws_intents::{idle, lists, on, same_lists, says};
use crate::laws_lists::pressed;
use crate::laws_words::lemma_between;
use crate::model::TrackView;
use crate::player::PlayerCommandView;
use crate::render::ClickTarget;
use crate::resolver;
use crate::search_state::DebounceView;
use crate::tasks::TaskView;
use crate::text;
use crate::theme::Theme;
use vstd::prelude::*;

verus! {

/// What is typed into the query is searched for once the typing has paused, as a whole and
/// once: among the artists where they are being searched, else among the songs. Before the
/// pause is over nothing is searched for.
#[verifier::spinoff_prover]
pub proof fn what_is_typed_is_searched_for(
    s: StateView,
    d: DebounceView,
    at: u64,
    now: u64,
    later: u64,
)
    requires
        s.pane is Search || (s.pane is Artists && s.artist_search_active),
        text::trimmed(s.search_query).len() > 0,
        at <= now <= later,
        d.delay_ms > 0,
    ensures
        ({
            let waiting = event_loop::pause_after(d, s, at);
            let step = s.ticked(now, waiting.due(now));
            let again = step.state.ticked(later, waiting.asked(now).due(later));
            &&& now - at < d.delay_ms ==> step.task is None && waiting.asked(now) == waiting
            &&& now - at >= d.delay_ms ==> {
                &&& step.task == Some(
                    if s.pane is Artists {
                        TaskView::SearchArtists(s.search_query)
                    } else {
                        TaskView::Search(s.search_query)
                    },
                )
                &&& step.state.loading
                &&& again.task is None
            }
            &&& step.sent.len() == 0
            &&& step.state.search_query == s.search_query && same_lists(s, step.state)
        }),
{
    reveal(StateView::after);
}

/// A query of nothing but blanks is not searched for, nor is what was typed before it.
pub proof fn blanks_are_not_searched_for(s: StateView, d: DebounceView, at: u64, now: u64)
    requires
        s.pane is Search || (s.pane is Artists && s.artist_search_active),
        text::trimmed(s.search_query).len() == 0,
    ensures
        event_loop::pause_after(d, s, at).due(now) is None,
        s.ticked(now, None).task is None,
{
}

/// Where there is no query, keys start no pause.
pub proof fn other_panes_leave_the_pause(s: StateView, d: DebounceView, at: u64)
    requires
        !(s.pane is Search),
        !(s.pane is Artists && s.artist_search_active),
    ensures
        event_loop::pause_after(d, s, at) == d,
{
}

/// Once the source knows the account, the pane one is in is filled, and there is no guest.
pub proof fn an_account_fills_the_pane(s: StateView)
    ensures
        ({
            let step = s.connected(Ok(true));
            &&& !step.state.guest
            &&& step.state.pane == s.pane
            &&& step.task == app_loop::fetch_of(s.pane)
            &&& step.task is None ==> !step.state.loading
            &&& step.sent.len() == 0
            &&& same_lists(s, step.state) && step.state.toasts == s.toasts
        }),
{
    reveal(StateView::settled);
}

/// Where the source knows no account, a pane that takes one is left for the search, what
/// was kept of a library is dropped, and the user is told. Nothing is fetched for it.
pub proof fn without_an_account_there_is_the_search(s: StateView)
    ensures
        ({
            let t = s.connected(Ok(false)).state;
            &&& t.guest
            &&& s.connected(Ok(false)).sent.len() == 0
            &&& (s.pane is Home || s.pane is Playlists || s.pane is Songs || s.pane is Albums
                || s.pane is Artists) ==> {
                &&& t.pane is Search && t.focus is SearchInput && t.sidebar_selected == 5
                &&& t.playlists.len() == 0 && t.tracks.len() == 0 && t.albums.len() == 0
                &&& t.artists.len() == 0 && t.home_rows.len() == 0 && t.open_playlist is None
                &&& t.queue == s.queue && t.downloaded_tracks == s.downloaded_tracks
                &&& says(s, t, ToastKind::Info)
                &&& s.connected(Ok(false)).task is None && !t.loading
            }
            &&& (s.pane is Search || s.pane is Queue || s.pane is Downloads) ==> t.pane == s.pane
                && same_lists(s, t) && t.toasts == s.toasts
        }),
{
    reveal(StateView::settled);
    reveal(StateView::told);
    reveal(StateView::toasted);
    let t = s.connected(Ok(false)).state;
    if s.pane.needs_account() {
        assert(t.toasts.drop_last() =~= s.toasts);
    }
}

/// A handshake that failed is said with its reason, ends the wait, and changes nothing else.
pub proof fn a_failed_handshake_is_said(s: StateView, why: Seq<char>)
    ensures
        ({
            let step = s.connected(Err(why));
            &&& step.task is None && step.sent.len() == 0
            &&& says(s, step.state, ToastKind::Error)
            &&& step.state.toasts.last().text == "could not sign in: "@ + why
            &&& !step.state.loading
            &&& same_lists(s, step.state) && step.state.guest == s.guest && step.state.pane == s.pane
        }),
{
    reveal(StateView::told);
    reveal(StateView::toasted);
    assert(s.connected(Err(why)).state.toasts.drop_last() =~= s.toasts);
}

/// Quitting shuts the player down and keeps the volume there was; until then the player is
/// told nothing at the end of a frame.
pub proof fn quitting_shuts_the_player_down(s: StateView)
    ensures
        s.should_quit ==> s.parting() == seq![PlayerCommandView::Shutdown] && s.parting_volume()
            == Some(s.volume),
        !s.should_quit ==> s.parting().len() == 0 && s.parting_volume() is None,
{
}

/// The picture that shows belongs to what plays.
pub proof fn the_picture_belongs_to_what_plays(s: StateView)
    ensures
        s.now_playing is None ==> s.picture() is None,
        s.now_playing matches Some(t) ==> s.picture() == t.thumbnail_url,
{
}

/// A click on a row puts the cursor on it: the row that is drawn there, from the first one
/// on screen. Nothing is played and nothing fetched. Below the last row it does nothing.
pub proof fn a_click_selects_the_row_it_is_on(s: StateView, width: u16, offset: usize)
    requires
        s.visible().len() <= usize::MAX,
    ensures
        ({
            let step = s.clicked(ClickTarget::Row(offset), width);
            &&& idle(step)
            &&& s.scroll_offset + offset < s.visible().len() ==> step.state.selected
                == s.scroll_offset + offset && step.state.focus is Main && on(
                step.state,
                s.visible()[s.scroll_offset + offset],
            )
            &&& s.scroll_offset + offset >= s.visible().len() ==> step.state == s
            &&& same_lists(s, step.state) && step.state.scroll_offset == s.scroll_offset
        }),
{
    reveal(StateView::clicked);
    reveal(StateView::stretched);
}

/// A click on a source opens it, as its number does.
pub proof fn a_click_on_a_source_opens_it(
    s: StateView,
    b: BehaviourConfig,
    width: u16,
    last: Option<(usize, u64)>,
    i: usize,
)
    requires
        s.modal is None,
        i < 8,
        app_loop::fetch_of(
            pressed(s, InputAction::GoTo((i + 1) as u8)).pane,
        ) is Some,
    ensures
        s.left_clicked(ClickTarget::Source(i), width, b, last).0 == s.dispatched(
            InputAction::GoTo((i + 1) as u8),
            b,
        ),
        s.left_clicked(ClickTarget::Source(i), width, b, last).1 is None,
{
    reveal(StateView::clicked);
    reveal(StateView::left_clicked);
    reveal(StateView::gone_to);
}

/// The second click on a row, soon enough, does what Enter does there; the first only puts
/// the cursor on it, and one that comes too late is a first one again.
pub proof fn a_second_click_is_enter(
    s: StateView,
    b: BehaviourConfig,
    width: u16,
    offset: usize,
    at: u64,
)
    requires
        s.modal is None,
        s.scroll_offset + offset == s.selected,
        s.selected < s.visible().len(),
        s.visual_anchor is None,
        at <= s.elapsed_ms,
    ensures
        ({
            let row = ClickTarget::Row(offset);
            let here = s.clicked(row, width).state;
            let first = s.left_clicked(row, width, b, None);
            let second = s.left_clicked(row, width, b, Some((s.selected, at)));
            &&& idle(first.0) && first.0.state == here
            &&& first.1 == Some((s.selected, s.elapsed_ms))
            &&& s.elapsed_ms - at <= event_loop::DOUBLE_CLICK_MS ==> {
                &&& second.0.state == here.dispatched(InputAction::Confirm, b).state
                &&& second.0.sent == here.dispatched(InputAction::Confirm, b).sent
                &&& second.0.task == here.dispatched(InputAction::Confirm, b).task
                &&& second.1 is None
            }
            &&& s.elapsed_ms - at > event_loop::DOUBLE_CLICK_MS ==> second == first
        }),
{
    reveal(StateView::clicked);
    reveal(StateView::left_clicked);
    reveal(StateView::stretched);
    let row = ClickTarget::Row(offset);
    let here = s.clicked(row, width).state;
    assert(s.clicked(row, width).sent + here.dispatched(InputAction::Confirm, b).sent
        =~= here.dispatched(InputAction::Confirm, b).sent);
}

/// A click on one row and then on another is no double click.
pub proof fn clicks_on_two_rows_are_two_clicks(
    s: StateView,
    b: BehaviourConfig,
    width: u16,
    offset: usize,
    row: usize,
    at: u64,
)
    requires
        s.modal is None,
        s.scroll_offset + offset < s.visible().len() <= usize::MAX,
        row != s.scroll_offset + offset,
    ensures
        idle(s.left_clicked(ClickTarget::Row(offset), width, b, Some((row, at))).0),
{
    reveal(StateView::clicked);
    reveal(StateView::left_clicked);
    reveal(StateView::stretched);
}

/// A right click on a track queues that one, behind what is to come, and says so.
pub proof fn a_right_click_queues_the_row(
    s: StateView,
    width: u16,
    offset: usize,
    ts: Seq<TrackView>,
)
    requires
        s.modal is None,
        lists(s, ts),
        s.scroll_offset + offset < s.visible().len() <= usize::MAX,
    ensures
        ({
            let step = s.right_clicked(ClickTarget::Row(offset), width);
            &&& step.sent == seq![
                PlayerCommandView::EnqueueBack(seq![ts[s.visible()[s.scroll_offset + offset]]]),
            ]
            &&& step.task is None
            &&& step.state.selected == s.scroll_offset + offset
            &&& says(s, step.state, ToastKind::Success)
            &&& same_lists(s, step.state)
        }),
{
    reveal(StateView::clicked);
    reveal(StateView::right_clicked);
    reveal(StateView::stretched);
    reveal(StateView::told);
    reveal(StateView::toasted);
    let step = s.right_clicked(ClickTarget::Row(offset), width);
    assert(step.state.toasts.drop_last() =~= s.toasts);
    let here = s.clicked(ClickTarget::Row(offset), width).state;
    assert(here.visible() == s.visible());
    assert(step.sent =~= seq![
        PlayerCommandView::EnqueueBack(seq![ts[s.visible()[s.scroll_offset + offset]]]),
    ]);
}

/// The user's own theme, changed on disk, is the one they see where it is the one in use,
/// and the one they come to where it is not.
pub proof fn an_own_theme_is_used_as_it_is(themes: ThemeStateView, t: Theme)
    ensures
        ({
            let after = themes.recoloured(t);
            &&& after.name == themes.name
            &&& themes.name == "custom"@ ==> after.theme == t
            &&& themes.name != "custom"@ ==> after.theme == themes.theme
            &&& after.cycled().name == "custom"@ ==> after.cycled().theme == t
        }),
{
}

/// Where nothing lies over the interface, the theme key goes on to the next theme and says
/// which, and the key for the configuration asks for it to be edited; neither does anything
/// else. Every other key, and every key under an overlay, does what its intent does.
pub proof fn what_a_key_leads_to(
    s: StateView,
    a: InputAction,
    b: BehaviourConfig,
    themes: ThemeStateView,
)
    ensures
        ({
            let k = s.keyed(a, b, themes);
            let own = s.modal is None && (a is CycleTheme || a is EditConfig);
            &&& !own ==> k.step == s.dispatched(a, b) && k.themes == themes && !k.edits
            &&& own ==> idle(k.step) && same_lists(s, k.step.state)
            &&& own && a is EditConfig ==> k.edits && k.themes == themes && k.step.state == s
            &&& own && a is CycleTheme ==> !k.edits && k.themes == themes.cycled() && says(
                s,
                k.step.state,
                ToastKind::Info,
            ) && text::has_part(k.step.state.toasts.last().text, k.themes.name)
        }),
{
    reveal(StateView::told);
    reveal(StateView::toasted);
    let k = s.keyed(a, b, themes);
    if s.modal is None && a is CycleTheme {
        assert(k.step.state.toasts.drop_last() =~= s.toasts);
        lemma_between("theme: "@, k.themes.name, Seq::empty());
    }
}

/// How long things last: a message for four seconds, a double click for less than half of
/// one, an address that was found for four hours.
pub proof fn how_long_things_last()
    ensures
        app::TOAST_MS == 4 * 1000,
        2 * event_loop::DOUBLE_CLICK_MS < 1000 && event_loop::DOUBLE_CLICK_MS >= 400,
        resolver::TTL_SECS == 4 * 60 * 60,
{
}

} // verus!
