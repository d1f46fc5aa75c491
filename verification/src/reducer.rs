//! How each event changes the application state.

use crate::app::{
    self, AppState, Focus, HomeRow, HomeRowView, Modal, ModalView, Pane, StateView, TOAST_MS, Toast,
    ToastKind, ToastView,
};
use crate::copied::Copied;
use crate::event::{AppEvent, InputAction};
use crate::model::{
    AlbumId, ArtistId, HomeShelf, HomeShelfView, Playlist, PlaylistId, PlaylistView, Track,
    TrackDuration, TrackView, VideoId,
};
use crate::mutation::{
    self, Mutation, MutationView, Underway, UnderwayView, drop_rows, restore_rows,
};
use crate::player::PlayerEvent;
use crate::queue;
use crate::text::{self, chars_of, cut_text, insert_text, join3, text_of, word_end, word_start};
use vstd::prelude::*;

verus! {

/// A number brought within the machine's range.
pub open spec fn saturated(n: int) -> usize {
    if n < 0 {
        0
    } else if n > usize::MAX {
        usize::MAX
    } else {
        n as usize
    }
}

/// The first playlist with this id.
pub open spec fn playlist_at(ps: Seq<PlaylistView>, id: Seq<char>) -> Option<int>
    decreases ps.len(),
{
    if ps.len() == 0 {
        None
    } else {
        match playlist_at(ps.drop_last(), id) {
            Some(i) => Some(i),
            None => if ps.last().id == id {
                Some(ps.len() - 1)
            } else {
                None
            },
        }
    }
}

/// The last playlist with this id.
pub open spec fn last_playlist_at(ps: Seq<PlaylistView>, id: Seq<char>) -> Option<int>
    decreases ps.len(),
{
    if ps.len() == 0 {
        None
    } else if ps.last().id == id {
        Some(ps.len() - 1)
    } else {
        last_playlist_at(ps.drop_last(), id)
    }
}

pub proof fn lemma_playlist_at(ps: Seq<PlaylistView>, id: Seq<char>)
    ensures
        match playlist_at(ps, id) {
            Some(i) => 0 <= i < ps.len() && ps[i].id == id && (forall|k: int|
                0 <= k < i ==> (#[trigger] ps[k]).id != id),
            None => forall|k: int| 0 <= k < ps.len() ==> (#[trigger] ps[k]).id != id,
        },
    decreases ps.len(),
{
    if ps.len() > 0 {
        lemma_playlist_at(ps.drop_last(), id);
        assert forall|k: int| 0 <= k < ps.len() - 1 implies (#[trigger] ps[k])
            == ps.drop_last()[k] by {}
    }
}

/// Finds the first playlist with this id.
pub fn find_playlist(ps: &Vec<Playlist>, id: &PlaylistId) -> (r: Option<usize>)
    ensures
        match r {
            Some(i) => i < ps@.len() && playlist_at(ps.deep_view(), id.deep_view()) == Some(
                i as int,
            ),
            None => playlist_at(ps.deep_view(), id.deep_view()) is None,
        },
{
    let mut i: usize = 0;
    while i < ps.len()
        invariant
            i <= ps@.len(),
            forall|k: int| 0 <= k < i ==> (#[trigger] ps@[k]).id.deep_view() != id.deep_view(),
        decreases ps@.len() - i,
    {
        if ps[i].id.same(id) {
            proof {
                lemma_playlist_at(ps.deep_view(), id.deep_view());
                assert(ps.deep_view()[i as int].id == id.deep_view());
                assert forall|k: int| 0 <= k < i implies (#[trigger] ps.deep_view()[k]).id
                    != id.deep_view() by {
                    assert(ps@[k].id.deep_view() != id.deep_view());
                }
            }
            return Some(i);
        }
        i += 1;
    }
    proof {
        lemma_playlist_at(ps.deep_view(), id.deep_view());
        assert forall|k: int| 0 <= k < ps.deep_view().len() implies (#[trigger] ps.deep_view()[k]).id
            != id.deep_view() by {
            assert(ps@[k].id.deep_view() != id.deep_view());
        }
    }
    None
}

/// Finds the last playlist with this id.
fn find_last_playlist(ps: &Vec<Playlist>, id: &PlaylistId) -> (r: Option<usize>)
    ensures
        match r {
            Some(i) => i < ps@.len() && last_playlist_at(ps.deep_view(), id.deep_view()) == Some(
                i as int,
            ),
            None => last_playlist_at(ps.deep_view(), id.deep_view()) is None,
        },
{
    let mut i: usize = ps.len();
    assert(ps.deep_view().take(i as int) =~= ps.deep_view());
    while i > 0
        invariant
            i <= ps@.len(),
            last_playlist_at(ps.deep_view().take(i as int), id.deep_view()) == last_playlist_at(
                ps.deep_view(),
                id.deep_view(),
            ),
        decreases i,
    {
        let ghost upto = ps.deep_view().take(i as int);
        assert(upto.last() == ps@[i - 1].deep_view());
        assert(upto.drop_last() =~= ps.deep_view().take(i - 1));
        if ps[i - 1].id.same(id) {
            return Some(i - 1);
        }
        i -= 1;
    }
    None
}

/// With the first playlist of this id called something else.
pub open spec fn retitled(
    ps: Seq<PlaylistView>,
    id: Seq<char>,
    title: Seq<char>,
) -> Seq<PlaylistView> {
    match playlist_at(ps, id) {
        Some(i) => ps.update(i, PlaylistView { title, ..ps[i] }),
        None => ps,
    }
}

fn retitle(ps: &mut Vec<Playlist>, id: &PlaylistId, title: &String)
    ensures
        final(ps).deep_view() == retitled(old(ps).deep_view(), id.deep_view(), title@),
{
    match find_playlist(ps, id) {
        None => {},
        Some(i) => {
            let mut p = ps[i].copy();
            p.title = title.clone();
            ps.set(i, p);
            assert(ps.deep_view() =~= retitled(old(ps).deep_view(), id.deep_view(), title@));
        },
    }
}

/// The rows a home feed shows: each shelf's title, then its cards.
pub open spec fn feed_rows(shelves: Seq<HomeShelfView>) -> Seq<HomeRowView>
    decreases shelves.len(),
{
    if shelves.len() == 0 {
        Seq::empty()
    } else {
        feed_rows(shelves.drop_last()) + shelf_rows(shelves.last())
    }
}

pub open spec fn shelf_rows(shelf: HomeShelfView) -> Seq<HomeRowView> {
    seq![HomeRowView::Shelf(shelf.title)] + Seq::new(
        shelf.items.len(),
        |i: int| HomeRowView::Item(shelf.items[i]),
    )
}

fn push_shelf(out: &mut Vec<HomeRow>, shelf: &HomeShelf)
    ensures
        final(out).deep_view() == old(out).deep_view() + shelf_rows(shelf.deep_view()),
{
    out.push(HomeRow::Shelf(shelf.title.clone()));
    let ghost want = shelf_rows(shelf.deep_view());
    let mut i: usize = 0;
    assert(out.deep_view() =~= old(out).deep_view() + want.take(1));
    while i < shelf.items.len()
        invariant
            i <= shelf.items@.len(),
            want == shelf_rows(shelf.deep_view()),
            out.deep_view() == old(out).deep_view() + want.take(i + 1),
        decreases shelf.items@.len() - i,
    {
        let ghost before = out.deep_view();
        out.push(HomeRow::Item(shelf.items[i].copy()));
        i += 1;
        assert(out.deep_view() =~= before.push(want[i as int]));
        assert(want.take(i + 1) =~= want.take(i as int).push(want[i as int]));
        assert(out.deep_view() =~= old(out).deep_view() + want.take(i + 1));
    }
    assert(want.take(i + 1) =~= want);
}

fn rows_of_feed(shelves: &Vec<HomeShelf>) -> (r: Vec<HomeRow>)
    ensures
        r.deep_view() == feed_rows(shelves.deep_view()),
{
    let mut out: Vec<HomeRow> = Vec::new();
    let mut i: usize = 0;
    assert(out.deep_view() =~= feed_rows(shelves.deep_view().take(0)));
    while i < shelves.len()
        invariant
            i <= shelves@.len(),
            out.deep_view() == feed_rows(shelves.deep_view().take(i as int)),
        decreases shelves@.len() - i,
    {
        let ghost upto = shelves.deep_view().take(i + 1);
        assert(upto.last() == shelves@[i as int].deep_view());
        assert(upto.drop_last() =~= shelves.deep_view().take(i as int));
        push_shelf(&mut out, &shelves[i]);
        i += 1;
    }
    assert(shelves.deep_view().take(i as int) =~= shelves.deep_view());
    out
}

/// The messages still young enough to show.
pub open spec fn fresh_toasts(toasts: Seq<ToastView>, now: u64) -> Seq<ToastView>
    decreases toasts.len(),
{
    if toasts.len() == 0 {
        Seq::empty()
    } else if now - toasts.last().since_ms < TOAST_MS {
        fresh_toasts(toasts.drop_last(), now).push(toasts.last())
    } else {
        fresh_toasts(toasts.drop_last(), now)
    }
}

fn keep_fresh(toasts: &Vec<Toast>, now: u64) -> (r: Vec<Toast>)
    ensures
        r.deep_view() == fresh_toasts(toasts.deep_view(), now),
{
    let mut out: Vec<Toast> = Vec::new();
    let mut i: usize = 0;
    assert(out.deep_view() =~= fresh_toasts(toasts.deep_view().take(0), now));
    while i < toasts.len()
        invariant
            i <= toasts@.len(),
            out.deep_view() == fresh_toasts(toasts.deep_view().take(i as int), now),
        decreases toasts@.len() - i,
    {
        let ghost upto = toasts.deep_view().take(i + 1);
        let ghost before = out.deep_view();
        assert(upto.last() == toasts@[i as int].deep_view());
        assert(upto.drop_last() =~= toasts.deep_view().take(i as int));
        if now < toasts[i].since_ms || now - toasts[i].since_ms < TOAST_MS {
            out.push(toasts[i].copy());
            assert(out.deep_view() =~= before.push(upto.last()));
        }
        i += 1;
    }
    assert(toasts.deep_view().take(i as int) =~= toasts.deep_view());
    out
}

impl StateView {
    /// The place of the caret within the query.
    pub open spec fn caret(self) -> int {
        if self.search_caret < self.search_query.len() {
            self.search_caret as int
        } else {
            self.search_query.len() as int
        }
    }

    /// With another query; what was under the cursor is gone with the old one.
    #[verifier::opaque]
    pub open spec fn asking(self, query: Seq<char>, caret: int) -> StateView {
        StateView {
            search_query: query,
            search_caret: saturated(caret),
            selected: 0,
            scroll_offset: 0,
            ..self
        }
    }

    pub open spec fn with_caret(self, caret: int) -> StateView {
        StateView { search_caret: saturated(caret), ..self }
    }

    /// A key in the query field.
    #[verifier::opaque]
    pub open spec fn query_edited(self, a: InputAction) -> StateView {
        let q = self.search_query;
        let k = self.caret();
        match a {
            InputAction::Char(c) => self.asking(
                q.take(k).push(c) + q.skip(k),
                saturated(k + 1) as int,
            ),
            InputAction::Backspace => if k > 0 {
                self.asking(text::cut(q, k - 1, k), k - 1)
            } else {
                self
            },
            InputAction::DeleteWordBack => self.asking(
                text::cut(q, text::word_before(q, k), k),
                text::word_before(q, k),
            ),
            InputAction::CharLeft => self.with_caret(k - 1),
            InputAction::CharRight => self.with_caret(
                if k < q.len() {
                    k + 1
                } else {
                    k
                },
            ),
            InputAction::WordLeft => self.with_caret(text::word_before(q, k)),
            InputAction::WordRight => self.with_caret(text::word_after(q, k)),
            InputAction::LineStart => self.with_caret(0),
            InputAction::LineEnd => self.with_caret(q.len() as int),
            InputAction::Cancel => StateView {
                focus: Focus::Main,
                artist_search_active: self.artist_search_active && !(self.pane is Artists),
                ..self
            },
            _ => self.list_moved(a),
        }
    }

    /// With another filter; the cursor starts over.
    #[verifier::opaque]
    pub open spec fn filtering(self, filter: Seq<char>) -> StateView {
        StateView { filter, selected: 0, scroll_offset: 0, ..self }
    }

    /// A key in the filter field.
    #[verifier::opaque]
    pub open spec fn filter_edited(self, a: InputAction) -> StateView {
        match a {
            InputAction::Char(c) => self.filtering(self.filter.push(c)),
            InputAction::Backspace => self.filtering(
                if self.filter.len() > 0 {
                    self.filter.drop_last()
                } else {
                    self.filter
                },
            ),
            InputAction::DeleteWordBack => self.filtering(
                self.filter.take(text::word_before(self.filter, self.filter.len() as int)),
            ),
            InputAction::Cancel => StateView { focus: Focus::Main, ..self },
            _ => self.list_moved(a),
        }
    }

    /// Rows a page key moves by: half a screen, and always something.
    pub open spec fn half_page(self) -> int {
        if self.viewport_rows >= 2 {
            self.viewport_rows as int / 2
        } else {
            1
        }
    }

    /// The row a movement key leads to, before it is brought within the list.
    pub open spec fn row_after(self, a: InputAction) -> int {
        match a {
            InputAction::Down => self.selected + 1,
            InputAction::Up => self.selected - 1,
            InputAction::PageDown => self.selected + self.half_page(),
            InputAction::PageUp => self.selected - self.half_page(),
            InputAction::Home => 0,
            InputAction::End => self.visible().len() - 1,
            _ => self.selected as int,
        }
    }

    /// A movement key in the list; any other key changes nothing.
    #[verifier::opaque]
    pub open spec fn list_moved(self, a: InputAction) -> StateView {
        let n = self.visible().len();
        if n == 0 || !(a is Down || a is Up || a is PageDown || a is PageUp || a is Home
            || a is End) {
            self
        } else {
            let row = self.row_after(a);
            self.on_row(
                if row < 0 {
                    0
                } else if row < n {
                    row as usize
                } else {
                    (n - 1) as usize
                },
            )
        }
    }

    /// The wheel: the window moves by a row, and takes the cursor with it at its edge.
    #[verifier::opaque]
    pub open spec fn wheeled(self, down: bool) -> StateView {
        let n = self.visible().len();
        if n == 0 || self.viewport_rows == 0 {
            self
        } else if down {
            let last = if n > self.viewport_rows {
                n - self.viewport_rows
            } else {
                0
            };
            let top = if self.scroll_offset < last {
                self.scroll_offset + 1
            } else {
                last
            };
            (StateView {
                scroll_offset: top as usize,
                selected: if self.selected < top {
                    top as usize
                } else {
                    self.selected
                },
                ..self
            }).stretched()
        } else {
            let top = if self.scroll_offset > 0 {
                self.scroll_offset - 1
            } else {
                0
            };
            (StateView {
                scroll_offset: top as usize,
                selected: if self.selected - top >= self.viewport_rows {
                    (top + self.viewport_rows - 1) as usize
                } else {
                    self.selected
                },
                ..self
            }).stretched()
        }
    }

    /// With the cursor's row in the middle of the window.
    #[verifier::opaque]
    pub open spec fn centred(self) -> StateView {
        StateView { scroll_offset: saturated(self.selected - self.viewport_rows / 2), ..self }
    }

    /// The first visible row of this track.
    pub open spec fn row_of(self, id: Seq<char>) -> Option<int> {
        first_row_of(self.ids_between(0, self.visible().len() as int), id)
    }

    /// With the cursor on the playing track, where it is listed.
    #[verifier::opaque]
    pub open spec fn on_playing(self) -> StateView {
        match self.now_playing {
            None => self,
            Some(t) => match self.row_of(t.video_id) {
                None => self,
                Some(row) => self.on_row(row as usize).centred(),
            },
        }
    }

    /// With nothing open any more, the cursor back at the top.
    #[verifier::opaque]
    pub open spec fn closed(self) -> StateView {
        (StateView {
            open_playlist: None,
            open_album: None,
            open_artist: None,
            selected: 0,
            scroll_offset: 0,
            ..self
        }).unmarked()
    }

    /// One level up: out of what is open, else to the sidebar.
    #[verifier::opaque]
    pub open spec fn backed_out(self) -> StateView {
        match self.pane {
            Pane::Playlists => if self.open_playlist is Some {
                self.closed()
            } else {
                StateView { focus: Focus::Sidebar, ..self }
            },
            Pane::Albums => if self.open_album is Some {
                self.closed()
            } else {
                StateView { focus: Focus::Sidebar, ..self }
            },
            Pane::Artists => if self.open_artist is Some {
                self.closed()
            } else {
                StateView { focus: Focus::Sidebar, ..self }
            },
            _ => StateView { focus: Focus::Sidebar, ..self },
        }
    }

    /// Escape in a list: ends a range selection, else clears the filter, else the marks.
    #[verifier::opaque]
    pub open spec fn cancelled(self) -> StateView {
        if self.visual_anchor is Some {
            self.unmarked()
        } else if self.filter.len() > 0 {
            self.filtering(Seq::empty())
        } else {
            self.unmarked()
        }
    }

    /// The number of the source `by` places after the one under the sidebar's cursor.
    pub open spec fn source_after(self, by: int) -> u8 {
        ((self.sidebar_selected as int % 8 + by) % 8 + 1) as u8
    }

    /// The query field opened where the pane has one of its own, else on the search pane.
    #[verifier::opaque]
    pub open spec fn search_opened(self) -> StateView {
        if self.pane is Artists {
            StateView { artist_search_active: true, focus: Focus::SearchInput, ..self }
        } else {
            self.at_source(6)
        }
    }

    /// A movement key while the sidebar has the focus.
    #[verifier::opaque]
    pub open spec fn sidebar_moved(self, down: bool) -> StateView {
        StateView {
            sidebar_selected: if !down {
                saturated(self.sidebar_selected - 1)
            } else if self.sidebar_selected < 7 {
                (self.sidebar_selected + 1) as usize
            } else {
                7
            },
            ..self
        }
    }

    /// A key while the sidebar or the list has the focus.
    #[verifier::opaque]
    pub open spec fn navigated(self, a: InputAction) -> StateView {
        match a {
            InputAction::Up if self.focus is Sidebar => self.sidebar_moved(false),
            InputAction::Down if self.focus is Sidebar => self.sidebar_moved(true),
            InputAction::ScrollDown => self.wheeled(true),
            InputAction::ScrollUp => self.wheeled(false),
            InputAction::CenterOnCursor => self.centred(),
            InputAction::FocusCurrent => self.on_playing(),
            InputAction::Left => self.backed_out(),
            InputAction::Right => if self.focus is Sidebar {
                self.at_source(self.source_after(0))
            } else {
                self
            },
            InputAction::Cancel => self.cancelled(),
            InputAction::NextPane => self.at_source(self.source_after(1)),
            InputAction::PrevPane => self.at_source(self.source_after(7)),
            InputAction::GoTo(n) => self.at_source(n),
            InputAction::OpenSearch => self.search_opened(),
            InputAction::OpenFilter => StateView { focus: Focus::FilterInput, ..self },
            InputAction::OpenQueue => self.at_source(7),
            InputAction::OpenHelp => StateView { modal: Some(ModalView::Help), ..self },
            InputAction::ToggleMark => self.mark_toggled(),
            InputAction::ToggleVisual => self.visual_toggled(),
            _ => self.list_moved(a),
        }
    }

    /// A key while an overlay is open.
    #[verifier::opaque]
    pub open spec fn answered(self, a: InputAction) -> StateView {
        if a is ForceQuit {
            StateView { should_quit: true, ..self }
        } else if a is Cancel {
            StateView { modal: None, ..self }
        } else {
            StateView { modal: modal_after(self.modal, a), ..self }
        }
    }

    /// A key press.
    #[verifier::opaque]
    pub open spec fn after_input(self, a: InputAction) -> StateView {
        if self.modal is Some {
            self.answered(a)
        } else if a is Quit || a is ForceQuit {
            StateView { should_quit: true, ..self }
        } else if self.focus is SearchInput && !(a is GoTo) {
            self.query_edited(a)
        } else if self.focus is FilterInput && !(a is GoTo) {
            self.filter_edited(a)
        } else {
            self.navigated(a)
        }
    }

    /// With another track playing, from its start; or none.
    #[verifier::opaque]
    pub open spec fn playing(self, t: Option<TrackView>) -> StateView {
        StateView {
            now_playing: t,
            position: 0,
            duration: match t {
                Some(t) => t.duration,
                None => 0,
            },
            ..self
        }
    }

    /// With the queue the player reports; a cursor in it stays in it.
    #[verifier::opaque]
    pub open spec fn queue_reported(
        self,
        tracks: Seq<TrackView>,
        current: Option<usize>,
    ) -> StateView {
        let s = StateView { queue: tracks, queue_current: current, ..self };
        if self.pane is Queue {
            s.clamped()
        } else {
            s
        }
    }

    /// With one more download on the list, and a word about it.
    #[verifier::opaque]
    pub open spec fn with_download(self, t: TrackView) -> StateView {
        (StateView {
            downloaded_tracks: without_track(self.downloaded_tracks, t.video_id).push(t),
            ..self
        }).told(ToastKind::Success, "Downloaded \""@ + t.title + "\""@)
    }

    /// What the player reports.
    #[verifier::opaque]
    pub open spec fn after_player(self, ev: PlayerEvent) -> StateView {
        match ev {
            PlayerEvent::StateChanged(s) => StateView { playback: s, ..self },
            PlayerEvent::TrackChanged(t) => self.playing(t.deep_view()),
            PlayerEvent::TrackEnded(_) => self,
            PlayerEvent::Progress { position, duration } => StateView {
                position: position.deep_view(),
                duration: duration.deep_view(),
                ..self
            },
            PlayerEvent::QueueChanged { tracks, current } => self.queue_reported(
                tracks.deep_view(),
                current,
            ),
            PlayerEvent::VolumeChanged(v) => StateView { volume: v, ..self },
            PlayerEvent::ShuffleChanged(on) => StateView { shuffle: on, ..self },
            PlayerEvent::RepeatChanged(m) => StateView { repeat: m, ..self },
            PlayerEvent::Error(m) => self.told(ToastKind::Error, m@),
        }
    }

    /// With an edit shown at once, before the server has agreed.
    #[verifier::opaque]
    pub open spec fn edited(self, m: MutationView) -> StateView {
        match m {
            MutationView::CreatePlaylist { temp } => StateView {
                playlists: self.playlists.push(temp),
                ..self
            },
            MutationView::RenamePlaylist { id, previous, next } => StateView {
                playlists: retitled(self.playlists, id, next),
                ..self
            },
            MutationView::DeletePlaylist { id, index, snapshot } => (StateView {
                playlists: if index < self.playlists.len() {
                    queue::without(self.playlists, index as int)
                } else {
                    self.playlists
                },
                ..self
            }).clamped(),
            MutationView::RemoveTracks { playlist, removed } => (StateView {
                tracks: mutation::dropped(self.tracks, removed),
                ..self
            }).clamped(),
            MutationView::AddTracks { playlist, count } => self,
        }
    }

    /// With an edit taken back. Tracks go back into the list that they were taken from:
    /// one that is no longer on screen is loaded anew when it next is.
    #[verifier::opaque]
    pub open spec fn unedited(self, m: UnderwayView) -> StateView {
        match m.edit {
            MutationView::CreatePlaylist { temp } => StateView {
                playlists: match last_playlist_at(self.playlists, temp.id) {
                    Some(i) => queue::without(self.playlists, i),
                    None => self.playlists,
                },
                ..self
            },
            MutationView::RenamePlaylist { id, previous, next } => StateView {
                playlists: retitled(self.playlists, id, previous),
                ..self
            },
            MutationView::DeletePlaylist { id, index, snapshot } => StateView {
                playlists: queue::with_at(
                    self.playlists,
                    mutation::place(index as int, self.playlists.len()),
                    snapshot,
                ),
                ..self
            },
            MutationView::RemoveTracks { playlist, removed } => if self.open_playlist == m.shown {
                StateView { tracks: mutation::restored(self.tracks, removed), ..self }
            } else {
                self
            },
            MutationView::AddTracks { playlist, count } => self,
        }
    }

    /// With an edit begun: recorded under the next token, and shown.
    #[verifier::opaque]
    pub open spec fn begun(self, m: MutationView) -> StateView {
        let under_way = UnderwayView { edit: m, shown: self.open_playlist };
        (StateView { pending: self.pending.begun(under_way), ..self }).edited(m)
    }

    /// With the edit a token names taken back.
    #[verifier::opaque]
    pub open spec fn rolled_back(self, token: u64) -> StateView {
        let s = StateView { pending: self.pending.settled(token), ..self };
        match self.pending.find(token) {
            Some(m) => s.unedited(m),
            None => s,
        }
    }

    /// With the edit a token names made final; a created playlist gets its real id.
    #[verifier::opaque]
    pub open spec fn committed(self, token: u64, real_id: Option<Seq<char>>) -> StateView {
        let s = StateView { pending: self.pending.settled(token), ..self };
        match (self.pending.find(token), real_id) {
            (
                Some(UnderwayView { edit: MutationView::CreatePlaylist { temp }, shown: _ }),
                Some(id),
            ) => match last_playlist_at(
                self.playlists,
                temp.id,
            ) {
                Some(i) => StateView {
                    playlists: self.playlists.update(i, PlaylistView { id, ..self.playlists[i] }),
                    ..s
                },
                None => s,
            },
            _ => s,
        }
    }

    pub open spec fn loaded(self) -> StateView {
        StateView { loading: false, ..self }
    }

    /// With a list opened that was not open before, the cursor starts at its top.
    #[verifier::opaque]
    pub open spec fn from_the_top(self, anew: bool) -> StateView {
        if anew {
            (StateView { selected: 0, scroll_offset: 0, ..self }).unmarked()
        } else {
            self.clamped()
        }
    }

    /// The answer of a background task.
    #[verifier::opaque]
    pub open spec fn after_load(self, ev: AppEvent) -> StateView {
        match ev {
            AppEvent::PlaylistsLoaded(v) => (StateView {
                playlists: v.deep_view(),
                ..self.loaded()
            }).clamped(),
            AppEvent::LibrarySongsLoaded(v) => if self.open_playlist is Some {
                self.loaded()
            } else {
                (StateView { tracks: v.deep_view(), ..self.loaded() }).clamped()
            },
            AppEvent::DownloadedTracksLoaded(v) => (StateView {
                downloaded_tracks: v.deep_view(),
                ..self.loaded()
            }).clamped(),
            AppEvent::DownloadedTrackSaved(t) => self.with_download(t.deep_view()),
            AppEvent::AlbumsLoaded(v) => (StateView {
                albums: v.deep_view(),
                ..self.loaded()
            }).clamped(),
            AppEvent::ArtistsLoaded(v) => (StateView {
                artists: v.deep_view(),
                ..self.loaded()
            }).clamped(),
            AppEvent::HomeLoaded(v) => (StateView {
                home_rows: feed_rows(v.deep_view()),
                ..self.loaded()
            }).clamped(),
            AppEvent::PlaylistTracksLoaded { id, tracks } => (StateView {
                open_playlist: Some(id.deep_view()),
                tracks: tracks.deep_view(),
                ..self.loaded()
            }).from_the_top(self.open_playlist != Some(id.deep_view())),
            AppEvent::ArtistTracksLoaded { id, name, tracks } => (StateView {
                open_artist: Some((id.deep_view(), name@)),
                artist_tracks: tracks.deep_view(),
                ..self.loaded()
            }).from_the_top(true),
            AppEvent::AlbumTracksLoaded { id, name, tracks } => (StateView {
                open_album: Some((id.deep_view(), name@)),
                album_tracks: tracks.deep_view(),
                ..self.loaded()
            }).from_the_top(true),
            AppEvent::SearchResults { query, tracks } => if query@ == self.search_query {
                (StateView { search_results: tracks.deep_view(), ..self.loaded() }).clamped()
            } else {
                self
            },
            AppEvent::ArtistSearchResults { query, artists } => if query@ == self.search_query {
                (StateView { artists: artists.deep_view(), ..self.loaded() }).clamped()
            } else {
                self
            },
            _ => self,
        }
    }

    /// Any event.
    #[verifier::opaque]
    pub open spec fn after(self, ev: AppEvent) -> StateView {
        match ev {
            AppEvent::Input(a) => self.after_input(a),
            AppEvent::Player(pe) => self.after_player(pe),
            AppEvent::Tick => StateView {
                toasts: fresh_toasts(self.toasts, self.elapsed_ms),
                ..self
            },
            AppEvent::MutationOk { token, real_id, message } => self.committed(
                token,
                real_id.deep_view(),
            ).told(ToastKind::Success, message@),
            AppEvent::MutationFailed { token, message } => self.rolled_back(token).told(
                ToastKind::Error,
                message@,
            ),
            AppEvent::Error(m) => self.loaded().told(ToastKind::Error, m@),
            AppEvent::LoginNeeded { user_code, url } => StateView {
                modal: Some(ModalView::Login { user_code: user_code@, url: url@ }),
                ..self
            },
            AppEvent::LoginComplete => StateView {
                modal: if self.modal is Some && self.modal->0 is Login {
                    None
                } else {
                    self.modal
                },
                guest: false,
                ..self
            },
            _ => self.after_load(ev),
        }
    }
}

/// The first place of an id in a list of ids.
pub open spec fn first_row_of(ids: Seq<Seq<char>>, id: Seq<char>) -> Option<int>
    decreases ids.len(),
{
    if ids.len() == 0 {
        None
    } else {
        match first_row_of(ids.drop_last(), id) {
            Some(i) => Some(i),
            None => if ids.last() == id {
                Some(ids.len() - 1)
            } else {
                None
            },
        }
    }
}

/// The tracks without those of this id.
pub open spec fn without_track(ts: Seq<TrackView>, id: Seq<char>) -> Seq<TrackView>
    decreases ts.len(),
{
    if ts.len() == 0 {
        Seq::empty()
    } else if ts.last().video_id == id {
        without_track(ts.drop_last(), id)
    } else {
        without_track(ts.drop_last(), id).push(ts.last())
    }
}

fn tracks_without(ts: &Vec<Track>, id: &VideoId) -> (r: Vec<Track>)
    ensures
        r.deep_view() == without_track(ts.deep_view(), id.deep_view()),
{
    let mut out: Vec<Track> = Vec::new();
    let mut i: usize = 0;
    assert(out.deep_view() =~= without_track(ts.deep_view().take(0), id.deep_view()));
    while i < ts.len()
        invariant
            i <= ts@.len(),
            out.deep_view() == without_track(ts.deep_view().take(i as int), id.deep_view()),
        decreases ts@.len() - i,
    {
        let ghost upto = ts.deep_view().take(i + 1);
        let ghost before = out.deep_view();
        assert(upto.last() == ts@[i as int].deep_view());
        assert(upto.drop_last() =~= ts.deep_view().take(i as int));
        if !ts[i].video_id.same(id) {
            out.push(ts[i].copy());
            assert(out.deep_view() =~= before.push(upto.last()));
        }
        i += 1;
    }
    assert(ts.deep_view().take(i as int) =~= ts.deep_view());
    out
}

/// What a key makes of an open overlay.
pub open spec fn modal_after(modal: Option<ModalView>, a: InputAction) -> Option<ModalView> {
    match modal {
        Some(ModalView::Help) => if a is OpenHelp || a is Quit {
            None
        } else {
            modal
        },
        Some(ModalView::Prompt { title, value, action }) => Some(
            ModalView::Prompt { title, value: typed(value, a), action },
        ),
        Some(ModalView::PickPlaylist { targets, choices, selected }) => Some(
            ModalView::PickPlaylist {
                targets,
                choices,
                selected: if a is Down && selected + 1 < choices.len() {
                    (selected + 1) as usize
                } else if a is Up && selected > 0 {
                    (selected - 1) as usize
                } else {
                    selected
                },
            },
        ),
        _ => modal,
    }
}

/// What a key makes of a text whose caret is at its end.
pub open spec fn typed(value: Seq<char>, a: InputAction) -> Seq<char> {
    match a {
        InputAction::Char(c) => value.push(c),
        InputAction::Backspace => if value.len() > 0 {
            value.drop_last()
        } else {
            value
        },
        InputAction::DeleteWordBack => value.take(text::word_before(value, value.len() as int)),
        _ => value,
    }
}

fn type_into(value: &str, a: InputAction) -> (r: String)
    ensures
        r@ == typed(value@, a),
{
    let v = chars_of(value);
    match a {
        InputAction::Char(c) => {
            let mut s = value.to_owned();
            s.push(c);
            s
        },
        InputAction::Backspace => {
            let n: usize = if v.len() > 0 {
                v.len() - 1
            } else {
                0
            };
            let s = text_of(&v, 0, n);
            assert(s@ =~= typed(value@, a));
            s
        },
        InputAction::DeleteWordBack => {
            let k = word_start(&v, v.len());
            text_of(&v, 0, k)
        },
        _ => value.to_owned(),
    }
}

impl AppState {
    fn ask(&mut self, query: String, caret: usize)
        ensures
            final(self)@ == old(self)@.asking(query@, caret as int),
    {
        proof {
            reveal(StateView::asking);
            reveal(AppState::model);
        }
        self.search_query = query;
        self.search_caret = caret;
        self.selected = 0;
        self.scroll_offset = 0;
    }

    /// A key that changes the query, or moves in it.
    fn edit_query(&mut self, a: InputAction)
        ensures
            final(self)@ == old(self)@.query_edited(a),
    {
        proof {
            reveal(StateView::query_edited);
            app::state_shows_its_switches(&*self);
        }
        let v = chars_of(self.search_query.as_str());
        let n = v.len();
        let k: usize = if self.search_caret < n {
            self.search_caret
        } else {
            n
        };
        match a {
            InputAction::Char(c) => {
                let q = insert_text(&v, k, c);
                self.ask(q, k.saturating_add(1));
            },
            InputAction::Backspace => {
                if k > 0 {
                    let q = cut_text(&v, k - 1, k);
                    self.ask(q, k - 1);
                }
            },
            InputAction::DeleteWordBack => {
                let j = word_start(&v, k);
                let q = cut_text(&v, j, k);
                self.ask(q, j);
            },
            InputAction::CharLeft => self.set_search_caret(k.saturating_sub(1)),
            InputAction::CharRight => self.set_search_caret(
                if k < n {
                    k + 1
                } else {
                    k
                },
            ),
            InputAction::WordLeft => self.set_search_caret(word_start(&v, k)),
            InputAction::WordRight => self.set_search_caret(word_end(&v, k)),
            InputAction::LineStart => self.set_search_caret(0),
            InputAction::LineEnd => self.set_search_caret(n),
            InputAction::Cancel => {
                let keep = self.artist_search_active && self.pane != Pane::Artists;
                self.set_focus(Focus::Main);
                self.set_artist_search_active(keep);
            },
            _ => self.move_in_list(a),
        }
    }

    fn set_filter(&mut self, filter: String)
        ensures
            final(self)@ == old(self)@.filtering(filter@),
    {
        proof {
            reveal(StateView::filtering);
            reveal(AppState::model);
        }
        self.filter = filter;
        self.selected = 0;
        self.scroll_offset = 0;
    }

    /// A key in the filter field.
    fn edit_filter(&mut self, a: InputAction)
        ensures
            final(self)@ == old(self)@.filter_edited(a),
    {
        proof {
            reveal(StateView::filter_edited);
            app::state_shows_its_switches(&*self);
        }
        match a {
            InputAction::Char(_) | InputAction::Backspace | InputAction::DeleteWordBack => {
                let f = type_into(self.filter.as_str(), a);
                self.set_filter(f);
            },
            InputAction::Cancel => self.set_focus(Focus::Main),
            _ => self.move_in_list(a),
        }
    }

    /// A movement key in the list; any other key changes nothing.
    fn move_in_list(&mut self, a: InputAction)
        ensures
            final(self)@ == old(self)@.list_moved(a),
    {
        proof {
            reveal(StateView::list_moved);
            app::state_shows_its_switches(&*self);
        }
        let n = self.list_len();
        if n == 0 {
            return;
        }
        let half: usize = if self.viewport_rows >= 2 {
            self.viewport_rows / 2
        } else {
            1
        };
        let row: usize = match a {
            InputAction::Down => self.selected.saturating_add(1),
            InputAction::Up => self.selected.saturating_sub(1),
            InputAction::PageDown => self.selected.saturating_add(half),
            InputAction::PageUp => self.selected.saturating_sub(half),
            InputAction::Home => 0,
            InputAction::End => n - 1,
            _ => {
                return;
            },
        };
        self.select_row(
            if row < n {
                row
            } else {
                n - 1
            },
        );
    }

    fn wheel(&mut self, down: bool)
        ensures
            final(self)@ == old(self)@.wheeled(down),
    {
        proof {
            reveal(StateView::wheeled);
            app::state_shows_its_switches(&*self);
        }
        let n = self.list_len();
        let (selected, height): (usize, usize) = (self.selected, self.viewport_rows);
        if n == 0 || height == 0 {
            return;
        }
        if down {
            let last: usize = n.saturating_sub(height);
            let top: usize = if self.scroll_offset < last {
                self.scroll_offset + 1
            } else {
                last
            };
            self.set_scroll_offset(top);
            self.set_selected(
                if selected < top {
                    top
                } else {
                    selected
                },
            );
        } else {
            let top: usize = self.scroll_offset.saturating_sub(1);
            self.set_scroll_offset(top);
            self.set_selected(
                if selected >= top && selected - top >= height {
                    top + (height - 1)
                } else {
                    selected
                },
            );
        }
        self.refresh_visual_marks();
    }

    fn centre(&mut self)
        ensures
            final(self)@ == old(self)@.centred(),
    {
        proof {
            reveal(StateView::centred);
            app::state_shows_its_switches(&*self);
        }
        let top: usize = self.selected.saturating_sub(self.viewport_rows / 2);
        self.set_scroll_offset(top);
    }

    /// The first visible row of this track.
    fn row_of(&self, id: &VideoId) -> (r: Option<usize>)
        ensures
            match r {
                Some(i) => self@.row_of(id.deep_view()) == Some(i as int),
                None => self@.row_of(id.deep_view()) is None,
            },
    {
        let rows = self.visible_tracks();
        let ghost ids = self@.ids_between(0, self@.visible().len() as int);
        assert(ids =~= Seq::new(rows.deep_view().len(), |k: int| rows.deep_view()[k].video_id));
        let mut i: usize = 0;
        while i < rows.len()
            invariant
                i <= rows@.len(),
                ids == Seq::new(rows.deep_view().len(), |k: int| rows.deep_view()[k].video_id),
                ids == self@.ids_between(0, self@.visible().len() as int),
                first_row_of(ids.take(i as int), id.deep_view()) is None,
            decreases rows@.len() - i,
        {
            let ghost upto = ids.take(i + 1);
            assert(upto.drop_last() =~= ids.take(i as int));
            assert(upto.last() == rows@[i as int].video_id.deep_view());
            if rows[i].video_id.same(id) {
                proof {
                    lemma_first_row_stays(ids, id.deep_view(), i + 1);
                }
                return Some(i);
            }
            i += 1;
        }
        assert(ids.take(i as int) =~= ids);
        None
    }

    fn select_playing(&mut self)
        ensures
            final(self)@ == old(self)@.on_playing(),
    {
        proof {
            reveal(StateView::on_playing);
            app::state_shows_its_fields(&*self);
        }
        let row: Option<usize> = match &self.now_playing {
            None => None,
            Some(t) => self.row_of(&t.video_id),
        };
        match row {
            None => {},
            Some(row) => {
                self.select_row(row);
                self.centre();
            },
        }
    }

    /// Closes whatever is open, the cursor back at the top.
    fn close_list(&mut self)
        ensures
            final(self)@ == old(self)@.closed(),
    {
        proof {
            reveal(StateView::closed);
            reveal(AppState::model);
        }
        self.open_playlist = None;
        self.open_album = None;
        self.open_artist = None;
        self.selected = 0;
        self.scroll_offset = 0;
        self.clear_marks();
    }

    fn back_out(&mut self)
        ensures
            final(self)@ == old(self)@.backed_out(),
    {
        proof {
            reveal(StateView::backed_out);
            app::state_shows_its_switches(&*self);
        }
        let open: bool = match self.pane {
            Pane::Playlists => self.open_playlist.is_some(),
            Pane::Albums => self.open_album.is_some(),
            Pane::Artists => self.open_artist.is_some(),
            _ => false,
        };
        if open {
            self.close_list();
        } else {
            self.set_focus(Focus::Sidebar);
        }
    }

    fn cancel(&mut self)
        ensures
            final(self)@ == old(self)@.cancelled(),
    {
        proof {
            reveal(StateView::cancelled);
            app::state_shows_its_switches(&*self);
        }
        if self.visual_anchor.is_none() && !self.filter.as_str().is_empty() {
            self.set_filter(String::new());
        } else {
            self.clear_marks();
        }
    }

    fn open_search(&mut self)
        ensures
            final(self)@ == old(self)@.search_opened(),
    {
        proof {
            reveal(StateView::search_opened);
            app::state_shows_its_switches(&*self);
        }
        if self.pane == Pane::Artists {
            self.set_artist_search_active(true);
            self.set_focus(Focus::SearchInput);
        } else {
            self.goto_source(6);
        }
    }

    fn source_after(&self, by: usize) -> (r: u8)
        requires
            by < 8,
        ensures
            r == self@.source_after(by as int),
    {
        proof {
            app::state_shows_its_switches(self);
        }
        ((self.sidebar_selected % 8 + by) % 8 + 1) as u8
    }

    /// A movement key while the sidebar has the focus.
    fn move_in_sidebar(&mut self, down: bool)
        ensures
            final(self)@ == old(self)@.sidebar_moved(down),
    {
        proof {
            reveal(StateView::sidebar_moved);
            app::state_shows_its_switches(&*self);
        }
        let i: usize = self.sidebar_selected;
        self.set_sidebar_selected(
            if !down {
                i.saturating_sub(1)
            } else if i < 7 {
                i + 1
            } else {
                7
            },
        );
    }

    /// A key while the sidebar or the list has the focus.
    fn navigate(&mut self, a: InputAction)
        ensures
            final(self)@ == old(self)@.navigated(a),
    {
        proof {
            reveal(StateView::navigated);
            app::state_shows_its_switches(&*self);
        }
        match a {
            InputAction::Up => {
                if self.focus == Focus::Sidebar {
                    self.move_in_sidebar(false);
                } else {
                    self.move_in_list(a);
                }
            },
            InputAction::Down => {
                if self.focus == Focus::Sidebar {
                    self.move_in_sidebar(true);
                } else {
                    self.move_in_list(a);
                }
            },
            InputAction::ScrollDown => self.wheel(true),
            InputAction::ScrollUp => self.wheel(false),
            InputAction::CenterOnCursor => self.centre(),
            InputAction::FocusCurrent => self.select_playing(),
            InputAction::Left => self.back_out(),
            InputAction::Right => {
                if self.focus == Focus::Sidebar {
                    let n = self.source_after(0);
                    self.goto_source(n);
                }
            },
            InputAction::Cancel => self.cancel(),
            InputAction::NextPane => {
                let n = self.source_after(1);
                self.goto_source(n);
            },
            InputAction::PrevPane => {
                let n = self.source_after(7);
                self.goto_source(n);
            },
            InputAction::GoTo(n) => self.goto_source(n),
            InputAction::OpenSearch => self.open_search(),
            InputAction::OpenFilter => self.set_focus(Focus::FilterInput),
            InputAction::OpenQueue => self.goto_source(7),
            InputAction::OpenHelp => self.set_modal(Some(Modal::Help)),
            InputAction::ToggleMark => self.toggle_mark(),
            InputAction::ToggleVisual => self.toggle_visual(),
            _ => self.move_in_list(a),
        }
    }

    /// Takes the overlay away, handing it over.
    pub fn take_modal(&mut self) -> (r: Option<Modal>)
        ensures
            r.deep_view() == old(self)@.modal,
            final(self)@ == (StateView { modal: None, ..old(self)@ }),
    {
        proof {
            reveal(AppState::model);
        }
        let mut modal: Option<Modal> = None;
        std::mem::swap(&mut modal, &mut self.modal);
        modal
    }

    /// A key while an overlay is open.
    fn answer(&mut self, a: InputAction)
        ensures
            final(self)@ == old(self)@.answered(a),
    {
        proof {
            reveal(StateView::answered);
        }
        match a {
            InputAction::ForceQuit => self.set_should_quit(true),
            InputAction::Cancel => self.set_modal(None),
            _ => {
                let modal = self.take_modal();
                self.set_modal(key_in_modal(modal, a));
            },
        }
    }

    fn apply_input(&mut self, a: InputAction)
        ensures
            final(self)@ == old(self)@.after_input(a),
    {
        proof {
            reveal(StateView::after_input);
            app::state_shows_its_switches(&*self);
        }
        if self.modal.is_some() {
            self.answer(a);
            return;
        }
        match a {
            InputAction::Quit | InputAction::ForceQuit => self.set_should_quit(true),
            InputAction::GoTo(_) => self.navigate(a),
            _ => match self.focus {
                Focus::SearchInput => self.edit_query(a),
                Focus::FilterInput => self.edit_filter(a),
                Focus::Sidebar | Focus::Main => self.navigate(a),
            },
        }
    }

    fn note_track(&mut self, t: Option<Track>)
        ensures
            final(self)@ == old(self)@.playing(t.deep_view()),
    {
        proof {
            reveal(StateView::playing);
            reveal(AppState::model);
        }
        self.position = TrackDuration::from_secs(0);
        self.duration = match &t {
            Some(t) => t.duration,
            None => TrackDuration::from_secs(0),
        };
        self.now_playing = t;
    }

    fn note_progress(&mut self, position: TrackDuration, duration: TrackDuration)
        ensures
            final(self)@ == (StateView {
                position: position.deep_view(),
                duration: duration.deep_view(),
                ..old(self)@
            }),
    {
        proof {
            reveal(AppState::model);
        }
        self.position = position;
        self.duration = duration;
    }

    fn note_queue(&mut self, tracks: Vec<Track>, current: Option<usize>)
        ensures
            final(self)@ == old(self)@.queue_reported(tracks.deep_view(), current),
    {
        proof {
            reveal(StateView::queue_reported);
            reveal(AppState::model);
        }
        self.queue = tracks;
        self.queue_current = current;
        if self.pane == Pane::Queue {
            self.clamp_selection();
        }
    }

    fn apply_player(&mut self, ev: PlayerEvent)
        ensures
            final(self)@ == old(self)@.after_player(ev),
    {
        proof {
            reveal(StateView::after_player);
        }
        match ev {
            PlayerEvent::StateChanged(s) => self.set_playback(s),
            PlayerEvent::TrackChanged(t) => self.note_track(t),
            PlayerEvent::TrackEnded(_) => {},
            PlayerEvent::Progress { position, duration } => self.note_progress(position, duration),
            PlayerEvent::QueueChanged { tracks, current } => self.note_queue(tracks, current),
            PlayerEvent::VolumeChanged(v) => self.set_volume(v),
            PlayerEvent::ShuffleChanged(on) => self.set_shuffle(on),
            PlayerEvent::RepeatChanged(m) => self.set_repeat(m),
            PlayerEvent::Error(m) => self.tell(ToastKind::Error, m.as_str()),
        }
    }

    fn take_playlists(&mut self) -> (r: Vec<Playlist>)
        ensures
            r.deep_view() == old(self)@.playlists,
            final(self)@ == (StateView { playlists: Seq::empty(), ..old(self)@ }),
    {
        proof {
            reveal(AppState::model);
        }
        let mut ps: Vec<Playlist> = Vec::new();
        std::mem::swap(&mut ps, &mut self.playlists);
        assert(self@.playlists =~= Seq::<PlaylistView>::empty());
        ps
    }

    fn take_tracks(&mut self) -> (r: Vec<Track>)
        ensures
            r.deep_view() == old(self)@.tracks,
            final(self)@ == (StateView { tracks: Seq::empty(), ..old(self)@ }),
    {
        proof {
            reveal(AppState::model);
        }
        let mut ts: Vec<Track> = Vec::new();
        std::mem::swap(&mut ts, &mut self.tracks);
        assert(self@.tracks =~= Seq::<TrackView>::empty());
        ts
    }

    fn show_edit(&mut self, m: &Mutation)
        ensures
            final(self)@ == old(self)@.edited(m.deep_view()),
    {
        proof {
            reveal(StateView::edited);
        }
        match m {
            Mutation::CreatePlaylist { temp } => {
                let mut ps = self.take_playlists();
                let ghost before = ps.deep_view();
                ps.push(temp.copy());
                assert(ps.deep_view() =~= before.push(temp.deep_view()));
                self.set_playlists(ps);
            },
            Mutation::RenamePlaylist { id, previous, next } => {
                let mut ps = self.take_playlists();
                retitle(&mut ps, id, next);
                self.set_playlists(ps);
            },
            Mutation::DeletePlaylist { id, index, snapshot } => {
                let mut ps = self.take_playlists();
                let ghost before = ps.deep_view();
                if *index < ps.len() {
                    ps.remove(*index);
                    assert(ps.deep_view() =~= queue::without(before, *index as int));
                }
                self.set_playlists(ps);
                self.clamp_selection();
            },
            Mutation::RemoveTracks { playlist, removed } => {
                let mut ts = self.take_tracks();
                drop_rows(&mut ts, removed);
                self.set_tracks(ts);
                self.clamp_selection();
            },
            Mutation::AddTracks { playlist, count } => {},
        }
    }

    fn is_open(&self, playlist: &PlaylistId) -> (r: bool)
        ensures
            r == (self@.open_playlist == Some(playlist.deep_view())),
    {
        proof {
            app::state_shows_its_switches(self);
        }
        match &self.open_playlist {
            Some(id) => id.same(playlist),
            None => false,
        }
    }

    fn shows(&self, playlist: &Option<PlaylistId>) -> (r: bool)
        ensures
            r == (self@.open_playlist == playlist.deep_view()),
    {
        proof {
            app::state_shows_its_switches(self);
        }
        match (&self.open_playlist, playlist) {
            (Some(open), Some(id)) => open.same(id),
            (None, None) => true,
            _ => false,
        }
    }

    fn take_back(&mut self, m: &Underway)
        ensures
            final(self)@ == old(self)@.unedited(m.deep_view()),
    {
        proof {
            reveal(StateView::unedited);
        }
        match &m.edit {
            Mutation::CreatePlaylist { temp } => {
                let mut ps = self.take_playlists();
                let ghost before = ps.deep_view();
                match find_last_playlist(&ps, &temp.id) {
                    None => {},
                    Some(i) => {
                        ps.remove(i);
                        assert(ps.deep_view() =~= queue::without(before, i as int));
                    },
                }
                self.set_playlists(ps);
            },
            Mutation::RenamePlaylist { id, previous, next } => {
                let mut ps = self.take_playlists();
                retitle(&mut ps, id, previous);
                self.set_playlists(ps);
            },
            Mutation::DeletePlaylist { id, index, snapshot } => {
                let mut ps = self.take_playlists();
                let ghost before = ps.deep_view();
                let i: usize = if *index < ps.len() {
                    *index
                } else {
                    ps.len()
                };
                ps.insert(i, snapshot.copy());
                assert(ps.deep_view() =~= queue::with_at(before, i as int, snapshot.deep_view()));
                self.set_playlists(ps);
            },
            Mutation::RemoveTracks { playlist, removed } => {
                if self.shows(&m.shown) {
                    let mut ts = self.take_tracks();
                    restore_rows(&mut ts, removed);
                    self.set_tracks(ts);
                }
            },
            Mutation::AddTracks { playlist, count } => {},
        }
    }

    /// Shows an edit at once and hands out the token its answer will carry.
    pub fn begin_mutation(&mut self, m: Mutation) -> (r: u64)
        requires
            old(self)@.pending.next < u64::MAX,
        ensures
            r == old(self)@.pending.next,
            final(self)@ == old(self)@.begun(m.deep_view()),
    {
        proof {
            reveal(StateView::begun);
        }
        let token = self.record(m.copy());
        self.show_edit(&m);
        token
    }

    fn record(&mut self, m: Mutation) -> (r: u64)
        requires
            old(self)@.pending.next < u64::MAX,
        ensures
            r == old(self)@.pending.next,
            final(self)@ == (StateView {
                pending: old(self)@.pending.begun(
                    UnderwayView { edit: m.deep_view(), shown: old(self)@.open_playlist },
                ),
                ..old(self)@
            }),
    {
        proof {
            reveal(AppState::model);
        }
        let shown = self.open_playlist.copy();
        self.pending.begin(Underway { edit: m, shown })
    }

    fn settle(&mut self, token: u64) -> (r: Option<Underway>)
        ensures
            r.deep_view() == old(self)@.pending.find(token),
            final(self)@ == (StateView {
                pending: old(self)@.pending.settled(token),
                ..old(self)@
            }),
    {
        proof {
            reveal(AppState::model);
        }
        self.pending.take(token)
    }

    /// Takes back the edit a token names.
    pub fn rollback(&mut self, token: u64)
        ensures
            final(self)@ == old(self)@.rolled_back(token),
    {
        proof {
            reveal(StateView::rolled_back);
        }
        match self.settle(token) {
            Some(m) => self.take_back(&m),
            None => {},
        }
    }

    /// Makes the edit a token names final.
    pub fn commit(&mut self, token: u64, real_id: Option<PlaylistId>)
        ensures
            final(self)@ == old(self)@.committed(token, real_id.deep_view()),
    {
        proof {
            reveal(StateView::committed);
        }
        match self.settle(token) {
            Some(Underway { edit: Mutation::CreatePlaylist { temp }, shown: _ }) => {
                match real_id {
                    None => {},
                    Some(id) => {
                        let mut ps = self.take_playlists();
                        let ghost before = ps.deep_view();
                        let ghost new_id = id.deep_view();
                        match find_last_playlist(&ps, &temp.id) {
                            None => {},
                            Some(i) => {
                                let mut p = ps[i].copy();
                                p.id = id;
                                ps.set(i, p);
                                assert(ps.deep_view() =~= before.update(
                                    i as int,
                                    PlaylistView { id: new_id, ..before[i as int] },
                                ));
                            },
                        }
                        self.set_playlists(ps);
                    },
                }
            },
            _ => {},
        }
    }

    fn show_from_the_top(&mut self, anew: bool)
        ensures
            final(self)@ == old(self)@.from_the_top(anew),
    {
        proof {
            reveal(StateView::from_the_top);
        }
        if anew {
            self.set_selected(0);
            self.set_scroll_offset(0);
            self.clear_marks();
        } else {
            self.clamp_selection();
        }
    }

    /// Opens a playlist on these tracks.
    pub fn open_tracks(&mut self, id: PlaylistId, tracks: Vec<Track>)
        ensures
            final(self)@ == (StateView {
                open_playlist: Some(id.deep_view()),
                tracks: tracks.deep_view(),
                ..old(self)@
            }),
    {
        proof {
            reveal(AppState::model);
        }
        self.open_playlist = Some(id);
        self.tracks = tracks;
    }

    fn open_artist_tracks(&mut self, id: ArtistId, name: String, tracks: Vec<Track>)
        ensures
            final(self)@ == (StateView {
                open_artist: Some((id.deep_view(), name@)),
                artist_tracks: tracks.deep_view(),
                ..old(self)@
            }),
    {
        proof {
            reveal(AppState::model);
        }
        self.open_artist = Some((id, name));
        self.artist_tracks = tracks;
    }

    fn open_album_tracks(&mut self, id: AlbumId, name: String, tracks: Vec<Track>)
        ensures
            final(self)@ == (StateView {
                open_album: Some((id.deep_view(), name@)),
                album_tracks: tracks.deep_view(),
                ..old(self)@
            }),
    {
        proof {
            reveal(AppState::model);
        }
        self.open_album = Some((id, name));
        self.album_tracks = tracks;
    }

    fn keep_download(&mut self, t: Track)
        ensures
            final(self)@ == old(self)@.with_download(t.deep_view()),
    {
        proof {
            reveal(StateView::with_download);
            app::state_shows_its_fields(&*self);
        }
        let msg = join3("Downloaded \"", t.title.as_str(), "\"");
        let mut rows = tracks_without(&self.downloaded_tracks, &t.video_id);
        let ghost before = rows.deep_view();
        rows.push(t);
        assert(rows.deep_view() =~= before.push(t.deep_view()));
        self.set_downloaded_tracks(rows);
        self.tell(ToastKind::Success, msg.as_str());
    }

    fn asked(&self, query: &String) -> (r: bool)
        ensures
            r == (query@ == self@.search_query),
    {
        proof {
            app::state_shows_its_switches(self);
        }
        *query == self.search_query
    }

    /// The answer of a background task.
    fn apply_load(&mut self, ev: AppEvent)
        ensures
            final(self)@ == old(self)@.after_load(ev),
    {
        proof {
            reveal(StateView::after_load);
            app::state_shows_its_switches(&*self);
        }
        match ev {
            AppEvent::PlaylistsLoaded(v) => {
                self.set_loading(false);
                self.set_playlists(v);
                self.clamp_selection();
            },
            AppEvent::AlbumsLoaded(v) => {
                self.set_loading(false);
                self.set_albums(v);
                self.clamp_selection();
            },
            AppEvent::ArtistsLoaded(v) => {
                self.set_loading(false);
                self.set_artists(v);
                self.clamp_selection();
            },
            AppEvent::HomeLoaded(v) => {
                self.set_loading(false);
                self.set_home_rows(rows_of_feed(&v));
                self.clamp_selection();
            },
            AppEvent::LibrarySongsLoaded(v) => {
                let open = self.open_playlist.is_some();
                self.set_loading(false);
                if !open {
                    self.set_tracks(v);
                    self.clamp_selection();
                }
            },
            AppEvent::DownloadedTracksLoaded(v) => {
                self.set_loading(false);
                self.set_downloaded_tracks(v);
                self.clamp_selection();
            },
            AppEvent::DownloadedTrackSaved(t) => self.keep_download(t),
            AppEvent::PlaylistTracksLoaded { id, tracks } => {
                let anew = !self.is_open(&id);
                self.set_loading(false);
                self.open_tracks(id, tracks);
                self.show_from_the_top(anew);
            },
            AppEvent::ArtistTracksLoaded { id, name, tracks } => {
                self.set_loading(false);
                self.open_artist_tracks(id, name, tracks);
                self.show_from_the_top(true);
            },
            AppEvent::AlbumTracksLoaded { id, name, tracks } => {
                self.set_loading(false);
                self.open_album_tracks(id, name, tracks);
                self.show_from_the_top(true);
            },
            AppEvent::SearchResults { query, tracks } => {
                if self.asked(&query) {
                    self.set_loading(false);
                    self.set_search_results(tracks);
                    self.clamp_selection();
                }
            },
            AppEvent::ArtistSearchResults { query, artists } => {
                if self.asked(&query) {
                    self.set_loading(false);
                    self.set_artists(artists);
                    self.clamp_selection();
                }
            },
            _ => {},
        }
    }

    /// Changes the state by one event.
    pub fn apply(&mut self, ev: AppEvent)
        ensures
            final(self)@ == old(self)@.after(ev),
    {
        proof {
            reveal(StateView::after);
            app::state_shows_its_fields(&*self);
        }
        match ev {
            AppEvent::Input(a) => self.apply_input(a),
            AppEvent::Player(pe) => self.apply_player(pe),
            AppEvent::Tick => {
                let fresh = keep_fresh(&self.toasts, self.elapsed_ms);
                self.set_toasts(fresh);
            },
            AppEvent::MutationOk { token, real_id, message } => {
                self.commit(token, real_id);
                self.tell(ToastKind::Success, message.as_str());
            },
            AppEvent::MutationFailed { token, message } => {
                self.rollback(token);
                self.tell(ToastKind::Error, message.as_str());
            },
            AppEvent::Error(m) => {
                self.set_loading(false);
                self.tell(ToastKind::Error, m.as_str());
            },
            AppEvent::LoginNeeded { user_code, url } => {
                self.set_modal(Some(Modal::Login { user_code, url }));
            },
            AppEvent::LoginComplete => {
                let login: bool = match &self.modal {
                    Some(Modal::Login { .. }) => true,
                    _ => false,
                };
                if login {
                    self.set_modal(None);
                }
                self.set_guest(false);
            },
            _ => self.apply_load(ev),
        }
    }
}

/// What a key makes of an open overlay.
fn key_in_modal(modal: Option<Modal>, a: InputAction) -> (r: Option<Modal>)
    ensures
        r.deep_view() == modal_after(modal.deep_view(), a),
{
    match modal {
        Some(Modal::Help) => match a {
            InputAction::OpenHelp | InputAction::Quit => None,
            _ => Some(Modal::Help),
        },
        Some(Modal::Prompt { title, value, action }) => {
            let value = type_into(value.as_str(), a);
            Some(Modal::Prompt { title, value, action })
        },
        Some(Modal::PickPlaylist { targets, choices, selected }) => {
            let n = choices.len();
            let selected: usize = match a {
                InputAction::Down => if selected < n && selected + 1 < n {
                    selected + 1
                } else {
                    selected
                },
                InputAction::Up => selected.saturating_sub(1),
                _ => selected,
            };
            Some(Modal::PickPlaylist { targets, choices, selected })
        },
        other => other,
    }
}

proof fn lemma_first_row_stays(ids: Seq<Seq<char>>, id: Seq<char>, n: int)
    requires
        0 <= n <= ids.len(),
        first_row_of(ids.take(n), id) is Some,
    ensures
        first_row_of(ids, id) == first_row_of(ids.take(n), id),
    decreases ids.len(),
{
    if n == ids.len() {
        assert(ids.take(n) =~= ids);
    } else {
        assert(ids.drop_last().take(n) =~= ids.take(n));
        lemma_first_row_stays(ids.drop_last(), id, n);
    }
}

/// What an edit records of the state it is made in is what that state shows.
pub open spec fn describes(m: MutationView, s: StateView) -> bool {
    match m {
        MutationView::CreatePlaylist { temp } => true,
        MutationView::RenamePlaylist { id, previous, next } => match playlist_at(s.playlists, id) {
            Some(i) => s.playlists[i].title == previous,
            None => true,
        },
        MutationView::DeletePlaylist { id, index, snapshot } => index < s.playlists.len()
            && s.playlists[index as int] == snapshot,
        MutationView::RemoveTracks { playlist, removed } => mutation::taken_from(
            removed,
            s.tracks,
        ),
        MutationView::AddTracks { playlist, count } => true,
    }
}

/// An edit the server refuses is undone: begun and rolled back, it leaves the
/// playlists, the tracks and the edits under way as they were.
pub proof fn a_refused_edit_leaves_no_trace(s: StateView, m: MutationView)
    requires
        s.pending.next < u64::MAX,
        describes(m, s),
    ensures
        ({
            let t = s.begun(m).rolled_back(s.pending.next);
            t.playlists == s.playlists && t.tracks == s.tracks && t.pending.entries
                == s.pending.entries
        }),
{
    reveal(StateView::begun);
    reveal(StateView::rolled_back);
    reveal(StateView::edited);
    reveal(StateView::unedited);
    reveal(StateView::clamped);
    mutation::a_token_names_its_own_edit(
        s.pending,
        UnderwayView { edit: m, shown: s.open_playlist },
    );
    match m {
        MutationView::CreatePlaylist { temp } => {
            assert(queue::without(s.playlists.push(temp), s.playlists.len() as int) =~= s.playlists);
        },
        MutationView::RenamePlaylist { id, previous, next } => {
            let after = retitled(s.playlists, id, next);
            lemma_playlist_at(s.playlists, id);
            lemma_playlist_at(after, id);
            match playlist_at(s.playlists, id) {
                None => {},
                Some(i) => {
                    assert(after[i].id == id);
                    match playlist_at(after, id) {
                        None => {},
                        Some(j) => {
                            if j < i {
                                assert(after[j] == s.playlists[j]);
                            }
                            assert(j == i);
                        },
                    }
                    assert(retitled(after, id, previous) =~= s.playlists);
                },
            }
        },
        MutationView::DeletePlaylist { id, index, snapshot } => {
            let shorter = queue::without(s.playlists, index as int);
            assert(queue::with_at(shorter, index as int, snapshot) =~= s.playlists);
        },
        MutationView::RemoveTracks { playlist, removed } => {
            mutation::putting_back_restores_the_list(s.tracks, removed);
        },
        MutationView::AddTracks { playlist, count } => {},
    }
}

} // verus!
