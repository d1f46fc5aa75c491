//! What is on screen: that it is what is listed, that what is chosen and what plays stand
//! out, and that the bar shows how far the track has come.

use crate::app::{ModalView, StateView};
use crate::double;
use crate::laws_intents::lists;
use crate::model::{self, TrackView};
use crate::nowplaying;
use crate::reducer;
use crate::render::{self, Cover, ListKind};
use crate::screen::{self, Paint, Rect};
use crate::sidebar;
use crate::text;
use crate::theme::{Color, Theme};
use crate::tracklist;
use vstd::prelude::*;

verus! {

/// The tracks on screen are those of the list that the filter shows, in its order; the one
/// under the cursor is the one that is chosen there.
pub proof fn the_screen_shows_what_is_listed(s: StateView, ts: Seq<TrackView>)
    requires
        lists(s, ts),
    ensures
        ({
            let shown = s.tracks_on_screen();
            &&& shown.len() == s.visible().len()
            &&& forall|k: int|
                0 <= k < shown.len() ==> #[trigger] shown[k] == ts[s.visible()[k]]
            &&& s.selected < shown.len() ==> s.selected_track() == Some(shown[s.selected as int])
        }),
{
}

/// As many rows are drawn as there is room for and tracks to show, one after the other, and
/// that of the cursor is among them.
pub proof fn the_rows_are_drawn_in_order(s: StateView, w: u16, h: u16)
    requires
        h > 0,
        s.selected < s.tracks_on_screen().len(),
    ensures
        ({
            let ts = s.tracks_on_screen();
            let lines = s.track_lines(w, h);
            let n = ts.len();
            exists|start: int|
                0 <= start <= s.selected < start + lines.len() && start + lines.len() <= n && (
                lines.len() == h || (start + lines.len() == n && lines.len() < h))
                    && #[trigger] from_row(s, lines, start, w)
        }),
{
    let ts = s.tracks_on_screen();
    let (start, end) = tracklist::window(
        s.selected as int,
        s.scroll_offset as int,
        h as int,
        ts.len() as int,
    );
    let lines = s.track_lines(w, h);
    assert(from_row(s, lines, start, w));
}

/// These are the lines of the tracks from this row on.
pub open spec fn from_row(
    s: StateView,
    lines: Seq<screen::LineView>,
    start: int,
    w: u16,
) -> bool {
    forall|k: int|
        0 <= k < lines.len() ==> #[trigger] lines[k] == s.track_line(
            s.tracks_on_screen()[start + k],
            start + k,
            w,
        )
}

/// The line of a track begins with a mark where the track is marked, has its title, its
/// artists and its time in that order, is lit where it is chosen, and is in the accent where
/// the track plays.
pub proof fn a_line_tells_its_track(s: StateView, t: TrackView, row: int, w: u16)
    ensures
        ({
            let line = s.track_line(t, row, w);
            let chosen = row == s.selected || s.marked.contains(t.video_id);
            let plays = s.now_playing is Some && s.now_playing->0.video_id == t.video_id;
            &&& line.spans.len() == 4
            &&& line.selected == chosen
            &&& forall|i: int| 0 <= i < 2 ==> (#[trigger] line.spans[i]).style.selected == chosen
            &&& (line.spans[0].text == "  "@) == !s.marked.contains(t.video_id)
            &&& line.spans[1].text == screen::padded(
                t.title,
                tracklist::title_width(w as int) as usize,
            )
            &&& line.spans[2].text == screen::padded(
                t.artist_line(),
                tracklist::artist_width(w as int) as usize,
            )
            &&& text::has_part(line.spans[3].text, model::clock(t.duration as nat))
            &&& plays <==> line.spans[1].style.fg == Paint::Accent
            &&& line.spans[1].style.bold == plays
        }),
{
    reveal_strlit("\u{2022} ");
    reveal_strlit("  ");
    assert("\u{2022} "@[0] == '\u{2022}' && "  "@[0] == ' ');
    let time = model::clock(t.duration as nat);
    let cell = s.track_line(t, row, w).spans[3].text;
    let k = cell.len() - time.len();
    assert(cell.subrange(k, k + time.len()) =~= time);
    assert(text::part_at(cell, time, k));
}

/// The columns of a row share what is left of it, and take no more.
pub proof fn the_columns_fit_the_row(w: int)
    requires
        w >= 0,
    ensures
        0 <= tracklist::title_width(w),
        0 <= tracklist::artist_width(w),
        tracklist::title_width(w) + tracklist::artist_width(w) <= w,
        tracklist::title_width(w) + 1 >= tracklist::artist_width(w),
        w > tracklist::DURATION_WIDTH + tracklist::MARK_WIDTH ==> tracklist::title_width(w)
            + tracklist::artist_width(w) + tracklist::DURATION_WIDTH + tracklist::MARK_WIDTH == w,
{
}

/// What fills the list is what the pane lists: tracks where there are tracks, and otherwise
/// what the pane is called after.
pub proof fn the_list_is_of_its_own_kind(s: StateView)
    ensures
        s.track_list() is Some <==> s.list_kind() is Tracks || s.list_kind() is Queue
            || s.list_kind() is NoMatches,
        s.list_kind() is Queue <==> s.pane is Queue,
        s.list_kind() is Home <==> s.pane is Home,
        s.list_kind() is Playlists <==> s.pane is Playlists && s.open_playlist is None,
        s.list_kind() is Albums <==> s.pane is Albums && s.open_album is None,
        s.list_kind() is Artists <==> s.pane is Artists && s.open_artist is None,
        s.list_kind() is NoMatches ==> s.pane is Search && s.search_results.len() == 0,
        s.pane is Search && s.search_results.len() > 0 ==> s.list_kind() is Tracks,
        s.pane is Search && s.search_query.len() == 0 ==> s.list_kind() is Tracks,
{
}

/// What is open heads its own list.
pub proof fn what_is_open_heads_the_list(s: StateView, i: int)
    ensures
        s.pane is Albums && s.open_album is Some ==> s.pane_title() == (s.open_album->0).1,
        s.pane is Artists && s.open_artist is Some ==> s.pane_title() == (s.open_artist->0).1,
        s.pane is Playlists && 0 <= i < s.playlists.len() && s.open_playlist == Some(
            s.playlists[i].id,
        ) && (forall|j: int| 0 <= j < i ==> (#[trigger] s.playlists[j]).id != s.playlists[i].id)
            ==> s.pane_title() == s.playlists[i].title,
{
    if s.pane is Playlists && 0 <= i < s.playlists.len() && s.open_playlist == Some(
        s.playlists[i].id,
    ) {
        reducer::lemma_playlist_at(s.playlists, s.playlists[i].id);
    }
}

/// The spinner turns while something is loading, and only then.
pub proof fn the_spinner_turns_while_loading(s: StateView, heading: Rect)
    ensures
        s.spinner_area(heading) is Some <==> s.loading,
        s.loading ==> s.spinner_area(heading) == Some(heading),
{
}

/// The help lies over everything where it is open, and nothing else is taken for it.
pub proof fn the_help_is_drawn_where_it_is_open(s: StateView)
    ensures
        render::cover_of(s) == Cover::Help <==> s.modal == Some(ModalView::Help),
{
}

/// In the sidebar the pane that is open stands out, the cursor shows while it is there, and
/// what a guest cannot enter is dim.
pub proof fn the_sidebar_shows_where_one_is(s: StateView, i: usize, w: usize)
    requires
        i < 8,
    ensures
        ({
            let line = s.source_line(i, w);
            let pane = sidebar::SOURCES@[i as int].0;
            &&& (line.spans[0].text == " "@) == (pane != s.pane)
            &&& forall|k: int|
                0 <= k < line.spans.len() ==> (#[trigger] line.spans[k]).style.selected == (i
                    == s.sidebar_selected && s.focus is Sidebar)
            &&& line.spans[2].style.bold == (pane == s.pane)
            &&& s.guest && pane.needs_account() ==> line.spans[2].style.fg == Paint::FgDim
            &&& !(s.guest && pane.needs_account()) ==> line.spans[2].style.fg != Paint::FgDim
        }),
{
    reveal_strlit(" ");
    reveal_strlit("\u{258E}");
    assert(" "@[0] == ' ' && "\u{258E}"@[0] == '\u{258E}');
}

/// The bar never shows less of a track that has come farther, and nothing of one that has
/// not begun.
pub proof fn the_bar_shows_how_far_it_is(p: int, q: int, duration: int, width: int)
    requires
        0 <= p <= q,
        0 < duration,
        0 <= width,
    ensures
        nowplaying::eighths(p, duration, width) <= nowplaying::eighths(q, duration, width),
        nowplaying::eighths(0, duration, width) == 0,
        nowplaying::eighths(p, 0, width) == 0,
{
    if p > 0 {
        double::a_larger_part_is_no_smaller_share(p, q, duration, width * 8);
    } else if q > 0 {
        double::lemma_small(0);
        double::a_larger_part_is_no_smaller_share(0, q, duration, width * 8);
    }
}

/// A bar is as wide as it may be, filled from the left, and blank behind what is filled.
pub proof fn a_bar_is_filled_from_the_left(filled: int, width: int, i: int)
    requires
        0 <= filled,
        0 <= i < width,
    ensures
        ({
            let bar = nowplaying::bar_text(filled, width);
            &&& bar.len() == width
            &&& i * 8 + 8 <= filled ==> bar[i] == '\u{2588}'
            &&& i * 8 >= filled ==> bar[i] == ' '
        }),
{
}

/// What can be heard is what the volume says: nothing while muted.
pub proof fn the_volume_is_what_can_be_heard(s: StateView)
    ensures
        s.muted ==> s.volume_text() == (StateView { muted: false, volume: 0, ..s }).volume_text(),
        !s.muted ==> text::has_part(s.volume_text(), text::decimal(s.volume as nat)),
{
    if !s.muted {
        let d = text::decimal(s.volume as nat);
        let v = s.volume_text();
        let k = v.len() - 1 - d.len();
        reveal_strlit("%");
        assert(v.subrange(k, k + d.len()) =~= d);
        assert(text::part_at(v, d, k));
    }
}

/// The times beside the bar are those of the track: where it is, and how long it is.
pub proof fn the_times_are_those_of_the_track(s: StateView)
    ensures
        text::begins(s.times_text(), model::clock(s.position as nat)),
        text::has_part(s.tail_text(), model::clock(s.duration as nat)),
{
    let at = model::clock(s.position as nat);
    let all = model::clock(s.duration as nat);
    assert(s.times_text().subrange(0, at.len() as int) =~= at);
    let k = "  "@.len() as int;
    assert(s.tail_text().subrange(k, k + all.len()) =~= all);
    assert(text::part_at(s.tail_text(), all, k));
}

/// Each state of the playback, and each mode, has a sign of its own.
pub proof fn each_state_has_its_own_sign(a: StateView, b: StateView)
    ensures
        a.playback_glyph() == b.playback_glyph() ==> a.playback == b.playback,
        a.repeat_glyph() == b.repeat_glyph() ==> a.repeat == b.repeat,
        a.shuffle_glyph() == b.shuffle_glyph() ==> a.shuffle == b.shuffle,
{
    reveal_strlit("\u{25B6}");
    reveal_strlit("\u{23F8}");
    reveal_strlit("\u{22EF}");
    reveal_strlit("\u{25A0}");
    reveal_strlit(" ");
    reveal_strlit("\u{2460}");
    reveal_strlit("\u{21BB}");
    reveal_strlit("\u{21C4}");
    assert("\u{25B6}"@[0] == '\u{25B6}' && "\u{23F8}"@[0] == '\u{23F8}');
    assert("\u{22EF}"@[0] == '\u{22EF}' && "\u{25A0}"@[0] == '\u{25A0}');
    assert(" "@[0] == ' ' && "\u{2460}"@[0] == '\u{2460}' && "\u{21BB}"@[0] == '\u{21BB}');
    assert("\u{21C4}"@[0] == '\u{21C4}');
}

/// The sidebar draws in each row the source that a click there opens, and nothing between
/// the groups.
pub proof fn the_sidebar_draws_what_a_click_opens(s: StateView, w: usize, h: usize, k: int)
    requires
        0 <= k < s.sidebar_lines(w, h).len(),
    ensures
        s.sidebar_lines(w, h).len() <= h,
        match sidebar::source_in_row(k) {
            Some(i) => s.sidebar_lines(w, h)[k] == s.source_line(i, w),
            None => s.sidebar_lines(w, h)[k].spans.len() == 0,
        },
{
}

/// The rows of the list are those that the bar and what stands above the list leave.
pub proof fn the_list_has_the_rows_that_are_left(area: Rect, top: int)
    requires
        top >= 0,
    ensures
        render::list_rows(area, top) >= 0,
        area.height > render::BAR_ROWS + top ==> render::list_rows(area, top) + top
            + render::BAR_ROWS == area.height,
        area.height <= render::BAR_ROWS + top ==> render::list_rows(area, top) == 0,
{
}

/// Each purpose has a colour of its own in a theme: what is set for one is what is painted
/// for it and for nothing else.
pub proof fn each_purpose_has_its_colour(t: Theme, c: Color, p: Paint)
    ensures
        (Theme { fg: c, ..t }).painted(p) == (if p == Paint::Fg { c } else { t.painted(p) }),
        (Theme { fg_dim: c, ..t }).painted(p) == (if p == Paint::FgDim { c } else { t.painted(p) }),
        (Theme { fg_bright: c, ..t }).painted(p) == (if p == Paint::FgBright {
            c
        } else {
            t.painted(p)
        }),
        (Theme { accent: c, ..t }).painted(p) == (if p == Paint::Accent { c } else { t.painted(p) }),
        (Theme { error: c, ..t }).painted(p) == (if p == Paint::Error { c } else { t.painted(p) }),
{
}

} // verus!
