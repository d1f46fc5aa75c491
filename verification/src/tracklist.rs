//! One row per track: mark, title, artist, duration, in columns measured in cells
//! so that wide characters keep the grid intact.

use crate::app::{self, AppState, StateView};
use crate::model::{self, Track, TrackView};
use crate::screen::{
    self, LineView, Paint, Placed, PlacedView, Rect, Span, SpanView, Style, align_right, no_lines,
    no_spans, nothing_placed, pad_to_width, push_line, push_one, push_placed, push_repeated,
    push_span,
};
use vstd::prelude::*;

verus! {

/// Right-hand duration column, wide enough for `1:02:03`.
pub const DURATION_WIDTH: usize = 7;

/// The multi-select bullet plus its trailing space.
pub const MARK_WIDTH: usize = 2;

/// The title takes so many tenths of what is left; the artist gets the rest.
pub const TITLE_SHARE: usize = 6;

/// The rows to draw: from the old scroll position, moved just so far that the
/// selected row is among them.
pub open spec fn window(selected: int, offset: int, height: int, len: int) -> (int, int) {
    if len == 0 || height == 0 {
        (0, 0)
    } else {
        let guess = if offset < len - 1 {
            offset
        } else {
            len - 1
        };
        let up = if selected < guess {
            selected
        } else {
            guess
        };
        let start = if selected >= up + height {
            selected + 1 - height
        } else {
            up
        };
        (
            start,
            if start + height < len {
                start + height
            } else {
                len
            },
        )
    }
}

/// The slice of rows to draw, keeping `selected` visible. Returns a half-open range;
/// `offset` is the previous scroll position, used as a starting guess so the list
/// does not jump while the selection stays in the viewport.
pub fn visible_window(selected: usize, offset: usize, height: usize, len: usize) -> (r: (
    usize,
    usize,
))
    ensures
        (r.0 as int, r.1 as int) == window(
            selected as int,
            offset as int,
            height as int,
            len as int,
        ),
{
    if len == 0 || height == 0 {
        return (0, 0);
    }
    let mut start: usize = if offset < len - 1 {
        offset
    } else {
        len - 1
    };
    if selected < start {
        start = selected;
    }
    if selected - start >= height {
        start = selected - height + 1;
    }
    let end: usize = if height < len && start < len - height {
        start + height
    } else {
        len
    };
    (start, end)
}

/// The selected row is drawn, no more rows than fit are, and none past the end.
pub proof fn the_window_shows_the_selected_row(selected: int, offset: int, height: int, len: int)
    requires
        0 <= selected < len,
        0 <= offset,
        0 < height,
    ensures
        window(selected, offset, height, len).0 <= selected < window(
            selected,
            offset,
            height,
            len,
        ).1,
        window(selected, offset, height, len).1 <= len,
        window(selected, offset, height, len).1 - window(selected, offset, height, len).0
            <= height,
{
}

/// The list does not jump while the selected row stays in the viewport.
pub proof fn the_window_stays_while_it_can(selected: int, offset: int, height: int, len: int)
    requires
        0 <= offset < len,
        offset <= selected < offset + height,
        selected < len,
    ensures
        window(selected, offset, height, len).0 == offset,
{
}

/// What is left of a row for its texts.
pub open spec fn text_width(w: int) -> int {
    if w > DURATION_WIDTH + MARK_WIDTH {
        w - (DURATION_WIDTH + MARK_WIDTH)
    } else {
        0
    }
}

/// The cells of the title column.
pub open spec fn title_width(w: int) -> int {
    text_width(w) * TITLE_SHARE / 10
}

/// The cells of the artist column.
pub open spec fn artist_width(w: int) -> int {
    text_width(w) - title_width(w)
}

fn columns(w: u16) -> (r: (usize, usize))
    ensures
        r.0 == title_width(w as int),
        r.1 == artist_width(w as int),
{
    let text_w: usize = (w as usize).saturating_sub(DURATION_WIDTH + MARK_WIDTH);
    let title_w: usize = (text_w * TITLE_SHARE) / 10;
    (title_w, text_w - title_w)
}

/// The header of the columns, aligned to those the rows use.
pub open spec fn header_spans(w: u16) -> Seq<SpanView> {
    let style = Style::heavy(Paint::FgDim);
    seq![
        screen::piece(screen::repeated(' ', MARK_WIDTH as int), style),
        screen::piece(screen::padded("Title"@, title_width(w as int) as usize), style),
        screen::piece(screen::padded("Artist"@, artist_width(w as int) as usize), style),
        screen::piece(screen::right_aligned("Time"@, DURATION_WIDTH as int), style),
    ]
}

/// A dim header over the columns of the rows.
pub fn draw_column_header(w: u16) -> (r: Vec<Span>)
    ensures
        r.deep_view() == header_spans(w),
{
    let (title_w, artist_w) = columns(w);
    let style = Style::bold(Paint::FgDim);
    let mut gutter = String::new();
    push_repeated(&mut gutter, ' ', MARK_WIDTH);
    assert(gutter@ =~= screen::repeated(' ', MARK_WIDTH as int));
    let mut spans = no_spans();
    push_span(&mut spans, gutter, style);
    push_span(&mut spans, pad_to_width("Title", title_w), style);
    push_span(&mut spans, pad_to_width("Artist", artist_w), style);
    push_span(&mut spans, align_right("Time", DURATION_WIDTH), style);
    assert(spans.deep_view() =~= header_spans(w));
    spans
}

impl StateView {
    /// The tracks on screen.
    pub open spec fn tracks_on_screen(self) -> Seq<TrackView> {
        match self.track_list() {
            Some(ts) => Seq::new(self.visible().len(), |k: int| ts[self.visible()[k]]),
            None => Seq::empty(),
        }
    }

    /// The row is selected or marked.
    pub open spec fn is_highlighted(self, t: TrackView, row: int) -> bool {
        row == self.selected || self.marked.contains(t.video_id)
    }

    /// The track is the one that plays.
    pub open spec fn is_playing(self, t: TrackView) -> bool {
        self.now_playing matches Some(n) && n.video_id == t.video_id
    }

    /// The line of one track.
    pub open spec fn track_line(self, t: TrackView, row: int, w: u16) -> LineView {
        let lit = self.is_highlighted(t, row);
        let style = Style {
            fg: if self.is_playing(t) {
                Paint::Accent
            } else {
                Paint::Fg
            },
            selected: lit,
            bold: self.is_playing(t),
        };
        let side = if lit {
            style
        } else {
            Style::of(Paint::FgDim)
        };
        LineView {
            spans: seq![
                screen::piece(
                    if self.marked.contains(t.video_id) {
                        "\u{2022} "@
                    } else {
                        "  "@
                    },
                    Style { fg: Paint::Accent, selected: lit, bold: false },
                ),
                screen::piece(screen::padded(t.title, title_width(w as int) as usize), style),
                screen::piece(screen::padded(t.artist_line(), artist_width(w as int) as usize), side),
                screen::piece(screen::right_aligned(model::clock(t.duration as nat), DURATION_WIDTH as int), side),
            ],
            selected: lit,
        }
    }

    /// The lines of the tracks in the window.
    pub open spec fn track_lines(self, w: u16, h: u16) -> Seq<LineView> {
        let ts = self.tracks_on_screen();
        let (start, end) = window(
            self.selected as int,
            self.scroll_offset as int,
            h as int,
            ts.len() as int,
        );
        Seq::new(
            if start < end {
                (end - start) as nat
            } else {
                0
            },
            |k: int| self.track_line(ts[start + k], start + k, w),
        )
    }
}

/// What an empty track list says.
pub open spec fn empty_text(pane: crate::app::Pane) -> Seq<char> {
    match pane {
        crate::app::Pane::Songs => "No liked songs yet"@,
        crate::app::Pane::Search => "Type to search"@,
        crate::app::Pane::Queue => "The queue is empty"@,
        crate::app::Pane::Downloads => "No downloads yet"@,
        _ => "Nothing here yet"@,
    }
}

/// What a track list paints into an area.
pub open spec fn drawn(s: StateView, area: Rect) -> Seq<PlacedView> {
    if area.void() {
        Seq::empty()
    } else if s.tracks_on_screen().len() == 0 {
        seq![screen::one_line(area, seq![screen::piece(empty_text(s.pane), Style::of(Paint::FgDim))])]
    } else {
        seq![PlacedView { area, lines: s.track_lines(area.width, area.height) }]
    }
}

fn track_spans(s: &AppState, t: &Track, row: usize, w: u16, lit: bool) -> (r: Vec<Span>)
    requires
        lit == s@.is_highlighted(t.deep_view(), row as int),
    ensures
        r.deep_view() == s@.track_line(t.deep_view(), row as int, w).spans,
{
    proof {
        app::state_shows_its_fields(s);
    }
    let playing: bool = match &s.now_playing {
        Some(n) => n.video_id.same(&t.video_id),
        None => false,
    };
    let style = Style {
        fg: if playing {
            Paint::Accent
        } else {
            Paint::Fg
        },
        selected: lit,
        bold: playing,
    };
    let side = if lit {
        style
    } else {
        Style::plain(Paint::FgDim)
    };
    let (title_w, artist_w) = columns(w);
    let mut spans = no_spans();
    push_span(
        &mut spans,
        (if s.marked.contains(&t.video_id) {
            "\u{2022} "
        } else {
            "  "
        }).to_owned(),
        Style { fg: Paint::Accent, selected: lit, bold: false },
    );
    push_span(&mut spans, pad_to_width(t.title.as_str(), title_w), style);
    let artists = t.artist_display();
    push_span(&mut spans, pad_to_width(artists.as_str(), artist_w), side);
    let time = t.duration.text();
    push_span(&mut spans, align_right(time.as_str(), DURATION_WIDTH), side);
    assert(spans.deep_view() =~= s@.track_line(t.deep_view(), row as int, w).spans);
    spans
}

/// The track list of the open pane, painted into an area.
pub fn draw(s: &AppState, area: Rect) -> (r: Vec<Placed>)
    ensures
        r.deep_view() == drawn(s@, area),
{
    let mut out = nothing_placed();
    if area.is_empty() {
        return out;
    }
    proof {
        app::state_shows_its_fields(s);
    }
    let rows = s.visible_tracks();
    assert(rows.deep_view() =~= s@.tracks_on_screen());
    assert(rows@.len() == rows.deep_view().len());
    if rows.len() == 0 {
        let mut spans = no_spans();
        push_span(&mut spans, s.empty_message().to_owned(), Style::plain(Paint::FgDim));
        assert(spans.deep_view() =~= seq![screen::piece(empty_text(s@.pane), Style::of(Paint::FgDim))]);
        push_one(&mut out, area, spans);
        assert(out.deep_view() =~= drawn(s@, area));
        return out;
    }
    let (start, end) = visible_window(
        s.selected,
        s.scroll_offset,
        area.height as usize,
        rows.len(),
    );
    let mut lines = no_lines();
    let mut i: usize = start;
    let ghost want = s@.track_lines(area.width, area.height);
    assert(lines.deep_view() =~= want.take(0));
    while i < end
        invariant
            rows.deep_view() == s@.tracks_on_screen(),
            rows@.len() == rows.deep_view().len(),
            (start as int, end as int) == window(
                s@.selected as int,
                s@.scroll_offset as int,
                area.height as int,
                rows@.len() as int,
            ),
            end <= rows@.len(),
            start <= i,
            start < end ==> i <= end,
            start >= end ==> i == start,
            want == s@.track_lines(area.width, area.height),
            lines.deep_view() == want.take(i - start),
        decreases end - i,
    {
        let t = &rows[i];
        assert(t.deep_view() == s@.tracks_on_screen()[i as int]);
        proof {
            app::state_shows_its_fields(s);
        }
        let lit: bool = i == s.selected || s.marked.contains(&t.video_id);
        let spans = track_spans(s, t, i, area.width, lit);
        push_line(&mut lines, spans, lit);
        assert(want[i - start] == s@.track_line(
            s@.tracks_on_screen()[i as int],
            i as int,
            area.width,
        ));
        i += 1;
        assert(want.take(i - start) =~= want.take(i - start - 1).push(want[i - start - 1]));
    }
    assert(lines.deep_view() =~= want);
    push_placed(&mut out, area, lines);
    assert(out.deep_view() =~= drawn(s@, area));
    out
}

} // verus!
