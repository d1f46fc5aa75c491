//! The bar at the bottom: what is playing, and where in it we are.

use crate::app::{self, AppState, StateView};
use crate::double::{self, share_of};
use crate::model;
use crate::player::{PlaybackState, RepeatMode};
use crate::render::SIDEBAR_WIDTH;
use crate::screen::{
    self, Paint, Placed, PlacedView, Rect, Span, SpanView, Style, Want, align_right, display_width,
    no_spans, nothing_placed, push_one, push_repeated, push_span, split_area, truncate_to_width,
};
use crate::text::{self, decimal_text, join2};
use vstd::prelude::*;

verus! {

/// Rows inside the bar, in order: blank margin, rule, title, gap, progress.
pub const RULE_ROW: u16 = 1;

pub const TITLE_ROW: u16 = 2;

pub const PROGRESS_ROW: u16 = 4;

pub const HEIGHT: u16 = 5;

/// Eighth-block glyphs give eight times the resolution of a plain block per column.
pub const EIGHTHS: [char; 8] = [
    '\u{258F}',
    '\u{258E}',
    '\u{258D}',
    '\u{258C}',
    '\u{258B}',
    '\u{258A}',
    '\u{2589}',
    '\u{2588}',
];

impl StateView {
    /// The glyph of the shuffle mode.
    pub open spec fn shuffle_glyph(self) -> Seq<char> {
        if self.shuffle {
            "\u{21C4}"@
        } else {
            " "@
        }
    }

    /// The glyph of the repeat mode.
    pub open spec fn repeat_glyph(self) -> Seq<char> {
        match self.repeat {
            RepeatMode::Off => " "@,
            RepeatMode::One => "\u{2460}"@,
            RepeatMode::All => "\u{21BB}"@,
        }
    }

    /// The volume that can be heard, in percent.
    pub open spec fn volume_text(self) -> Seq<char> {
        screen::right_aligned(
            text::decimal(
                if self.muted {
                    0
                } else {
                    self.volume as nat
                },
            ),
            3,
        ) + "%"@
    }

    /// The text before the bar.
    pub open spec fn times_text(self) -> Seq<char> {
        model::clock(self.position as nat) + "  "@
    }

    /// The text right behind the bar.
    pub open spec fn tail_text(self) -> Seq<char> {
        "  "@ + model::clock(self.duration as nat)
    }

    /// The mode flags.
    pub open spec fn flags_text(self) -> Seq<char> {
        "  "@ + self.shuffle_glyph() + self.repeat_glyph() + "  "@ + self.volume_text()
    }
}

/// Where a bar starts and how wide it is, in a row of `w` cells of which the texts
/// around it take so many.
pub open spec fn span_of(w: int, times: int, tail: int, flags: int) -> (int, int) {
    (
        times,
        if w > times + tail + flags {
            w - (times + tail + flags)
        } else {
            0
        },
    )
}

/// Column the bar starts at, and how wide it is, inside a row of width `w`.
pub open spec fn bar(w: int, s: StateView) -> (int, int) {
    span_of(
        w,
        screen::cells(s.times_text()) as int,
        screen::cells(s.tail_text()) as int,
        screen::cells(s.flags_text()) as int,
    )
}

/// Which second a click at a column means: the position of the left edge of the
/// cell. `None` when the click misses the bar, or there is nothing to seek within.
pub open spec fn second_at(col: int, start: int, width: int, duration: int) -> Option<int> {
    if duration == 0 || width == 0 || col < start || col >= start + width {
        None
    } else {
        let n = double::share(col - start, width, duration);
        Some(
            if n > u64::MAX {
                u64::MAX as int
            } else {
                n
            },
        )
    }
}

fn shuffle_text(s: &AppState) -> (r: &'static str)
    ensures
        r@ == s@.shuffle_glyph(),
{
    proof {
        app::state_shows_its_fields(s);
    }
    if s.shuffle {
        "\u{21C4}"
    } else {
        " "
    }
}

fn repeat_text(s: &AppState) -> (r: &'static str)
    ensures
        r@ == s@.repeat_glyph(),
{
    proof {
        app::state_shows_its_fields(s);
    }
    match s.repeat {
        RepeatMode::Off => " ",
        RepeatMode::One => "\u{2460}",
        RepeatMode::All => "\u{21BB}",
    }
}

fn volume_percent(s: &AppState) -> (r: String)
    ensures
        r@ == s@.volume_text(),
{
    proof {
        app::state_shows_its_fields(s);
    }
    let n = decimal_text(
        if s.muted {
            0
        } else {
            s.volume as u64
        },
    );
    let mut out = align_right(n.as_str(), 3);
    out.append("%");
    out
}

/// The fixed text around the bar: elapsed, duration, and the mode flags.
pub fn chrome_parts(s: &AppState) -> (r: (String, String, String))
    ensures
        r.0@ == s@.times_text(),
        r.1@ == s@.tail_text(),
        r.2@ == s@.flags_text(),
{
    proof {
        app::state_shows_its_fields(s);
    }
    let mut times = s.position.text();
    times.append("  ");
    let total = s.duration.text();
    let tail = join2("  ", total.as_str());
    let mut flags = "  ".to_owned();
    flags.append(shuffle_text(s));
    flags.append(repeat_text(s));
    flags.append("  ");
    let volume = volume_percent(s);
    flags.append(volume.as_str());
    (times, tail, flags)
}

/// Where a bar starts and how wide it is, given the cells of the texts around it.
pub fn span_between(w: usize, times: usize, tail: usize, flags: usize) -> (r: (usize, usize))
    ensures
        (r.0 as int, r.1 as int) == span_of(w as int, times as int, tail as int, flags as int),
{
    let chrome: u128 = times as u128 + tail as u128 + flags as u128;
    if (w as u128) > chrome {
        (times, (w as u128 - chrome) as usize)
    } else {
        (times, 0)
    }
}

/// Column the bar starts at, and how wide it is, inside a row of width `w`.
pub fn bar_span(w: usize, s: &AppState) -> (r: (usize, usize))
    ensures
        (r.0 as int, r.1 as int) == bar(w as int, s@),
{
    let (times, tail, flags) = chrome_parts(s);
    span_between(
        w,
        display_width(times.as_str()),
        display_width(tail.as_str()),
        display_width(flags.as_str()),
    )
}

/// Which second of so many a click at a column means.
pub fn second_under(col: usize, start: usize, width: usize, duration: u64) -> (r: Option<u64>)
    ensures
        match second_at(col as int, start as int, width as int, duration as int) {
            Some(n) => r == Some(n as u64) && 0 <= n <= u64::MAX,
            None => r is None,
        },
{
    if duration == 0 || width == 0 || col < start || col - start >= width {
        return None;
    }
    let n: u128 = share_of((col - start) as u64, width as u64, duration);
    if n > u64::MAX as u128 {
        Some(u64::MAX)
    } else {
        Some(n as u64)
    }
}

/// Which second a click at column `col` of the progress row means.
pub fn seek_target_secs(w: usize, col: usize, s: &AppState) -> (r: Option<u64>)
    ensures
        match second_at(
            col as int,
            bar(w as int, s@).0,
            bar(w as int, s@).1,
            s@.duration as int,
        ) {
            Some(n) => r == Some(n as u64) && 0 <= n <= u64::MAX,
            None => r is None,
        },
{
    proof {
        app::state_shows_its_fields(s);
    }
    let (start, width) = bar_span(w, s);
    second_under(col, start, width, s.duration.as_secs())
}

/// A click on the first cell of the bar means the beginning.
pub proof fn the_first_cell_is_the_beginning(start: int, width: int, duration: int)
    requires
        0 < width,
        0 < duration,
    ensures
        second_at(start, start, width, duration) == Some(0int),
{
    double::lemma_small(0);
}

/// A click farther to the right never means an earlier second.
pub proof fn farther_right_is_never_earlier(a: int, b: int, start: int, width: int, duration: int)
    requires
        0 < duration,
        start <= a <= b < start + width,
    ensures
        second_at(a, start, width, duration)->0 <= second_at(b, start, width, duration)->0,
{
    double::a_larger_part_is_no_smaller_share(a - start, b - start, width, duration);
}

/// A click means no second behind the end, as long as the seconds can be told apart.
pub proof fn a_click_stays_within_the_track(col: int, start: int, width: int, duration: int)
    requires
        0 < duration < double::LIMIT,
        start <= col < start + width,
    ensures
        0 <= second_at(col, start, width, duration)->0 <= duration,
{
    double::a_larger_part_is_no_smaller_share(col - start, col - start, width, duration);
    double::lemma_small(duration);
}

/// How many eighths of so many cells are filled, for a part of a whole. Nothing is
/// filled where there is no whole; more than the whole fills everything.
pub open spec fn eighths(num: int, den: int, width: int) -> int {
    if den == 0 || num <= 0 {
        0
    } else {
        double::share(num, den, width * 8)
    }
}

/// A bar of so many cells of which so many eighths are filled.
pub open spec fn bar_text(filled: int, width: int) -> Seq<char> {
    Seq::new(
        width as nat,
        |i: int|
            if i < filled / 8 {
                '\u{2588}'
            } else if i == filled / 8 && filled % 8 > 0 {
                EIGHTHS@[filled % 8 - 1]
            } else {
                ' '
            },
    )
}

/// A bar of `width` cells for `num` parts of `den`, always as wide as it may be.
pub fn progress_bar(num: i128, den: u64, width: usize) -> (r: String)
    requires
        width * 8 <= usize::MAX,
    ensures
        r@ == bar_text(eighths(num as int, den as int, width as int), width as int),
{
    let part: u64 = if num <= 0 {
        0
    } else if num >= den as i128 {
        den
    } else {
        num as u64
    };
    let filled: u128 = if den == 0 || num <= 0 {
        0
    } else {
        share_of(part, den, (width * 8) as u64)
    };
    proof {
        if den != 0 && num >= den {
            double::lemma_as_double_in_order(den as int, num as int);
            if double::as_double(den as int) <= 0 {
                double::lemma_small(1);
                double::lemma_as_double_in_order(1, den as int);
            }
        }
        assert(filled == eighths(num as int, den as int, width as int));
    }
    let most: u128 = width as u128 * 8;
    let shown: usize = if filled > most {
        width * 8
    } else {
        filled as usize
    };
    let full: usize = shown / 8;
    let rem: usize = shown % 8;
    let mut out = String::new();
    push_repeated(&mut out, '\u{2588}', full);
    let mut used: usize = full;
    if rem > 0 {
        out.push(EIGHTHS[rem - 1]);
        used += 1;
    }
    push_repeated(&mut out, ' ', width - used);
    assert(out@ =~= bar_text(filled as int, width as int));
    out
}

/// The rule over the bar, with a junction where the divider of the sidebar meets it.
pub open spec fn rule_text(w: int) -> Seq<char> {
    Seq::new(
        w as nat,
        |i: int|
            if i == SIDEBAR_WIDTH {
                '\u{2534}'
            } else {
                '\u{2500}'
            },
    )
}

fn rule(w: u16) -> (r: String)
    ensures
        r@ == rule_text(w as int),
{
    let mut out = String::new();
    if w > SIDEBAR_WIDTH {
        push_repeated(&mut out, '\u{2500}', SIDEBAR_WIDTH as usize);
        out.push('\u{2534}');
        push_repeated(&mut out, '\u{2500}', (w - SIDEBAR_WIDTH - 1) as usize);
    } else {
        push_repeated(&mut out, '\u{2500}', w as usize);
    }
    assert(out@ =~= rule_text(w as int));
    out
}

/// The rows of the bar.
pub open spec fn row_wants() -> Seq<Want> {
    seq![Want::Length(1), Want::Length(1), Want::Length(1), Want::Length(1), Want::Min(0)]
}

impl StateView {
    /// The glyph of the playback.
    pub open spec fn playback_glyph(self) -> Seq<char> {
        match self.playback {
            PlaybackState::Playing => "\u{25B6}"@,
            PlaybackState::Paused => "\u{23F8}"@,
            PlaybackState::Loading => "\u{22EF}"@,
            PlaybackState::Stopped => "\u{25A0}"@,
        }
    }

    /// The line that names what is playing, in `w` cells.
    pub open spec fn title_spans(self, w: int) -> Seq<SpanView> {
        match self.now_playing {
            None => seq![screen::piece("Nothing playing"@, Style::of(Paint::FgDim))],
            Some(t) => seq![
                screen::piece(self.playback_glyph() + " "@, Style::of(Paint::Accent)),
                screen::piece(
                    screen::cut_to(
                        t.title,
                        (if w > 24 {
                            w - 24
                        } else {
                            0
                        }) as usize,
                    ),
                    Style::heavy(Paint::FgBright),
                ),
                screen::piece(" \u{2014} "@, Style::of(Paint::FgDim)),
                screen::piece(t.artist_line(), Style::of(Paint::Fg)),
            ],
        }
    }

    /// The mode flags, each in the accent where it is on. Muted reads as an alert.
    pub open spec fn flag_spans(self) -> Seq<SpanView> {
        let dim = Style::of(Paint::FgDim);
        let on = Style::heavy(Paint::Accent);
        seq![
            screen::piece("  "@, dim),
            screen::piece(
                self.shuffle_glyph(),
                if self.shuffle {
                    on
                } else {
                    dim
                },
            ),
            screen::piece(
                self.repeat_glyph(),
                if self.repeat is Off {
                    dim
                } else {
                    on
                },
            ),
            screen::piece("  "@, dim),
            screen::piece(
                self.volume_text(),
                if self.muted {
                    Style::of(Paint::Error)
                } else {
                    dim
                },
            ),
        ]
    }

    /// The line of the bar itself, in `w` cells.
    pub open spec fn progress_spans(self, w: int) -> Seq<SpanView> {
        let width = bar(w, self).1;
        seq![
            screen::piece(self.times_text(), Style::of(Paint::FgDim)),
            screen::piece(
                bar_text(eighths(self.position as int, self.duration as int, width), width),
                Style::of(Paint::Accent),
            ),
            screen::piece(self.tail_text(), Style::of(Paint::FgDim)),
        ] + self.flag_spans()
    }
}

/// What the bar paints into an area that is split into these rows.
pub open spec fn drawn(s: StateView, area: Rect, rows: Seq<Rect>) -> Seq<PlacedView> {
    let w = area.width;
    let rule = if area.height > RULE_ROW {
        let line = seq![
            screen::one_line(
                rows[RULE_ROW as int],
                seq![screen::piece(rule_text(w as int), Style::of(Paint::FgDim))],
            ),
        ];
        if w > SIDEBAR_WIDTH {
            line.push(
                screen::one_line(
                    rows[0],
                    seq![
                        screen::piece(screen::repeated(' ', SIDEBAR_WIDTH as int), Style::of(Paint::FgDim)),
                        screen::piece("\u{2502}"@, Style::of(Paint::FgDim)),
                    ],
                ),
            )
        } else {
            line
        }
    } else {
        Seq::empty()
    };
    if area.void() {
        Seq::empty()
    } else {
        rule.push(screen::one_line(rows[TITLE_ROW as int], s.title_spans(w as int))).push(
            screen::one_line(rows[PROGRESS_ROW as int], s.progress_spans(w as int)),
        )
    }
}

fn title_line(s: &AppState, w: usize) -> (r: Vec<Span>)
    ensures
        r.deep_view() == s@.title_spans(w as int),
{
    proof {
        app::state_shows_its_fields(s);
    }
    let mut spans = no_spans();
    match &s.now_playing {
        None => {
            push_span(&mut spans, "Nothing playing".to_owned(), Style::plain(Paint::FgDim));
        },
        Some(t) => {
            let glyph: &str = match s.playback {
                PlaybackState::Playing => "\u{25B6}",
                PlaybackState::Paused => "\u{23F8}",
                PlaybackState::Loading => "\u{22EF}",
                PlaybackState::Stopped => "\u{25A0}",
            };
            push_span(&mut spans, join2(glyph, " "), Style::plain(Paint::Accent));
            push_span(
                &mut spans,
                truncate_to_width(t.title.as_str(), w.saturating_sub(24)),
                Style::bold(Paint::FgBright),
            );
            push_span(&mut spans, " \u{2014} ".to_owned(), Style::plain(Paint::FgDim));
            push_span(&mut spans, t.artist_display(), Style::plain(Paint::Fg));
        },
    }
    assert(spans.deep_view() =~= s@.title_spans(w as int));
    spans
}

fn progress_line(s: &AppState, w: u16) -> (r: Vec<Span>)
    ensures
        r.deep_view() == s@.progress_spans(w as int),
{
    proof {
        app::state_shows_its_fields(s);
    }
    let dim = Style::plain(Paint::FgDim);
    let on = Style::bold(Paint::Accent);
    let (times, tail, _) = chrome_parts(s);
    let (_, width) = bar_span(w as usize, s);
    let mut spans = no_spans();
    push_span(&mut spans, times, dim);
    push_span(
        &mut spans,
        progress_bar(s.position.as_secs() as i128, s.duration.as_secs(), width),
        Style::plain(Paint::Accent),
    );
    push_span(&mut spans, tail, dim);
    push_span(&mut spans, "  ".to_owned(), dim);
    push_span(
        &mut spans,
        shuffle_text(s).to_owned(),
        if s.shuffle {
            on
        } else {
            dim
        },
    );
    push_span(
        &mut spans,
        repeat_text(s).to_owned(),
        if s.repeat == RepeatMode::Off {
            dim
        } else {
            on
        },
    );
    push_span(&mut spans, "  ".to_owned(), dim);
    push_span(
        &mut spans,
        volume_percent(s),
        if s.muted {
            Style::plain(Paint::Error)
        } else {
            dim
        },
    );
    assert(spans.deep_view() =~= s@.progress_spans(w as int));
    spans
}

/// The bar, painted into an area that is split into these rows.
pub fn draw_rows(s: &AppState, area: Rect, rows: &Vec<Rect>) -> (r: Vec<Placed>)
    requires
        rows@.len() == HEIGHT,
    ensures
        r.deep_view() == drawn(s@, area, rows@),
{
    let mut out = nothing_placed();
    if area.is_empty() {
        return out;
    }
    let w = area.width;
    if area.height > RULE_ROW {
        let mut spans = no_spans();
        push_span(&mut spans, rule(w), Style::plain(Paint::FgDim));
        assert(spans.deep_view() =~= seq![screen::piece(rule_text(w as int), Style::of(Paint::FgDim))]);
        push_one(&mut out, rows[1], spans);
        // Only the divider crosses the margin; the list side stays empty.
        if w > SIDEBAR_WIDTH {
            let mut gap = String::new();
            push_repeated(&mut gap, ' ', SIDEBAR_WIDTH as usize);
            assert(gap@ =~= screen::repeated(' ', SIDEBAR_WIDTH as int));
            let mut spans = no_spans();
            push_span(&mut spans, gap, Style::plain(Paint::FgDim));
            push_span(&mut spans, "\u{2502}".to_owned(), Style::plain(Paint::FgDim));
            assert(spans.deep_view() =~= seq![
                screen::piece(screen::repeated(' ', SIDEBAR_WIDTH as int), Style::of(Paint::FgDim)),
                screen::piece("\u{2502}"@, Style::of(Paint::FgDim)),
            ]);
            push_one(&mut out, rows[0], spans);
        }
    }
    push_one(&mut out, rows[2], title_line(s, w as usize));
    push_one(&mut out, rows[4], progress_line(s, w));
    assert(out.deep_view() =~= drawn(s@, area, rows@));
    out
}

/// The bar, painted into an area.
pub fn draw(s: &AppState, area: Rect) -> (r: Vec<Placed>)
    ensures
        exists|rows: Seq<Rect>| #[trigger]
            screen::cut(area, true, row_wants(), rows) && r.deep_view() == drawn(s@, area, rows),
{
    let wants: Vec<Want> = vec![
        Want::Length(1),
        Want::Length(1),
        Want::Length(1),
        Want::Length(1),
        Want::Min(0),
    ];
    assert(wants@ =~= row_wants());
    let rows = split_area(area, true, wants);
    draw_rows(s, area, &rows)
}

/// The flags as they are drawn are the flags whose width the bar leaves room for.
pub proof fn the_drawn_flags_are_the_measured_ones(s: StateView)
    ensures
        s.flag_spans()[0].text + s.flag_spans()[1].text + s.flag_spans()[2].text
            + s.flag_spans()[3].text + s.flag_spans()[4].text == s.flags_text(),
{
}

} // verus!
