//! The list of sources down the left edge.

use crate::app::{self, AppState, Focus, PANE_ORDER, Pane, StateView};
use crate::screen::{
    self, Line, LineView, Paint, Span, Style, no_lines, no_spans, pad_to_width, push_line,
    push_span,
};
use crate::text::{self, push_decimal};
use crate::theme::{Color, Theme};
use vstd::prelude::*;

verus! {

/// Display order of the sources, top to bottom.
pub const SOURCES: [(Pane, &'static str); 8] = [
    (Pane::Home, "Home"),
    (Pane::Playlists, "Playlists"),
    (Pane::Songs, "Fav"),
    (Pane::Albums, "Albums"),
    (Pane::Artists, "Artists"),
    (Pane::Search, "Search"),
    (Pane::Queue, "Queue"),
    (Pane::Downloads, "Downloads"),
];

/// One line of the sidebar as it is drawn: a source, or a blank row separating one
/// group from the next.
#[derive(Debug, Clone, Copy, PartialEq, Eq, Structural)]
pub enum SidebarRow {
    /// The nth entry of `SOURCES`.
    Source(usize),
    /// A blank grouping row.
    Spacer,
}

/// The sidebar top to bottom: the feed, the library, then what is searched and
/// queued, each group set apart by a blank row.
pub open spec fn rows() -> Seq<SidebarRow> {
    seq![
        SidebarRow::Source(0),
        SidebarRow::Spacer,
        SidebarRow::Source(1),
        SidebarRow::Source(2),
        SidebarRow::Source(3),
        SidebarRow::Source(4),
        SidebarRow::Spacer,
        SidebarRow::Source(5),
        SidebarRow::Source(6),
        SidebarRow::Source(7),
    ]
}

/// The sidebar top to bottom.
pub fn layout() -> (r: Vec<SidebarRow>)
    ensures
        r@ == rows(),
{
    let r: Vec<SidebarRow> = vec![
        SidebarRow::Source(0),
        SidebarRow::Spacer,
        SidebarRow::Source(1),
        SidebarRow::Source(2),
        SidebarRow::Source(3),
        SidebarRow::Source(4),
        SidebarRow::Spacer,
        SidebarRow::Source(5),
        SidebarRow::Source(6),
        SidebarRow::Source(7),
    ];
    assert(r@ =~= rows());
    r
}

/// The source drawn at a row.
pub open spec fn source_in_row(row: int) -> Option<usize> {
    if 0 <= row < rows().len() {
        match rows()[row] {
            SidebarRow::Source(i) => Some(i),
            SidebarRow::Spacer => None,
        }
    } else {
        None
    }
}

/// The source drawn at screen `row`, or `None` for a spacer or a row past the end
/// of the layout.
pub fn source_at_row(row: usize) -> (r: Option<usize>)
    ensures
        r == source_in_row(row as int),
{
    let all = layout();
    if row < all.len() {
        match all[row] {
            SidebarRow::Source(i) => Some(i),
            SidebarRow::Spacer => None,
        }
    } else {
        None
    }
}

/// Columns the marker and the number take before the label.
pub const PREFIX_WIDTH: usize = 3;

impl StateView {
    /// What a source's label is painted for. A guest cannot enter the account panes,
    /// so they read as dimmed rather than selectable.
    pub open spec fn source_paint(self, pane: Pane, active: bool) -> Paint {
        if self.guest && pane.needs_account() {
            Paint::FgDim
        } else if active {
            Paint::FgBright
        } else {
            Paint::Fg
        }
    }

    /// The line of a source: the bar of the pane one is in, the key that jumps here,
    /// and the label. The cursor is a background under all of them.
    pub open spec fn source_line(self, i: usize, w: usize) -> LineView {
        let (pane, label) = SOURCES@[i as int];
        let active = pane == self.pane;
        let on = i == self.sidebar_selected && self.focus is Sidebar;
        LineView {
            spans: seq![
                screen::piece(
                    if active {
                        "\u{258E}"@
                    } else {
                        " "@
                    },
                    Style {
                        fg: if active {
                            Paint::Accent
                        } else {
                            Paint::FgDim
                        },
                        selected: on,
                        bold: false,
                    },
                ),
                screen::piece(
                    text::decimal((i + 1) as nat) + " "@,
                    Style { fg: Paint::FgDim, selected: on, bold: false },
                ),
                screen::piece(
                    screen::padded(
                        label@,
                        (if w >= PREFIX_WIDTH {
                            w - PREFIX_WIDTH
                        } else {
                            0
                        }) as usize,
                    ),
                    Style { fg: self.source_paint(pane, active), selected: on, bold: active },
                ),
            ],
            selected: false,
        }
    }

    /// The lines of the sidebar in so many columns and rows.
    pub open spec fn sidebar_lines(self, w: usize, h: usize) -> Seq<LineView> {
        Seq::new(
            if h < rows().len() {
                h as nat
            } else {
                rows().len()
            },
            |k: int|
                match rows()[k] {
                    SidebarRow::Source(i) => self.source_line(i, w),
                    SidebarRow::Spacer => LineView { spans: Seq::empty(), selected: false },
                },
        )
    }
}

fn label_paint(pane: Pane, active: bool, s: &AppState) -> (r: Paint)
    ensures
        r == s@.source_paint(pane, active),
{
    proof {
        app::state_shows_its_switches(s);
    }
    if s.guest && pane.requires_auth() {
        Paint::FgDim
    } else if active {
        Paint::FgBright
    } else {
        Paint::Fg
    }
}

/// The label colour for one source row.
pub fn source_label_color(pane: Pane, active: bool, s: &AppState, t: &Theme) -> (r: Color)
    ensures
        r == t.painted(s@.source_paint(pane, active)),
{
    t.paint(label_paint(pane, active, s))
}

fn source_spans(i: usize, w: usize, s: &AppState) -> (r: Vec<Span>)
    requires
        i < 8,
    ensures
        r.deep_view() == s@.source_line(i, w).spans,
{
    proof {
        app::state_shows_its_switches(s);
    }
    let (pane, label) = SOURCES[i];
    let active: bool = pane == s.pane;
    let on: bool = i == s.sidebar_selected && s.focus == Focus::Sidebar;
    let mut spans = no_spans();
    push_span(
        &mut spans,
        (if active {
            "\u{258E}"
        } else {
            " "
        }).to_owned(),
        Style {
            fg: if active {
                Paint::Accent
            } else {
                Paint::FgDim
            },
            selected: on,
            bold: false,
        },
    );
    let mut number = String::new();
    push_decimal(&mut number, (i + 1) as u64);
    number.append(" ");
    push_span(&mut spans, number, Style { fg: Paint::FgDim, selected: on, bold: false });
    push_span(
        &mut spans,
        pad_to_width(label, w.saturating_sub(PREFIX_WIDTH)),
        Style { fg: label_paint(pane, active, s), selected: on, bold: active },
    );
    assert(spans.deep_view() =~= s@.source_line(i, w).spans);
    spans
}

/// The lines of the sidebar in `w` columns and `h` rows.
pub fn lines(s: &AppState, w: usize, h: usize) -> (r: Vec<Line>)
    ensures
        r.deep_view() == s@.sidebar_lines(w, h),
{
    let all = layout();
    let n: usize = if h < all.len() {
        h
    } else {
        all.len()
    };
    let mut out = no_lines();
    let mut k: usize = 0;
    while k < n
        invariant
            k <= n <= all@.len(),
            all@ == rows(),
            n == s@.sidebar_lines(w, h).len(),
            out.deep_view() == s@.sidebar_lines(w, h).take(k as int),
        decreases n - k,
    {
        let ghost all_lines = s@.sidebar_lines(w, h);
        match all[k] {
            SidebarRow::Source(i) => {
                let spans = source_spans(i, w, s);
                push_line(&mut out, spans, false);
            },
            SidebarRow::Spacer => {
                push_line(&mut out, no_spans(), false);
            },
        }
        k += 1;
        assert(all_lines.take(k as int) =~= all_lines.take(k - 1).push(all_lines[k - 1]));
    }
    assert(out.deep_view() =~= s@.sidebar_lines(w, h));
    out
}

/// Every source has exactly one row of its own.
pub proof fn the_layout_covers_every_source_once(i: usize)
    requires
        i < SOURCES@.len(),
    ensures
        exists|row: int| source_in_row(row) == Some(i),
        forall|a: int, b: int|
            source_in_row(a) == Some(i) && source_in_row(b) == Some(i) ==> a == b,
{
    let row: int = if i == 0 {
        0
    } else if i < 5 {
        i + 1
    } else {
        i + 2
    };
    assert(source_in_row(row) == Some(i));
}

/// The number keys open the sources in the order the sidebar shows them.
pub proof fn the_sidebar_shows_the_order_of_the_number_keys(i: int)
    requires
        0 <= i < SOURCES@.len(),
    ensures
        SOURCES@.len() == PANE_ORDER@.len(),
        SOURCES@[i].0 == PANE_ORDER@[i],
{
}

} // verus!
