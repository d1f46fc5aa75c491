//! The frame: sidebar and main pane side by side, the bar pinned to the bottom, and
//! what a click on any of it means. Drawing and clicking go by the same numbers.

use crate::app::{self, AppState, Modal, ModalView, Pane, StateView};
use crate::nowplaying::{self, HEIGHT, PROGRESS_ROW};
use crate::reducer::{self, find_playlist};
use crate::screen::{
    self, Paint, Rect, Span, SpanView, Style, Want, display_width, no_spans, push_span, split_area,
    truncate_to_width,
};
use crate::sidebar::{self, source_at_row};
use crate::text::{self, push_decimal, trim};
use crate::tracklist::{self, draw_column_header};
use vstd::prelude::*;

verus! {

/// Columns of the sidebar.
pub const SIDEBAR_WIDTH: u16 = 22;

/// Columns the art panel takes when it appears.
pub const ART_WIDTH: u16 = 24;

/// Blank columns between the track list and the art panel.
pub const ART_GAP: u16 = 2;

/// The main pane keeps at least this much, or the art panel does not appear.
pub const MAIN_MIN_WIDTH: u16 = 48;

/// Rows of the bar that count against the list: margin, rule, title and progress. The bar
/// is drawn `HEIGHT` rows high, one more than that: a screen of so many rows is promised a
/// list of a fixed number of them, and both promises hold only if the count is one row
/// ahead of the frame. The last row that is counted is then not drawn.
pub const BAR_ROWS: u16 = 4;

/// What sits under a mouse click.
#[derive(Debug, Clone, Copy, PartialEq, Eq, Structural)]
pub enum ClickTarget {
    /// The nth sidebar source.
    Source(usize),
    /// The nth row of the list, counting from the top of the visible window.
    Row(usize),
    /// The progress row of the bar, with the column clicked.
    Progress(u16),
    /// Anything else: the heading, the rest of the bar, the rule.
    Nothing,
}

/// The split of an area into the body and the bar below it, which has its rows as
/// long as there are any.
pub open spec fn halves(area: Rect) -> (Rect, Rect) {
    let rows = screen::reach(area, true);
    let bar = if rows < HEIGHT {
        rows
    } else {
        HEIGHT as int
    };
    (screen::slice(area, true, 0, rows - bar), screen::slice(area, true, rows - bar, bar))
}

/// One row, where it is there.
pub open spec fn row_if(there: bool) -> int {
    if there {
        1
    } else {
        0
    }
}

/// Screen row of the first entry of the list: the heading comes first, then the
/// rows for a query, a filter and the column header, each where it is there.
pub open spec fn list_top(search_row: bool, filter_row: bool, header_row: bool) -> int {
    1 + row_if(search_row) + row_if(filter_row) + row_if(header_row)
}

/// What sits under a click, in a frame of a body and a bar.
pub open spec fn target(body: Rect, np: Rect, col: u16, row: u16, top: int) -> ClickTarget {
    if row >= body.height {
        if row == np.y + PROGRESS_ROW && np.x <= col < np.x + np.width {
            ClickTarget::Progress((col - np.x) as u16)
        } else {
            ClickTarget::Nothing
        }
    } else if col < SIDEBAR_WIDTH {
        match sidebar::source_in_row(row as int) {
            Some(i) => ClickTarget::Source(i),
            None => ClickTarget::Nothing,
        }
    } else if col == SIDEBAR_WIDTH || row < top {
        ClickTarget::Nothing
    } else {
        ClickTarget::Row((row - top) as usize)
    }
}

/// Screen row the list's first entry is drawn on.
pub fn list_top_for(search_row: bool, filter_row: bool, header_row: bool) -> (r: u16)
    ensures
        r == list_top(search_row, filter_row, header_row),
{
    let mut top: u16 = 1;
    if search_row {
        top += 1;
    }
    if filter_row {
        top += 1;
    }
    if header_row {
        top += 1;
    }
    top
}

/// How many rows of the list an area has room for.
pub open spec fn list_rows(area: Rect, top: int) -> int {
    if area.height > BAR_ROWS + top {
        area.height - BAR_ROWS - top
    } else {
        0
    }
}

/// How many rows of the list an area has room for.
pub fn list_rows_for(area: Rect, search_row: bool, filter_row: bool, header_row: bool) -> (r: usize)
    ensures
        r == list_rows(area, list_top(search_row, filter_row, header_row)),
{
    area.height.saturating_sub(BAR_ROWS).saturating_sub(
        list_top_for(search_row, filter_row, header_row),
    ) as usize
}

/// The body area and the bar below it.
pub fn body_and_nowplaying(area: Rect) -> (r: (Rect, Rect))
    ensures
        r == halves(area),
{
    let wants: Vec<Want> = vec![Want::Min(0), Want::Length(HEIGHT)];
    let rows = split_area(area, true, wants);
    proof {
        reveal_with_fuel(screen::asked, 3);
        let extent = screen::reach(area, true);
        assert(extent >= HEIGHT ==> screen::fits(extent, wants@, 0));
        assert(wants@[0] is Min);
    }
    (rows[0], rows[1])
}

/// What sits under a click at `(col, row)`, in a frame of a body and a bar, where
/// the list begins at row `top`.
pub fn target_in(body: Rect, np: Rect, col: u16, row: u16, top: u16) -> (r: ClickTarget)
    ensures
        r == target(body, np, col, row, top as int),
{
    // The progress row is the one clickable part of the bar.
    if row >= body.height {
        let on_row: bool = row as u32 == np.y as u32 + PROGRESS_ROW as u32;
        let on_bar: bool = col >= np.x && (col as u32) < np.x as u32 + np.width as u32;
        return if on_row && on_bar {
            ClickTarget::Progress(col - np.x)
        } else {
            ClickTarget::Nothing
        };
    }
    if col < SIDEBAR_WIDTH {
        return match source_at_row(row as usize) {
            Some(i) => ClickTarget::Source(i),
            None => ClickTarget::Nothing,
        };
    }
    if col == SIDEBAR_WIDTH || row < top {
        ClickTarget::Nothing
    } else {
        ClickTarget::Row((row - top) as usize)
    }
}

/// What sits under a click at `(col, row)` in a terminal of size `area`.
pub fn click_target(
    area: Rect,
    col: u16,
    row: u16,
    search_row: bool,
    filter_row: bool,
    header_row: bool,
) -> (r: ClickTarget)
    ensures
        r == target(
            halves(area).0,
            halves(area).1,
            col,
            row,
            list_top(search_row, filter_row, header_row),
        ),
{
    let (body, np) = body_and_nowplaying(area);
    target_in(body, np, col, row, list_top_for(search_row, filter_row, header_row))
}

/// A click on a row of the list names that row: row `n` is drawn `n` rows below the
/// first one.
pub proof fn a_click_names_the_row_under_it(body: Rect, np: Rect, col: u16, n: int, top: int)
    requires
        0 <= n,
        0 <= top,
        top + n < body.height,
        col > SIDEBAR_WIDTH,
    ensures
        target(body, np, col, (top + n) as u16, top) == ClickTarget::Row(n as usize),
{
}

/// Whether an art panel appears: it is displayable, something is playing, and the
/// list stays readable.
pub open spec fn art_fits(area: Rect, art_enabled: bool, has_art: bool) -> bool {
    art_enabled && has_art && area.width >= MAIN_MIN_WIDTH + ART_WIDTH + ART_GAP
}

/// The parts of the main area beside an art panel.
pub open spec fn art_wants() -> Seq<Want> {
    seq![Want::Min(0), Want::Length(ART_GAP), Want::Length(ART_WIDTH)]
}

/// Whether a list and an art panel are what the main area is split into, with a gap
/// between them, where the panel appears, and else whether the list has the area.
pub open spec fn art_beside(
    area: Rect,
    art_enabled: bool,
    has_art: bool,
    list: Rect,
    art: Option<Rect>,
) -> bool {
    if art_fits(area, art_enabled, has_art) {
        &&& art is Some
        &&& exists|gap: Rect|
            #[trigger] screen::cut_in_three(area, false, art_wants(), list, gap, art->0)
    } else {
        list == area && art is None
    }
}

/// The art panel, where it appears, takes its columns at the right edge, and the list
/// keeps those before the gap.
pub proof fn the_art_panel_is_at_the_right_edge(
    area: Rect,
    art_enabled: bool,
    has_art: bool,
    list: Rect,
    art: Option<Rect>,
)
    requires
        art_beside(area, art_enabled, has_art, list, art),
        art_fits(area, art_enabled, has_art),
        area.x + area.width <= u16::MAX,
    ensures
        list == screen::slice(area, false, 0, area.width - ART_WIDTH - ART_GAP),
        art == Some(screen::slice(area, false, area.width - ART_WIDTH, ART_WIDTH as int)),
{
    let gap = choose|gap: Rect|
        #[trigger] screen::cut_in_three(area, false, art_wants(), list, gap, art->0);
    let parts = seq![list, gap, art->0];
    reveal_with_fuel(screen::asked, 4);
    assert(screen::fits(screen::reach(area, false), art_wants(), 0));
    assert(art_wants()[0] is Min);
    assert(parts[0] == list && parts[2] == art->0);
}

/// Splits the main area into list and art panel, or leaves it whole.
pub fn split_for_art(area: Rect, art_enabled: bool, has_art: bool) -> (r: (Rect, Option<Rect>))
    ensures
        art_beside(area, art_enabled, has_art, r.0, r.1),
{
    if !art_enabled || !has_art || area.width < MAIN_MIN_WIDTH + ART_WIDTH + ART_GAP {
        return (area, None);
    }
    let wants: Vec<Want> = vec![Want::Min(0), Want::Length(ART_GAP), Want::Length(ART_WIDTH)];
    assert(wants@ =~= art_wants());
    let cols = split_area(area, false, wants);
    // The middle column is the gap: deliberately left unpainted.
    assert(screen::cut_in_three(area, false, art_wants(), cols@[0], cols@[1], cols@[2])) by {
        assert(cols@ =~= seq![cols@[0], cols@[1], cols@[2]]);
    }
    let r: (Rect, Option<Rect>) = (cols[0], Some(cols[2]));
    assert(screen::cut_in_three(area, false, art_wants(), r.0, cols@[1], r.1->0));
    r
}

impl StateView {
    /// What the heading calls the open pane, or what is open in it.
    pub open spec fn pane_title(self) -> Seq<char> {
        match self.pane {
            Pane::Playlists => match self.open_playlist {
                Some(id) => match reducer::playlist_at(self.playlists, id) {
                    Some(i) => self.playlists[i].title,
                    None => "Playlist"@,
                },
                None => "Playlists"@,
            },
            Pane::Home => "Home"@,
            Pane::Songs => "Fav"@,
            Pane::Albums => match self.open_album {
                Some((_, name)) => name,
                None => "Albums"@,
            },
            Pane::Artists => match self.open_artist {
                Some((_, name)) => name,
                None => "Artists"@,
            },
            Pane::Search => "Search"@,
            Pane::Queue => "Queue"@,
            Pane::Downloads => "Downloads"@,
        }
    }

    /// The badge of a range selection.
    pub open spec fn badge(self) -> Seq<char> {
        "  VISUAL "@ + text::decimal(self.marked.len())
    }
}

/// A title and a badge in `w` cells, of which they take so many: the badge is
/// dropped, not cut, where both do not fit.
pub open spec fn heading(
    title: Seq<char>,
    badge: Option<Seq<char>>,
    title_w: int,
    badge_w: int,
    w: usize,
) -> (Seq<char>, Option<Seq<char>>) {
    match badge {
        Some(b) if title_w + badge_w <= w => (title, Some(b)),
        _ => (screen::cut_to(title, w), None),
    }
}

fn pane_title(s: &AppState) -> (r: String)
    ensures
        r@ == s@.pane_title(),
{
    proof {
        app::state_shows_its_fields(s);
    }
    match s.pane {
        Pane::Playlists => match &s.open_playlist {
            Some(id) => match find_playlist(&s.playlists, id) {
                Some(i) => s.playlists[i].title.clone(),
                None => "Playlist".to_owned(),
            },
            None => "Playlists".to_owned(),
        },
        Pane::Home => "Home".to_owned(),
        Pane::Songs => "Fav".to_owned(),
        Pane::Albums => match &s.open_album {
            Some(open) => open.1.clone(),
            None => "Albums".to_owned(),
        },
        Pane::Artists => match &s.open_artist {
            Some(open) => open.1.clone(),
            None => "Artists".to_owned(),
        },
        Pane::Search => "Search".to_owned(),
        Pane::Queue => "Queue".to_owned(),
        Pane::Downloads => "Downloads".to_owned(),
    }
}

/// A title and a badge that take so many cells, in `w` cells.
pub fn fit_heading(
    title: String,
    badge: Option<String>,
    title_w: usize,
    badge_w: usize,
    w: usize,
) -> (r: (String, Option<String>))
    ensures
        (r.0@, r.1.deep_view()) == heading(
            title@,
            badge.deep_view(),
            title_w as int,
            badge_w as int,
            w,
        ),
{
    match badge {
        Some(b) => {
            if title_w as u128 + badge_w as u128 <= w as u128 {
                return (title, Some(b));
            }
        },
        None => {},
    }
    (truncate_to_width(title.as_str(), w), None)
}

/// The heading row: the pane name, plus a badge of the range selection when one
/// fits.
pub fn heading_parts(s: &AppState, w: usize) -> (r: (String, Option<String>))
    ensures
        (r.0@, r.1.deep_view()) == heading(
            s@.pane_title(),
            if s@.visual_anchor is Some {
                Some(s@.badge())
            } else {
                None
            },
            screen::cells(s@.pane_title()) as int,
            screen::cells(s@.badge()) as int,
            w,
        ),
{
    proof {
        app::state_shows_its_fields(s);
    }
    let title = pane_title(s);
    if !s.in_visual_mode() {
        return fit_heading(title, None, 0, 0, w);
    }
    let mut badge = "  VISUAL ".to_owned();
    push_decimal(&mut badge, s.marked.len() as u64);
    let title_w: usize = display_width(title.as_str());
    let badge_w: usize = display_width(badge.as_str());
    fit_heading(title, Some(badge), title_w, badge_w, w)
}

/// Which widget fills the list of the main pane.
#[derive(Debug, Clone, Copy, PartialEq, Eq, Structural)]
pub enum ListKind {
    Home,
    Playlists,
    Albums,
    Artists,
    Queue,
    Tracks,
    /// A search that found nothing, which must not look like one not made yet.
    NoMatches,
}

impl StateView {
    /// Which widget fills the list. What is open shows its tracks.
    pub open spec fn list_kind(self) -> ListKind {
        match self.pane {
            Pane::Home => ListKind::Home,
            Pane::Playlists => if self.open_playlist is Some {
                ListKind::Tracks
            } else {
                ListKind::Playlists
            },
            Pane::Songs => ListKind::Tracks,
            Pane::Queue => ListKind::Queue,
            Pane::Search => if self.search_results.len() == 0 && text::trimmed(self.search_query).len()
                > 0 {
                ListKind::NoMatches
            } else {
                ListKind::Tracks
            },
            Pane::Albums => if self.open_album is Some {
                ListKind::Tracks
            } else {
                ListKind::Albums
            },
            Pane::Artists => if self.open_artist is Some {
                ListKind::Tracks
            } else {
                ListKind::Artists
            },
            Pane::Downloads => ListKind::Tracks,
        }
    }

    /// The rows of the main pane: the heading, those for a query, a filter and the
    /// column header, each where it is there, and the list.
    pub open spec fn main_wants(self) -> Seq<Want> {
        seq![
            Want::Length(1),
            Want::Length(row_if(self.search_row_visible()) as u16),
            Want::Length(row_if(self.filter_row_visible()) as u16),
            Want::Length(row_if(self.column_header_visible()) as u16),
            Want::Min(0),
        ]
    }

    /// The pieces of the heading in `w` cells.
    pub open spec fn heading_spans(self, w: usize) -> Seq<SpanView> {
        let (title, badge) = heading(
            self.pane_title(),
            if self.visual_anchor is Some {
                Some(self.badge())
            } else {
                None
            },
            screen::cells(self.pane_title()) as int,
            screen::cells(self.badge()) as int,
            w,
        );
        let first = screen::piece(title, Style::heavy(Paint::FgBright));
        match badge {
            Some(b) => seq![first, screen::piece(b, Style::heavy(Paint::Accent))],
            None => seq![first],
        }
    }

    /// Where the spinner goes: to the row of the heading, since it is that pane's rows that
    /// are loading, and only while they are.
    pub open spec fn spinner_area(self, heading: Rect) -> Option<Rect> {
        if self.loading {
            Some(heading)
        } else {
            None
        }
    }

    /// What the main pane paints into the rows of an area `w` cells wide.
    pub open spec fn main_plan(self, w: usize, rows: Seq<Rect>) -> MainView {
        MainView {
            heading_area: rows[0],
            heading: self.heading_spans(w),
            spinner: self.spinner_area(rows[0]),
            search: if self.search_row_visible() {
                Some(rows[1])
            } else {
                None
            },
            filter: if self.filter_row_visible() {
                Some(rows[2])
            } else {
                None
            },
            header_area: if self.column_header_visible() {
                Some(rows[3])
            } else {
                None
            },
            header: tracklist::header_spans(rows[3].width),
            list_area: rows[4],
            list: self.list_kind(),
        }
    }

    /// Whether the main pane paints this into an area: nothing where there is no
    /// room, and else its parts into the rows that the area is split into.
    pub open spec fn main_drawn(self, area: Rect, plan: Option<MainView>) -> bool {
        if area.void() {
            plan is None
        } else {
            exists|rows: Seq<Rect>| #[trigger]
                screen::cut(area, true, self.main_wants(), rows) && plan == Some(
                    self.main_plan(area.width as usize, rows),
                )
        }
    }
}

/// What the main pane paints.
#[derive(Debug, Clone, PartialEq, Eq)]
pub struct MainPlan {
    pub heading_area: Rect,
    pub heading: Vec<Span>,
    /// Where the query is typed.
    /// The row at whose right end the spinner turns, while something is loading.
    pub spinner: Option<Rect>,
    pub search: Option<Rect>,
    /// Where the filter is typed.
    pub filter: Option<Rect>,
    /// Where the names of the columns stand.
    pub header_area: Option<Rect>,
    pub header: Vec<Span>,
    pub list_area: Rect,
    pub list: ListKind,
}

/// The model of a `MainPlan`.
#[verifier::ext_equal]
pub struct MainView {
    pub heading_area: Rect,
    pub heading: Seq<SpanView>,
    pub spinner: Option<Rect>,
    pub search: Option<Rect>,
    pub filter: Option<Rect>,
    pub header_area: Option<Rect>,
    pub header: Seq<SpanView>,
    pub list_area: Rect,
    pub list: ListKind,
}

impl DeepView for MainPlan {
    type V = MainView;

    open spec fn deep_view(&self) -> MainView {
        MainView {
            heading_area: self.heading_area,
            heading: self.heading.deep_view(),
            spinner: self.spinner,
            search: self.search,
            filter: self.filter,
            header_area: self.header_area,
            header: self.header.deep_view(),
            list_area: self.list_area,
            list: self.list,
        }
    }
}

fn list_kind(s: &AppState) -> (r: ListKind)
    ensures
        r == s@.list_kind(),
{
    proof {
        app::state_shows_its_fields(s);
    }
    match s.pane {
        Pane::Home => ListKind::Home,
        Pane::Playlists => if s.open_playlist.is_some() {
            ListKind::Tracks
        } else {
            ListKind::Playlists
        },
        Pane::Songs => ListKind::Tracks,
        Pane::Queue => ListKind::Queue,
        Pane::Search => {
            let query = trim(s.search_query.as_str());
            assert(s.search_results@.len() == s@.search_results.len());
            if s.search_results.len() == 0 && query.as_str().unicode_len() > 0 {
                ListKind::NoMatches
            } else {
                ListKind::Tracks
            }
        },
        Pane::Albums => if s.open_album.is_some() {
            ListKind::Tracks
        } else {
            ListKind::Albums
        },
        Pane::Artists => if s.open_artist.is_some() {
            ListKind::Tracks
        } else {
            ListKind::Artists
        },
        Pane::Downloads => ListKind::Tracks,
    }
}

fn rows_for(there: bool) -> (r: u16)
    ensures
        r == row_if(there),
{
    if there {
        1
    } else {
        0
    }
}

/// The row that the spinner turns in, given that of the heading: that one, while something
/// is loading.
pub fn spinner_row(s: &AppState, heading: Rect) -> (r: Option<Rect>)
    ensures
        r == s@.spinner_area(heading),
{
    proof {
        app::state_shows_its_switches(s);
    }
    if s.loading {
        Some(heading)
    } else {
        None
    }
}

/// The main pane in the rows of an area `w` cells wide: the heading, those for a
/// query, a filter and the column header, and the list.
pub fn draw_rows(s: &AppState, w: usize, rows: &Vec<Rect>) -> (r: MainPlan)
    requires
        rows@.len() == 5,
    ensures
        r.deep_view() == s@.main_plan(w, rows@),
{
    let (title, badge) = heading_parts(s, w);
    let mut spans = no_spans();
    push_span(&mut spans, title, Style::bold(Paint::FgBright));
    match badge {
        Some(b) => push_span(&mut spans, b, Style::bold(Paint::Accent)),
        None => {},
    }
    assert(spans.deep_view() =~= s@.heading_spans(w));
    MainPlan {
        heading_area: rows[0],
        heading: spans,
        spinner: spinner_row(s, rows[0]),
        search: if s.search_row_visible() {
            Some(rows[1])
        } else {
            None
        },
        filter: if s.filter_row_visible() {
            Some(rows[2])
        } else {
            None
        },
        header_area: if s.column_header_visible() {
            Some(rows[3])
        } else {
            None
        },
        header: draw_column_header(rows[3].width),
        list_area: rows[4],
        list: list_kind(s),
    }
}

/// The main pane: a heading row, then the list for whichever pane is open.
pub fn draw_main(s: &AppState, area: Rect) -> (r: Option<MainPlan>)
    ensures
        s@.main_drawn(area, r.deep_view()),
{
    if area.is_empty() {
        return None;
    }
    let wants: Vec<Want> = vec![
        Want::Length(1),
        Want::Length(rows_for(s.search_row_visible())),
        Want::Length(rows_for(s.filter_row_visible())),
        Want::Length(rows_for(s.column_header_visible())),
        Want::Min(0),
    ];
    assert(wants@ =~= s@.main_wants());
    let rows = split_area(area, true, wants);
    Some(draw_rows(s, area.width as usize, &rows))
}

/// What lies over everything else.
#[derive(Debug, Clone, Copy, PartialEq, Eq, Structural)]
pub enum Cover {
    Help,
    /// Any other overlay, or none.
    Modal,
}

/// Where everything goes.
#[derive(Debug, Clone, Copy, PartialEq, Eq, Structural)]
pub struct FramePlan {
    pub sidebar: Rect,
    pub rule: Rect,
    pub main: Rect,
    pub art: Option<Rect>,
    pub bar: Rect,
    pub cover: Cover,
}

/// The columns of the body.
pub open spec fn body_wants() -> Seq<Want> {
    seq![Want::Length(SIDEBAR_WIDTH), Want::Length(1), Want::Min(0)]
}

/// What lies over everything else in a state.
pub open spec fn cover_of(s: StateView) -> Cover {
    if s.modal == Some(ModalView::Help) {
        Cover::Help
    } else {
        Cover::Modal
    }
}

/// Whether this is where everything goes in an area: the bar below the body, and in
/// the body the sidebar, the rule and the main pane, with an art panel or without.
pub open spec fn framed(
    s: StateView,
    area: Rect,
    art_enabled: bool,
    art_ready: bool,
    plan: Option<FramePlan>,
) -> bool {
    if area.void() {
        plan is None
    } else {
        &&& plan is Some
        &&& plan->0.bar == halves(area).1
        &&& plan->0.cover == cover_of(s)
        &&& exists|main: Rect| #[trigger]
            screen::cut_in_three(
                halves(area).0,
                false,
                body_wants(),
                plan->0.sidebar,
                plan->0.rule,
                main,
            ) && art_beside(main, art_enabled, art_ready, plan->0.main, plan->0.art)
    }
}

/// Where everything goes in a terminal of size `area`. An art panel is only split
/// off once its picture is there.
pub fn render(s: &AppState, area: Rect, art_enabled: bool, art_ready: bool) -> (r: Option<
    FramePlan,
>)
    ensures
        framed(s@, area, art_enabled, art_ready, r),
{
    if area.is_empty() {
        return None;
    }
    proof {
        app::state_shows_its_fields(s);
    }
    let (body, np) = body_and_nowplaying(area);
    let wants: Vec<Want> = vec![Want::Length(SIDEBAR_WIDTH), Want::Length(1), Want::Min(0)];
    assert(wants@ =~= body_wants());
    let cols = split_area(body, false, wants);
    assert(screen::cut_in_three(body, false, body_wants(), cols@[0], cols@[1], cols@[2])) by {
        assert(cols@ =~= seq![cols@[0], cols@[1], cols@[2]]);
    }
    let (main, art) = split_for_art(cols[2], art_enabled, art_ready);
    let help: bool = match &s.modal {
        Some(Modal::Help) => true,
        _ => false,
    };
    let plan = FramePlan {
        sidebar: cols[0],
        rule: cols[1],
        main,
        art,
        bar: np,
        cover: if help {
            Cover::Help
        } else {
            Cover::Modal
        },
    };
    assert(screen::cut_in_three(body, false, body_wants(), plan.sidebar, plan.rule, cols@[2]));
    Some(plan)
}

/// In a terminal that is wide enough for the sidebar and its rule, they take their
/// columns, the main pane and the art panel those after them, and a click beside the
/// rule falls on the side where it was drawn.
pub proof fn the_panes_are_where_clicks_find_them(
    s: StateView,
    area: Rect,
    art_enabled: bool,
    art_ready: bool,
    plan: FramePlan,
)
    requires
        framed(s, area, art_enabled, art_ready, Some(plan)),
        area.x == 0,
        area.y == 0,
        area.width > SIDEBAR_WIDTH,
    ensures
        plan.sidebar == (Rect { x: 0, width: SIDEBAR_WIDTH, ..halves(area).0 }),
        plan.rule == (Rect { x: SIDEBAR_WIDTH, width: 1, ..halves(area).0 }),
        plan.main.x == SIDEBAR_WIDTH + 1,
        plan.art is None ==> plan.main.x + plan.main.width == area.width,
        plan.art is Some ==> plan.main.x + plan.main.width + ART_GAP == plan.art->0.x
            && plan.art->0.x + plan.art->0.width == area.width,
        plan.bar.y == plan.sidebar.height,
        forall|col: u16, row: u16, top: int|
            (#[trigger] target(halves(area).0, plan.bar, col, row, top)) is Source ==> col
                < plan.rule.x,
        forall|col: u16, row: u16, top: int|
            (#[trigger] target(halves(area).0, plan.bar, col, row, top)) is Row ==> col
                >= plan.main.x,
{
    let body = halves(area).0;
    let main = choose|main: Rect| #[trigger]
        screen::cut_in_three(body, false, body_wants(), plan.sidebar, plan.rule, main) && art_beside(
            main,
            art_enabled,
            art_ready,
            plan.main,
            plan.art,
        );
    let parts = seq![plan.sidebar, plan.rule, main];
    reveal_with_fuel(screen::asked, 4);
    assert(screen::fits(screen::reach(body, false), body_wants(), 2));
    assert(body_wants()[2] is Min);
    assert(parts[0] == plan.sidebar && parts[1] == plan.rule && parts[2] == main);
    if art_fits(main, art_enabled, art_ready) {
        the_art_panel_is_at_the_right_edge(main, art_enabled, art_ready, plan.main, plan.art);
    }
}

/// The bar paints its progress on the row on which a click seeks, where all its rows
/// are there.
#[verifier::spinoff_prover]
pub proof fn the_progress_is_drawn_where_clicks_seek(area: Rect, rows: Seq<Rect>, col: u16, top: int)
    requires
        area.y == 0,
        area.height >= HEIGHT,
        screen::cut(halves(area).1, true, nowplaying::row_wants(), rows),
        area.x <= col < area.x + area.width,
    ensures
        target(halves(area).0, halves(area).1, col, rows[PROGRESS_ROW as int].y, top)
            == ClickTarget::Progress((col - area.x) as u16),
{
    lemma_rows_above_a_list(halves(area).1, nowplaying::row_wants(), rows);
}

/// The rows above a list are one for the heading and those that are there.
#[verifier::spinoff_prover]
proof fn lemma_rows_above(s: StateView)
    ensures
        ({
            let wants = s.main_wants();
            &&& wants.len() == 5
            &&& wants[4] == Want::Min(0)
            &&& forall|i: int| 0 <= i < 4 ==> (#[trigger] wants[i]) is Length
            &&& wants[0].ask() + wants[1].ask() + wants[2].ask() + wants[3].ask() == list_top(
                s.search_row_visible(),
                s.filter_row_visible(),
                s.column_header_visible(),
            )
        }),
{
}

/// The list begins in the main pane where a click takes it to begin, where the rows
/// above it fit.
#[verifier::spinoff_prover]
pub proof fn drawing_and_clicking_agree(s: StateView, area: Rect, plan: MainView)
    requires
        s.main_drawn(area, Some(plan)),
        list_top(s.search_row_visible(), s.filter_row_visible(), s.column_header_visible())
            <= area.height,
        area.y + area.height <= u16::MAX,
    ensures
        plan.list_area.y == area.y + list_top(
            s.search_row_visible(),
            s.filter_row_visible(),
            s.column_header_visible(),
        ),
        plan.list_area.y + plan.list_area.height == area.y + area.height,
{
    let rows = choose|rows: Seq<Rect>| #[trigger]
        screen::cut(area, true, s.main_wants(), rows) && plan == s.main_plan(
            area.width as usize,
            rows,
        );
    lemma_rows_above(s);
    lemma_rows_above_a_list(area, s.main_wants(), rows);
    assert(plan.list_area == rows[4]);
}

/// The last of five parts, where they fit and it takes what is left over, begins
/// after what the others ask for.
#[verifier::spinoff_prover]
proof fn lemma_rows_above_a_list(area: Rect, wants: Seq<Want>, rows: Seq<Rect>)
    requires
        screen::cut(area, true, wants, rows),
        wants.len() == 5,
        wants[4] == Want::Min(0),
        forall|i: int| 0 <= i < 4 ==> (#[trigger] wants[i]) is Length,
        wants[0].ask() + wants[1].ask() + wants[2].ask() + wants[3].ask() <= area.height,
        area.y + area.height <= u16::MAX,
    ensures
        ({
            let above = wants[0].ask() + wants[1].ask() + wants[2].ask() + wants[3].ask();
            rows[4] == screen::slice(area, true, above, area.height - above)
        }),
{
    reveal_with_fuel(screen::asked, 6);
    assert(screen::fits(screen::reach(area, true), wants, 4));
    assert(rows[4] == screen::share(area, true, wants, 4, 4));
}

} // verus!
