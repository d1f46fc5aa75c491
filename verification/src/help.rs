//! The overlay that lists every binding, in as many columns as it takes.

use crate::event::InputAction;
use crate::keymap::{self, KeyMap};
use crate::screen::{
    self, Line, LineView, Paint, Rect, Span, SpanView, Style, display_width, inside_border,
    no_lines, no_spans, pad_to_width, push_line, push_span,
};
use vstd::prelude::*;

verus! {

/// Largest share of the frame the overlay may take, in percent.
pub const MAX_WIDTH_PCT: u16 = 90;

pub const MAX_HEIGHT_PCT: u16 = 90;

/// Most columns worth trying. Beyond this the eye stops tracking rows.
pub const MAX_COLS: usize = 3;

/// Columns reserved for the key itself; the rest goes to the action name.
pub const KEY_WIDTH: usize = 4;

/// Below this, an action name is truncated past recognition, so there is one column
/// fewer instead.
pub const MIN_LABEL_WIDTH: usize = 8;

/// Bindings that no configuration changes, so that no keymap reports them. None of them
/// is a single character.
pub const FIXED_ROWS: [(&'static str, &'static str); 6] = [
    ("1-8", "jump to source"),
    ("tab", "next source"),
    ("^d/^u", "half page down/up"),
    ("^w", "delete word (search)"),
    ("^\u{2190}\u{2192}", "word motion (search)"),
    ("^a/^e", "line start/end (search)"),
];

/// What the overlay calls an action. Those that nobody presses a key of their own for,
/// and the chords listed on their own, have no name.
pub open spec fn label_of(a: InputAction) -> Option<Seq<char>> {
    match a {
        InputAction::Quit => Some("quit"@),
        InputAction::Up => Some("up"@),
        InputAction::Down => Some("down"@),
        InputAction::Left => Some("back / sidebar"@),
        InputAction::Right => Some("open / list"@),
        InputAction::Home => Some("first row"@),
        InputAction::End => Some("last row"@),
        InputAction::TogglePause => Some("play / pause"@),
        InputAction::NextTrack => Some("next track"@),
        InputAction::PrevTrack => Some("previous track"@),
        InputAction::SeekForward => Some("seek forward"@),
        InputAction::SeekBack => Some("seek back"@),
        InputAction::VolumeUp => Some("volume up"@),
        InputAction::VolumeDown => Some("volume down"@),
        InputAction::ToggleMute => Some("mute"@),
        InputAction::ToggleShuffle => Some("shuffle"@),
        InputAction::CycleRepeat => Some("repeat mode"@),
        InputAction::OpenSearch => Some("search online"@),
        InputAction::OpenFilter => Some("filter this list"@),
        InputAction::CenterOnCursor => Some("centre this row"@),
        InputAction::FocusCurrent => Some("focus playing song"@),
        InputAction::OpenQueue => Some("queue"@),
        InputAction::OpenHelp => Some("this help"@),
        InputAction::AddToQueue => Some("add to queue"@),
        InputAction::PlayNext => Some("play next"@),
        InputAction::MoveEntryUp => Some("move entry up"@),
        InputAction::MoveEntryDown => Some("move entry down"@),
        InputAction::ClearQueue => Some("clear queue"@),
        InputAction::CreatePlaylist => Some("new playlist"@),
        InputAction::RenamePlaylist => Some("rename playlist"@),
        InputAction::DeletePlaylist => Some("delete playlist"@),
        InputAction::RemoveFromPlaylist => Some("remove entry"@),
        InputAction::AddToPlaylist => Some("add to playlist"@),
        InputAction::Refresh => Some("reload"@),
        InputAction::ToggleMark => Some("mark row"@),
        InputAction::ToggleVisual => Some("visual select"@),
        InputAction::CycleTheme => Some("next theme"@),
        InputAction::EditConfig => Some("edit config"@),
        InputAction::Download => Some("download track"@),
        _ => None,
    }
}

/// What the overlay calls an action.
pub fn action_label(a: InputAction) -> (r: Option<&'static str>)
    ensures
        match r {
            Some(l) => label_of(a) == Some(l@),
            None => label_of(a) is None,
        },
{
    match a {
        InputAction::Quit => Some("quit"),
        InputAction::Up => Some("up"),
        InputAction::Down => Some("down"),
        InputAction::Left => Some("back / sidebar"),
        InputAction::Right => Some("open / list"),
        InputAction::Home => Some("first row"),
        InputAction::End => Some("last row"),
        InputAction::TogglePause => Some("play / pause"),
        InputAction::NextTrack => Some("next track"),
        InputAction::PrevTrack => Some("previous track"),
        InputAction::SeekForward => Some("seek forward"),
        InputAction::SeekBack => Some("seek back"),
        InputAction::VolumeUp => Some("volume up"),
        InputAction::VolumeDown => Some("volume down"),
        InputAction::ToggleMute => Some("mute"),
        InputAction::ToggleShuffle => Some("shuffle"),
        InputAction::CycleRepeat => Some("repeat mode"),
        InputAction::OpenSearch => Some("search online"),
        InputAction::OpenFilter => Some("filter this list"),
        InputAction::CenterOnCursor => Some("centre this row"),
        InputAction::FocusCurrent => Some("focus playing song"),
        InputAction::OpenQueue => Some("queue"),
        InputAction::OpenHelp => Some("this help"),
        InputAction::AddToQueue => Some("add to queue"),
        InputAction::PlayNext => Some("play next"),
        InputAction::MoveEntryUp => Some("move entry up"),
        InputAction::MoveEntryDown => Some("move entry down"),
        InputAction::ClearQueue => Some("clear queue"),
        InputAction::CreatePlaylist => Some("new playlist"),
        InputAction::RenamePlaylist => Some("rename playlist"),
        InputAction::DeletePlaylist => Some("delete playlist"),
        InputAction::RemoveFromPlaylist => Some("remove entry"),
        InputAction::AddToPlaylist => Some("add to playlist"),
        InputAction::Refresh => Some("reload"),
        InputAction::ToggleMark => Some("mark row"),
        InputAction::ToggleVisual => Some("visual select"),
        InputAction::CycleTheme => Some("next theme"),
        InputAction::EditConfig => Some("edit config"),
        InputAction::Download => Some("download track"),
        _ => None,
    }
}

/// The rows of some bindings that have a name, in their order.
pub open spec fn named_rows(keys: Seq<(char, InputAction)>) -> Seq<(Seq<char>, Seq<char>)>
    decreases keys.len(),
{
    if keys.len() == 0 {
        Seq::empty()
    } else {
        let rest = named_rows(keys.drop_last());
        match label_of(keys.last().1) {
            Some(l) => rest.push((seq![keys.last().0], l)),
            None => rest,
        }
    }
}

/// The rows of the fixed bindings.
pub open spec fn fixed_rows() -> Seq<(Seq<char>, Seq<char>)> {
    Seq::new(FIXED_ROWS@.len(), |i: int| (FIXED_ROWS@[i].0@, FIXED_ROWS@[i].1@))
}

/// All rows: the bindings as they are, then the fixed ones.
pub open spec fn all_rows(keys: Seq<(char, InputAction)>) -> Seq<(Seq<char>, Seq<char>)> {
    named_rows(keys) + fixed_rows()
}

/// What rows hold.
pub open spec fn texts(v: Seq<(String, &'static str)>) -> Seq<(Seq<char>, Seq<char>)> {
    Seq::new(v.len(), |i: int| (v[i].0@, v[i].1@))
}

/// Rows of key and action, from the live keymap.
pub fn rows(km: &KeyMap) -> (r: Vec<(String, &'static str)>)
    ensures
        texts(r@) == all_rows(km.listing()),
        keymap::ordered(km.listing()),
        keymap::bound(km.listing()) == km@,
{
    let b = km.bindings();
    let ghost keys = km.listing();
    let mut v: Vec<(String, &'static str)> = Vec::new();
    let mut i: usize = 0;
    assert(texts(v@) =~= named_rows(keys.take(0)));
    while i < b.len()
        invariant
            i <= b@.len() == keys.len(),
            forall|k: int|
                0 <= k < b@.len() ==> (#[trigger] b@[k]).0@ == seq![keys[k].0] && b@[k].1
                    == keys[k].1,
            texts(v@) == named_rows(keys.take(i as int)),
        decreases b@.len() - i,
    {
        assert(keys.take(i + 1).drop_last() =~= keys.take(i as int));
        assert(keys.take(i + 1).last() == keys[i as int]);
        assert(b@[i as int].1 == keys[i as int].1);
        let ghost before = texts(v@);
        match action_label(b[i].1) {
            Some(l) => {
                v.push((b[i].0.clone(), l));
                assert(texts(v@) =~= before.push((seq![keys[i as int].0], l@)));
            },
            None => {},
        }
        i += 1;
    }
    assert(keys.take(i as int) =~= keys);
    let ghost named = named_rows(keys);
    let mut k: usize = 0;
    assert(texts(v@) =~= named + fixed_rows().take(0));
    while k < 6
        invariant
            k <= 6,
            texts(v@) == named + fixed_rows().take(k as int),
        decreases 6 - k,
    {
        let ghost before = texts(v@);
        let (key, label) = FIXED_ROWS[k];
        v.push((key.to_owned(), label));
        k += 1;
        assert(texts(v@) =~= before.push(fixed_rows()[k - 1]));
        assert(texts(v@) =~= named + fixed_rows().take(k as int));
    }
    assert(fixed_rows().take(6) =~= fixed_rows());
    v
}

/// A single key is listed with a name if and only if it is bound to the action of that
/// name: whoever has bound another key is not told of the one it was.
pub proof fn the_overlay_lists_the_live_bindings(
    keys: Seq<(char, InputAction)>,
    c: char,
    label: Seq<char>,
)
    requires
        keymap::ordered(keys),
    ensures
        all_rows(keys).contains((seq![c], label)) <==> keymap::bound(keys).contains_key(c)
            && label_of(keymap::bound(keys)[c]) == Some(label),
{
    let row = (seq![c], label);
    let named = named_rows(keys);
    lemma_named_rows(keys, c, label);
    assert(!fixed_rows().contains(row)) by {
        reveal_strlit("1-8");
        reveal_strlit("tab");
        reveal_strlit("^d/^u");
        reveal_strlit("^w");
        reveal_strlit("^\u{2190}\u{2192}");
        reveal_strlit("^a/^e");
        assert forall|i: int| 0 <= i < fixed_rows().len() implies (#[trigger] fixed_rows()[i]).0.len()
            > 1 by {}
        assert(row.0.len() == 1);
    }
    if named.contains(row) {
        let i = choose|i: int| 0 <= i < named.len() && named[i] == row;
        assert(all_rows(keys)[i] == row);
    }
    if all_rows(keys).contains(row) {
        let i = choose|i: int| 0 <= i < all_rows(keys).len() && all_rows(keys)[i] == row;
        if i < named.len() {
            assert(named[i] == row);
        } else {
            assert(fixed_rows()[i - named.len()] == row);
        }
    }
}

proof fn lemma_named_rows(keys: Seq<(char, InputAction)>, c: char, label: Seq<char>)
    requires
        keymap::ordered(keys),
    ensures
        named_rows(keys).contains((seq![c], label)) <==> keymap::bound(keys).contains_key(c)
            && label_of(keymap::bound(keys)[c]) == Some(label),
    decreases keys.len(),
{
    let row = (seq![c], label);
    if keys.len() > 0 {
        let rest = keys.drop_last();
        lemma_named_rows(rest, c, label);
        if keymap::bound(rest).contains_key(c) {
            lemma_bound_key(rest, c);
        }
        assert(seq![c][0] == c);
        assert(seq![keys.last().0][0] == keys.last().0);
        match label_of(keys.last().1) {
            Some(l) => {
                let last = (seq![keys.last().0], l);
                assert(named_rows(keys) == named_rows(rest).push(last));
                if named_rows(rest).contains(row) {
                    let i = choose|i: int| 0 <= i < named_rows(rest).len() && named_rows(rest)[i] == row;
                    assert(named_rows(keys)[i] == row);
                }
                if row == last {
                    assert(named_rows(keys)[named_rows(rest).len() as int] == row);
                }
            },
            None => {},
        }
    }
}

/// What is bound is among the bindings.
proof fn lemma_bound_key(keys: Seq<(char, InputAction)>, c: char)
    requires
        keymap::bound(keys).contains_key(c),
    ensures
        exists|i: int| 0 <= i < keys.len() && (#[trigger] keys[i]).0 == c,
    decreases keys.len(),
{
    if keys.last().0 == c {
        assert(keys[keys.len() - 1].0 == c);
    } else {
        lemma_bound_key(keys.drop_last(), c);
        let i = choose|i: int|
            0 <= i < keys.drop_last().len() && (#[trigger] keys.drop_last()[i]).0 == c;
        assert(keys[i].0 == c);
    }
}

/// How many rows each of so many columns has to take.
pub open spec fn per_column(n: int, cols: int) -> int {
    (n + cols - 1) / cols
}

/// The most columns that are wide enough to read.
pub open spec fn most_columns(w: int) -> int {
    let fits = w / (KEY_WIDTH + MIN_LABEL_WIDTH);
    if fits < 1 {
        1
    } else if fits > MAX_COLS {
        MAX_COLS as int
    } else {
        fits
    }
}

/// The fewest columns, from `c` on, in which all rows fit; the most there are where
/// they fit in none.
pub open spec fn columns_from(n: int, max: int, h: int, c: int) -> int
    decreases max - c,
{
    if c >= max || per_column(n, c) <= h {
        if c >= max {
            max
        } else {
            c
        }
    } else {
        columns_from(n, max, h, c + 1)
    }
}

/// Fewest readable columns that fit all rows in the available area.
pub open spec fn columns(n: int, w: int, h: int) -> int {
    columns_from(n, most_columns(w), h, 1)
}

proof fn lemma_columns_from(n: int, max: int, h: int, c: int)
    requires
        1 <= c <= max,
    ensures
        c <= columns_from(n, max, h, c) <= max,
    decreases max - c,
{
    if c < max && per_column(n, c) > h {
        lemma_columns_from(n, max, h, c + 1);
    }
}

fn div_up(n: usize, d: usize) -> (r: usize)
    requires
        0 < d <= 3,
    ensures
        r == per_column(n as int, d as int),
{
    assert(per_column(n as int, 1) == n);
    assert(per_column(n as int, 2) == n as int / 2 + n as int % 2);
    assert(per_column(n as int, 3) == if n as int % 3 > 0 {
        n as int / 3 + 1
    } else {
        n as int / 3
    });
    if d == 1 {
        n
    } else if d == 2 {
        n / 2 + n % 2
    } else if n % 3 > 0 {
        n / 3 + 1
    } else {
        n / 3
    }
}

/// Fewest readable columns that fit all bindings in the available area, and how
/// wide each of them is.
pub fn layout(n: usize, w: usize, h: usize) -> (r: (usize, usize))
    ensures
        r.0 == columns(n as int, w as int, h as int),
        1 <= r.0 <= MAX_COLS,
        r.1 == w as int / columns(n as int, w as int, h as int),
{
    let fits: usize = w / (KEY_WIDTH + MIN_LABEL_WIDTH);
    let max: usize = if fits < 1 {
        1
    } else if fits > MAX_COLS {
        MAX_COLS
    } else {
        fits
    };
    let mut c: usize = 1;
    while c < max && div_up(n, c) > h
        invariant
            1 <= c <= max <= 3,
            columns_from(n as int, max as int, h as int, 1) == columns_from(
                n as int,
                max as int,
                h as int,
                c as int,
            ),
        decreases max - c,
    {
        c += 1;
    }
    (c, w / c)
}

/// The widest row, among the first `n`.
pub open spec fn widest(rows: Seq<(Seq<char>, Seq<char>)>, n: int) -> int
    decreases n,
{
    if n <= 0 {
        KEY_WIDTH as int
    } else {
        let before = widest(rows, n - 1);
        let w = KEY_WIDTH + screen::cells(rows[n - 1].1);
        if w > before {
            w
        } else {
            before
        }
    }
}

/// What a column needs to truncate nothing, with a gutter.
pub open spec fn natural_width(rows: Seq<(Seq<char>, Seq<char>)>) -> int {
    widest(rows, rows.len() as int) + 1
}

fn natural_col_width(rows: &Vec<(String, &'static str)>) -> (r: u128)
    ensures
        r == natural_width(texts(rows@)),
        r <= usize::MAX + 5,
{
    let ghost t = texts(rows@);
    let mut w: u128 = KEY_WIDTH as u128;
    let mut i: usize = 0;
    while i < rows.len()
        invariant
            i <= rows@.len(),
            t == texts(rows@),
            w == widest(t, i as int),
            w <= usize::MAX + 4,
        decreases rows@.len() - i,
    {
        let label: &str = rows[i].1;
        let this: u128 = KEY_WIDTH as u128 + display_width(label) as u128;
        assert(t[i as int].1 == label@);
        if this > w {
            w = this;
        }
        i += 1;
    }
    w + 1
}

/// A share of so many cells, in percent.
pub open spec fn share(n: u16, pct: u16) -> int {
    n * pct / 100
}

fn share_of(n: u16, pct: u16) -> (r: u16)
    requires
        pct <= 100,
    ensures
        r == share(n, pct),
        r <= n,
{
    assert(n * pct <= n * 100) by (nonlinear_arith)
        requires
            pct <= 100,
    ;
    (n as u32 * pct as u32 / 100) as u16
}

/// What stands in the frame of the overlay.
pub const TITLE: &'static str = " Help ";

/// The overlay: its frame, the cells inside, and the lines there.
#[derive(Debug, Clone, PartialEq, Eq)]
pub struct Overlay {
    pub rect: Rect,
    pub inner: Rect,
    pub lines: Vec<Line>,
}

/// The model of an `Overlay`.
#[verifier::ext_equal]
pub struct OverlayView {
    pub rect: Rect,
    pub inner: Rect,
    pub lines: Seq<LineView>,
}

impl DeepView for Overlay {
    type V = OverlayView;

    open spec fn deep_view(&self) -> OverlayView {
        OverlayView { rect: self.rect, inner: self.inner, lines: self.lines.deep_view() }
    }
}

/// The pieces of line `i`, from column `c` on.
pub open spec fn row_spans(
    rows: Seq<(Seq<char>, Seq<char>)>,
    i: int,
    c: int,
    cols: int,
    per_col: int,
    label_w: usize,
) -> Seq<SpanView>
    decreases cols - c,
{
    if c >= cols || i + c * per_col >= rows.len() {
        Seq::empty()
    } else {
        seq![
            screen::piece(
                screen::padded(rows[i + c * per_col].0, KEY_WIDTH),
                Style::heavy(Paint::Accent),
            ),
            screen::piece(screen::padded(rows[i + c * per_col].1, label_w), Style::of(Paint::Fg)),
        ] + row_spans(rows, i, c + 1, cols, per_col, label_w)
    }
}

/// The frame of an overlay of so many columns and rows, in the middle of an area.
pub open spec fn frame_of(
    rows: Seq<(Seq<char>, Seq<char>)>,
    area: Rect,
    cols: int,
    max_w: int,
    max_h: int,
) -> Rect {
    let per_col = per_column(rows.len() as int, cols);
    let needed = natural_width(rows) * cols + 2;
    let w = if needed < max_w {
        needed
    } else {
        max_w
    };
    let h = (if per_col < max_h - 2 {
        per_col
    } else {
        max_h - 2
    }) + 2;
    Rect {
        x: screen::capped(area.x + (area.width - w) / 2),
        y: screen::capped(area.y + (area.height - h) / 2),
        width: w as u16,
        height: h as u16,
    }
}

/// The lines inside a frame.
pub open spec fn lines_in(
    rows: Seq<(Seq<char>, Seq<char>)>,
    inner: Rect,
    cols: int,
) -> Seq<LineView> {
    let per_col = per_column(rows.len() as int, cols);
    let col_w = inner.width as int / cols;
    let label_w = (if col_w > KEY_WIDTH {
        col_w - KEY_WIDTH
    } else {
        0
    }) as usize;
    if inner.void() {
        Seq::empty()
    } else {
        Seq::new(
            (if per_col < inner.height {
                per_col
            } else {
                inner.height as int
            }) as nat,
            |i: int| screen::line_of(row_spans(rows, i, 0, cols, per_col, label_w)),
        )
    }
}

/// The overlay over an area, where there is room for one: sized to its content, and
/// bounded by a share of the area.
pub open spec fn overlay(rows: Seq<(Seq<char>, Seq<char>)>, area: Rect) -> Option<OverlayView> {
    let max_w = share(area.width, MAX_WIDTH_PCT);
    let max_h = share(area.height, MAX_HEIGHT_PCT);
    if max_w <= 2 || max_h <= 2 {
        None
    } else {
        let cols = columns(rows.len() as int, max_w - 2, max_h - 2);
        let rect = frame_of(rows, area, cols, max_w, max_h);
        let inner = screen::within_border(rect);
        Some(OverlayView { rect, inner, lines: lines_in(rows, inner, cols) })
    }
}

fn help_line(
    all: &Vec<(String, &'static str)>,
    i: usize,
    cols: usize,
    per_col: usize,
    label_w: usize,
) -> (r: Vec<Span>)
    requires
        cols <= 3,
    ensures
        r.deep_view() == row_spans(texts(all@), i as int, 0, cols as int, per_col as int, label_w),
{
    let ghost t = texts(all@);
    let ghost want = row_spans(t, i as int, 0, cols as int, per_col as int, label_w);
    let mut spans = no_spans();
    let mut c: usize = 0;
    let mut at: u128 = i as u128;
    assert(want =~= spans.deep_view() + want);
    assert(0 * per_col == 0);
    while c < cols && at < all.len() as u128
        invariant
            c <= cols <= 3,
            t == texts(all@),
            at == i + c * per_col,
            want == spans.deep_view() + row_spans(
                t,
                i as int,
                c as int,
                cols as int,
                per_col as int,
                label_w,
            ),
        decreases cols - c,
    {
        let ghost before = spans.deep_view();
        let ghost rest = row_spans(
            t,
            i as int,
            c + 1,
            cols as int,
            per_col as int,
            label_w,
        );
        let k: usize = at as usize;
        assert(t[k as int] == (all@[k as int].0@, all@[k as int].1@));
        push_span(
            &mut spans,
            pad_to_width(all[k].0.as_str(), KEY_WIDTH),
            Style::bold(Paint::Accent),
        );
        push_span(&mut spans, pad_to_width(all[k].1, label_w), Style::plain(Paint::Fg));
        assert(spans.deep_view() + rest =~= want);
        assert((c + 1) * per_col == c * per_col + per_col) by (nonlinear_arith);
        assert(c * per_col <= 3 * usize::MAX) by (nonlinear_arith)
            requires
                c <= 3,
                per_col <= usize::MAX,
        ;
        at = at + per_col as u128;
        c += 1;
    }
    assert(want =~= spans.deep_view());
    spans
}

/// The overlay over an area, where there is room for one.
pub fn draw(km: &KeyMap, area: Rect) -> (r: Option<Overlay>)
    ensures
        r.deep_view() == overlay(all_rows(km.listing()), area),
{
    let all = rows(km);
    let ghost t = texts(all@);
    let max_w = share_of(area.width, MAX_WIDTH_PCT);
    let max_h = share_of(area.height, MAX_HEIGHT_PCT);
    if max_w <= 2 || max_h <= 2 {
        return None;
    }
    let n: usize = all.len();
    assert(n == t.len());
    let (cols, _) = layout(n, (max_w - 2) as usize, (max_h - 2) as usize);
    let per_col: usize = div_up(n, cols);
    let natural = natural_col_width(&all);
    assert(natural * cols <= (usize::MAX + 5) * 3) by (nonlinear_arith)
        requires
            natural <= usize::MAX + 5,
            cols <= 3,
    ;
    let needed: u128 = natural * cols as u128 + 2;
    let w: u16 = if needed < max_w as u128 {
        needed as u16
    } else {
        max_w
    };
    let h: u16 = if per_col < (max_h - 2) as usize {
        per_col as u16 + 2
    } else {
        max_h
    };
    let rect = Rect {
        x: area.x.saturating_add((area.width - w) / 2),
        y: area.y.saturating_add((area.height - h) / 2),
        width: w,
        height: h,
    };
    assert(rect == frame_of(t, area, cols as int, max_w as int, max_h as int));
    let inner = inside_border(rect);
    let mut lines = no_lines();
    let ghost want = lines_in(t, inner, cols as int);
    if !inner.is_empty() {
        let col_w: usize = inner.width as usize / cols;
        let label_w: usize = col_w.saturating_sub(KEY_WIDTH);
        let count: usize = if per_col < inner.height as usize {
            per_col
        } else {
            inner.height as usize
        };
        let mut i: usize = 0;
        assert(lines.deep_view() =~= want.take(0));
        while i < count
            invariant
                i <= count == want.len(),
                1 <= cols <= 3,
                t == texts(all@),
                per_col == per_column(t.len() as int, cols as int),
                want == lines_in(t, inner, cols as int),
                !inner.void(),
                col_w == inner.width as int / cols as int,
                label_w == if col_w > KEY_WIDTH {
                    col_w - KEY_WIDTH
                } else {
                    0
                },
                lines.deep_view() == want.take(i as int),
            decreases count - i,
        {
            let spans = help_line(&all, i, cols, per_col, label_w);
            push_line(&mut lines, spans, false);
            i += 1;
            assert(want.take(i as int) =~= want.take(i - 1).push(want[i - 1]));
        }
        assert(want.take(i as int) =~= want);
    }
    assert(lines.deep_view() =~= want);
    Some(Overlay { rect, inner, lines })
}

} // verus!
