//! Rectangles of a terminal, texts measured in its cells, and styled lines: what
//! the widgets lay out and what the terminal library then paints.

use crate::copied::Copied;
use crate::text::{chars_of, text_of};
use vstd::prelude::*;

verus! {

/// A rectangle of cells.
#[derive(Debug, Clone, Copy, PartialEq, Eq, Structural)]
pub struct Rect {
    pub x: u16,
    pub y: u16,
    pub width: u16,
    pub height: u16,
}

impl Rect {
    pub fn new(x: u16, y: u16, width: u16, height: u16) -> (r: Rect)
        ensures
            r == (Rect { x, y, width, height }),
    {
        Rect { x, y, width, height }
    }

    /// Nothing fits into it.
    pub open spec fn void(self) -> bool {
        self.width == 0 || self.height == 0
    }

    pub fn is_empty(self) -> (r: bool)
        ensures
            r == self.void(),
    {
        self.width == 0 || self.height == 0
    }
}

/// How much of a split a part asks for.
#[derive(Debug, Clone, Copy, PartialEq, Eq, Structural)]
pub enum Want {
    /// Exactly so much.
    Length(u16),
    /// At least so much, and what is left over.
    Min(u16),
}

impl Want {
    /// The number it asks for.
    pub open spec fn ask(self) -> int {
        match self {
            Want::Length(n) => n as int,
            Want::Min(n) => n as int,
        }
    }
}

/// A sum of cells, at most the largest coordinate.
pub open spec fn capped(n: int) -> u16 {
    if n > u16::MAX {
        u16::MAX
    } else {
        n as u16
    }
}

/// How many cells an area has along the direction of a split. Coordinates end at the
/// largest number.
pub open spec fn reach(area: Rect, vertical: bool) -> int {
    if vertical {
        capped(area.y + area.height) - area.y
    } else {
        capped(area.x + area.width) - area.x
    }
}

/// Where an area begins along a direction.
pub open spec fn edge(area: Rect, vertical: bool) -> int {
    if vertical {
        area.y as int
    } else {
        area.x as int
    }
}

/// `size` cells of an area along a direction, after the first `from`.
pub open spec fn slice(area: Rect, vertical: bool, from: int, size: int) -> Rect {
    if vertical {
        Rect { y: (area.y + from) as u16, height: size as u16, ..area }
    } else {
        Rect { x: (area.x + from) as u16, width: size as u16, ..area }
    }
}

/// What the first `n` parts ask for together.
pub open spec fn asked(wants: Seq<Want>, n: int) -> int
    decreases n,
{
    if n <= 0 {
        0
    } else {
        asked(wants, n - 1) + wants[n - 1].ask()
    }
}

/// Every part can have what it asks for, and part `k` alone takes what is left over.
pub open spec fn fits(extent: int, wants: Seq<Want>, k: int) -> bool {
    &&& 0 <= k < wants.len()
    &&& forall|i: int| 0 <= i < wants.len() ==> ((#[trigger] wants[i]) is Min <==> i == k)
    &&& asked(wants, wants.len() as int) <= extent
}

/// Where part `i` of a split that fits is: each has what it asks for, one after the
/// other, and part `k` what is left over besides.
pub open spec fn share(area: Rect, vertical: bool, wants: Seq<Want>, k: int, i: int) -> Rect {
    let over = reach(area, vertical) - asked(wants, wants.len() as int);
    slice(
        area,
        vertical,
        asked(wants, i) + if i > k {
            over
        } else {
            0
        },
        wants[i].ask() + if i == k {
            over
        } else {
            0
        },
    )
}

/// A rectangle lies within an area along a direction, and takes all of it across.
pub open spec fn lies_in(r: Rect, area: Rect, vertical: bool) -> bool {
    exists|from: int, size: int|
        0 <= from && 0 <= size && from + size <= reach(area, vertical) && r == #[trigger] slice(
            area,
            vertical,
            from,
            size,
        )
}

/// What holds of the parts that an area is split into: there is one for each that is
/// asked for, all of them lie in the area, and where the parts fit, each is where its
/// share is. A part that shares with nothing but a `Min(0)` before it gets as much of
/// what it asks for as there is.
pub open spec fn cut(area: Rect, vertical: bool, wants: Seq<Want>, parts: Seq<Rect>) -> bool {
    let extent = reach(area, vertical);
    &&& parts.len() == wants.len()
    &&& forall|i: int| 0 <= i < parts.len() ==> lies_in(#[trigger] parts[i], area, vertical)
    &&& forall|k: int, i: int|
        #![trigger wants[k], parts[i]]
        fits(extent, wants, k) && 0 <= i < parts.len() ==> parts[i] == share(
            area,
            vertical,
            wants,
            k,
            i,
        )
    &&& (wants.len() == 2 && wants[0] == Want::Min(0) && wants[1] is Length && wants[1].ask()
        > extent) ==> parts[0] == slice(area, vertical, 0, 0) && parts[1] == slice(
        area,
        vertical,
        0,
        extent,
    )
}

/// What holds of three parts that an area is split into.
pub open spec fn cut_in_three(
    area: Rect,
    vertical: bool,
    wants: Seq<Want>,
    a: Rect,
    b: Rect,
    c: Rect,
) -> bool {
    cut(area, vertical, wants, seq![a, b, c])
}

/// `ratatui::layout::Layout::split`, with no margin and no spacing. Which of several
/// parts gives way, and by how much, where they ask for more than there is, is left
/// unsaid: the solver behind it settles that by weights and by the order in which it
/// walks a hash map.
#[verifier::external_body]
fn split(area: Rect, vertical: bool, wants: &Vec<Want>) -> (r: Vec<Rect>)
    ensures
        cut(area, vertical, wants@, r@),
{
    let direction = match vertical {
        true => ratatui::layout::Direction::Vertical,
        false => ratatui::layout::Direction::Horizontal,
    };
    let constraints = wants.iter().map(|w| match w {
        Want::Length(n) => ratatui::layout::Constraint::Length(*n),
        Want::Min(n) => ratatui::layout::Constraint::Min(*n),
    });
    let outer = ratatui::layout::Rect { x: area.x, y: area.y, width: area.width, height: area.height };
    let made = ratatui::layout::Layout::new(direction, constraints).split(outer);
    made.iter().map(|p| Rect { x: p.x, y: p.y, width: p.width, height: p.height }).collect()
}

/// Splits an area into parts.
pub fn split_area(area: Rect, vertical: bool, wants: Vec<Want>) -> (r: Vec<Rect>)
    ensures
        cut(area, vertical, wants@, r@),
{
    split(area, vertical, &wants)
}

/// Parts ask for no less the more of them there are.
proof fn lemma_asked(wants: Seq<Want>, i: int, j: int)
    requires
        0 <= i <= j,
    ensures
        0 <= asked(wants, i) <= asked(wants, j),
    decreases j,
{
    if i < j {
        lemma_asked(wants, i, j - 1);
    } else if i > 0 {
        lemma_asked(wants, i - 1, j - 1);
    }
}

/// Parts that fit lie side by side in the order in which they are asked for, and
/// cover the area.
pub proof fn parts_that_fit_cover_the_area(
    area: Rect,
    vertical: bool,
    wants: Seq<Want>,
    parts: Seq<Rect>,
    k: int,
)
    requires
        cut(area, vertical, wants, parts),
        fits(reach(area, vertical), wants, k),
    ensures
        edge(parts[0], vertical) == edge(area, vertical),
        forall|i: int|
            0 < i < parts.len() ==> edge(#[trigger] parts[i], vertical) == edge(
                parts[i - 1],
                vertical,
            ) + reach(parts[i - 1], vertical),
        edge(parts.last(), vertical) + reach(parts.last(), vertical) == edge(area, vertical)
            + reach(area, vertical),
{
    let n = wants.len() as int;
    let over = reach(area, vertical) - asked(wants, n);
    assert forall|i: int| 0 <= i < n implies edge(#[trigger] parts[i], vertical) == edge(
        area,
        vertical,
    ) + asked(wants, i) + (if i > k {
        over
    } else {
        0
    }) && reach(parts[i], vertical) == wants[i].ask() + (if i == k {
        over
    } else {
        0
    }) by {
        assert(wants[k] is Min);
        lemma_asked(wants, i, i + 1);
        lemma_asked(wants, i + 1, n);
    }
    assert forall|i: int| 0 < i < parts.len() implies edge(#[trigger] parts[i], vertical) == edge(
        parts[i - 1],
        vertical,
    ) + reach(parts[i - 1], vertical) by {
        assert(asked(wants, i) == asked(wants, i - 1) + wants[i - 1].ask());
    }
    assert(asked(wants, n) == asked(wants, n - 1) + wants[n - 1].ask());
}

/// The cells inside a border drawn along the edges of a rectangle.
pub open spec fn within_border(r: Rect) -> Rect {
    Rect {
        x: if capped(r.x + 1) < capped(r.x + r.width) {
            capped(r.x + 1)
        } else {
            capped(r.x + r.width)
        },
        y: if capped(r.y + 1) < capped(r.y + r.height) {
            capped(r.y + 1)
        } else {
            capped(r.y + r.height)
        },
        width: if r.width >= 2 {
            (r.width - 2) as u16
        } else {
            0
        },
        height: if r.height >= 2 {
            (r.height - 2) as u16
        } else {
            0
        },
    }
}

/// `ratatui::widgets::Block::inner` of a block with all borders and no padding:
/// one cell less on each side, down to none.
#[verifier::external_body]
pub(crate) fn inside_border(r: Rect) -> (inner: Rect)
    ensures
        inner == within_border(r),
{
    let outer = ratatui::layout::Rect { x: r.x, y: r.y, width: r.width, height: r.height };
    let i = ratatui::widgets::Block::bordered().inner(outer);
    Rect { x: i.x, y: i.y, width: i.width, height: i.height }
}

/// How many cells of a terminal a text takes.
pub uninterp spec fn cells(s: Seq<char>) -> usize;

/// `ratatui::text::Span::width`: the cells a text takes, by the widths Unicode gives
/// its characters.
#[verifier::external_body]
pub(crate) fn display_width(s: &str) -> (r: usize)
    ensures
        r == cells(s@),
{
    ratatui::text::Span::raw(s).width()
}

/// How many characters of a text fit, given that no more than `n` do.
pub open spec fn fitting(s: Seq<char>, w: usize, n: int) -> int
    decreases n,
{
    if n <= 0 {
        0
    } else if cells(s.take(n)) <= w {
        n
    } else {
        fitting(s, w, n - 1)
    }
}

/// The longest beginning of a text that fits into so many cells.
pub open spec fn cut_to(s: Seq<char>, w: usize) -> Seq<char> {
    s.take(fitting(s, w, s.len() as int))
}

/// A text that takes `measured` cells, filled up with blanks to `w` cells.
pub open spec fn filled(s: Seq<char>, measured: usize, w: usize) -> Seq<char> {
    s + repeated(' ', w - measured)
}

/// A text cut or filled up to so many cells.
pub open spec fn padded(s: Seq<char>, w: usize) -> Seq<char> {
    filled(cut_to(s, w), cells(cut_to(s, w)), w)
}

proof fn lemma_fitting(s: Seq<char>, w: usize, n: int)
    ensures
        0 <= fitting(s, w, n),
        n >= 0 ==> fitting(s, w, n) <= n,
    decreases n,
{
    if n > 0 && cells(s.take(n)) > w {
        lemma_fitting(s, w, n - 1);
    }
}

/// The longest beginning of a text that fits into `w` cells.
pub fn truncate_to_width(s: &str, w: usize) -> (r: String)
    ensures
        r@ == cut_to(s@, w),
{
    let v = chars_of(s);
    let mut n: usize = v.len();
    while n > 0
        invariant_except_break
            n <= v@.len(),
            v@ == s@,
            fitting(s@, w, s@.len() as int) == fitting(s@, w, n as int),
        ensures
            n <= v@.len(),
            v@ == s@,
            fitting(s@, w, s@.len() as int) == n,
        decreases n,
    {
        let part = text_of(v.as_slice(), 0, n);
        assert(part@ =~= s@.take(n as int));
        if display_width(part.as_str()) <= w {
            break;
        }
        n -= 1;
    }
    let r = text_of(v.as_slice(), 0, n);
    assert(r@ =~= cut_to(s@, w));
    r
}

/// Fills a text that takes `measured` cells up to `w` cells.
pub fn fill_to(s: String, measured: usize, w: usize) -> (r: String)
    ensures
        r@ == filled(s@, measured, w),
{
    let mut out = s;
    push_repeated(&mut out, ' ', w.saturating_sub(measured));
    assert(out@ =~= filled(s@, measured, w));
    out
}

/// A text cut or filled up to exactly `w` cells, where its characters allow it.
pub fn pad_to_width(s: &str, w: usize) -> (r: String)
    ensures
        r@ == padded(s@, w),
{
    let part = truncate_to_width(s, w);
    let measured: usize = display_width(part.as_str());
    fill_to(part, measured, w)
}

/// The colours a theme has, by what they are for.
#[derive(Debug, Clone, Copy, PartialEq, Eq, Structural)]
pub enum Paint {
    Fg,
    FgDim,
    FgBright,
    Accent,
    Error,
}

/// How a text is painted.
#[derive(Debug, Clone, Copy, PartialEq, Eq, Structural)]
pub struct Style {
    pub fg: Paint,
    /// On the background of a selection.
    pub selected: bool,
    pub bold: bool,
}

impl Style {
    /// A colour and nothing else.
    pub open spec fn of(fg: Paint) -> Style {
        Style { fg, selected: false, bold: false }
    }

    /// A colour in bold.
    pub open spec fn heavy(fg: Paint) -> Style {
        Style { fg, selected: false, bold: true }
    }

    pub fn plain(fg: Paint) -> (r: Style)
        ensures
            r == Style::of(fg),
    {
        Style { fg, selected: false, bold: false }
    }

    pub fn bold(fg: Paint) -> (r: Style)
        ensures
            r == Style::heavy(fg),
    {
        Style { fg, selected: false, bold: true }
    }
}

/// A piece of a line in one style.
#[derive(Debug, Clone, PartialEq, Eq)]
pub struct Span {
    pub text: String,
    pub style: Style,
}

/// The model of a `Span`.
#[verifier::ext_equal]
pub struct SpanView {
    pub text: Seq<char>,
    pub style: Style,
}

impl DeepView for Span {
    type V = SpanView;

    open spec fn deep_view(&self) -> SpanView {
        SpanView { text: self.text@, style: self.style }
    }
}

impl Copied for Span {
    fn copy(&self) -> (r: Span) {
        Span { text: self.text.clone(), style: self.style }
    }
}

/// A piece of a line.
pub open spec fn piece(text: Seq<char>, style: Style) -> SpanView {
    SpanView { text, style }
}

/// One line of the screen.
#[derive(Debug, Clone, PartialEq, Eq)]
pub struct Line {
    pub spans: Vec<Span>,
    /// The whole line stands on the background of a selection.
    pub selected: bool,
}

/// The model of a `Line`.
#[verifier::ext_equal]
pub struct LineView {
    pub spans: Seq<SpanView>,
    pub selected: bool,
}

impl DeepView for Line {
    type V = LineView;

    open spec fn deep_view(&self) -> LineView {
        LineView { spans: self.spans.deep_view(), selected: self.selected }
    }
}

/// A line of pieces.
pub open spec fn line_of(spans: Seq<SpanView>) -> LineView {
    LineView { spans, selected: false }
}

/// Lines to paint into a rectangle, from its top on.
#[derive(Debug, Clone, PartialEq, Eq)]
pub struct Placed {
    pub area: Rect,
    pub lines: Vec<Line>,
}

/// The model of a `Placed`.
#[verifier::ext_equal]
pub struct PlacedView {
    pub area: Rect,
    pub lines: Seq<LineView>,
}

impl DeepView for Placed {
    type V = PlacedView;

    open spec fn deep_view(&self) -> PlacedView {
        PlacedView { area: self.area, lines: self.lines.deep_view() }
    }
}

/// One line of pieces in a rectangle.
pub open spec fn one_line(area: Rect, spans: Seq<SpanView>) -> PlacedView {
    PlacedView { area, lines: seq![line_of(spans)] }
}

/// Adds a piece to a line.
pub fn push_span(line: &mut Vec<Span>, text: String, style: Style)
    ensures
        final(line).deep_view() == old(line).deep_view().push(piece(text@, style)),
{
    line.push(Span { text, style });
    assert(line.deep_view() =~= old(line).deep_view().push(piece(text@, style)));
}

/// Adds a line.
pub fn push_line(lines: &mut Vec<Line>, spans: Vec<Span>, selected: bool)
    ensures
        final(lines).deep_view() == old(lines).deep_view().push(
            (LineView { spans: spans.deep_view(), selected }),
        ),
{
    let ghost v = LineView { spans: spans.deep_view(), selected };
    lines.push(Line { spans, selected });
    assert(lines.deep_view() =~= old(lines).deep_view().push(v));
}

/// Adds lines in a rectangle.
pub fn push_placed(out: &mut Vec<Placed>, area: Rect, lines: Vec<Line>)
    ensures
        final(out).deep_view() == old(out).deep_view().push(
            (PlacedView { area, lines: lines.deep_view() }),
        ),
{
    let ghost v = PlacedView { area, lines: lines.deep_view() };
    out.push(Placed { area, lines });
    assert(out.deep_view() =~= old(out).deep_view().push(v));
}

/// Adds one line in a rectangle.
pub fn push_one(out: &mut Vec<Placed>, area: Rect, spans: Vec<Span>)
    ensures
        final(out).deep_view() == old(out).deep_view().push(one_line(area, spans.deep_view())),
{
    let ghost v = spans.deep_view();
    let mut lines: Vec<Line> = Vec::new();
    assert(lines.deep_view() =~= Seq::<LineView>::empty());
    push_line(&mut lines, spans, false);
    assert(lines.deep_view() =~= seq![line_of(v)]);
    push_placed(out, area, lines);
}

/// A line of no pieces yet.
pub fn no_spans() -> (r: Vec<Span>)
    ensures
        r.deep_view() == Seq::<SpanView>::empty(),
{
    let r: Vec<Span> = Vec::new();
    assert(r.deep_view() =~= Seq::<SpanView>::empty());
    r
}

/// No lines yet.
pub fn no_lines() -> (r: Vec<Line>)
    ensures
        r.deep_view() == Seq::<LineView>::empty(),
{
    let r: Vec<Line> = Vec::new();
    assert(r.deep_view() =~= Seq::<LineView>::empty());
    r
}

/// Nothing placed yet.
pub fn nothing_placed() -> (r: Vec<Placed>)
    ensures
        r.deep_view() == Seq::<PlacedView>::empty(),
{
    let r: Vec<Placed> = Vec::new();
    assert(r.deep_view() =~= Seq::<PlacedView>::empty());
    r
}

/// The same character so many times.
pub open spec fn repeated(c: char, n: int) -> Seq<char> {
    Seq::new(
        if n > 0 {
            n as nat
        } else {
            0
        },
        |i: int| c,
    )
}

/// Appends the same character so many times.
pub fn push_repeated(out: &mut String, c: char, n: usize)
    ensures
        final(out)@ == old(out)@ + repeated(c, n as int),
{
    let mut i: usize = 0;
    assert(out@ =~= old(out)@ + repeated(c, 0));
    while i < n
        invariant
            i <= n,
            out@ == old(out)@ + repeated(c, i as int),
        decreases n - i,
    {
        out.push(c);
        i += 1;
        assert(out@ =~= old(out)@ + repeated(c, i as int));
    }
}

/// A text at the end of a column of so many characters.
pub open spec fn right_aligned(s: Seq<char>, n: int) -> Seq<char> {
    repeated(' ', n - s.len()) + s
}

/// A text at the end of a column of so many characters.
pub fn align_right(s: &str, n: usize) -> (r: String)
    ensures
        r@ == right_aligned(s@, n as int),
{
    let len: usize = s.unicode_len();
    let mut out = String::new();
    push_repeated(&mut out, ' ', n.saturating_sub(len));
    out.append(s);
    assert(out@ =~= right_aligned(s@, n as int));
    out
}

/// A text cut to fit takes no more cells than it may, unless nothing of it fits.
pub proof fn a_cut_text_fits(s: Seq<char>, w: usize)
    ensures
        cut_to(s, w).len() == 0 || cells(cut_to(s, w)) <= w,
        cut_to(s, w).is_prefix_of(s),
{
    lemma_fitting(s, w, s.len() as int);
    lemma_fitting_fits(s, w, s.len() as int);
}

proof fn lemma_fitting_fits(s: Seq<char>, w: usize, n: int)
    requires
        n <= s.len(),
    ensures
        fitting(s, w, n) == 0 || cells(s.take(fitting(s, w, n))) <= w,
    decreases n,
{
    if n > 0 && cells(s.take(n)) > w {
        lemma_fitting_fits(s, w, n - 1);
    }
}

} // verus!
