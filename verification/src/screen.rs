//! What panels are drawn with: places, colours by their role, styled texts and strokes.
use vstd::prelude::*;

use crate::text;

verus! {

/// A rectangle of cells.
#[derive(Clone, Copy, PartialEq, Eq, Structural)]
pub struct Rect {
    pub x: u16,
    pub y: u16,
    pub width: u16,
    pub height: u16,
}

impl Rect {
    /// The rectangle lies within the coordinates that there are.
    pub open spec fn fits(self) -> bool {
        self.x + self.width <= u16::MAX && self.y + self.height <= u16::MAX
    }

    /// Whether a cell lies in the rectangle.
    pub open spec fn holds(self, col: int, row: int) -> bool {
        self.x <= col < self.x + self.width && self.y <= row < self.y + self.height
    }

    /// Whether the rectangle lies within the coordinates that there are.
    pub fn is_in_range(&self) -> (r: bool)
        ensures
            r == self.fits(),
    {
        self.x <= u16::MAX - self.width && self.y <= u16::MAX - self.height
    }

    /// Whether a cell lies in the rectangle.
    pub fn contains(&self, col: u16, row: u16) -> (r: bool)
        requires
            self.fits(),
        ensures
            r == self.holds(col as int, row as int),
    {
        col >= self.x && col < self.x + self.width && row >= self.y && row < self.y + self.height
    }
}

/// One of the colours of a theme that a theme is shown by.
#[derive(Clone, Copy, PartialEq, Eq, Structural)]
pub enum Hue {
    Blue,
    Green,
    Red,
    Yellow,
    Cyan,
    Magenta,
    Orange,
}

/// What a colour is for. The active theme says which colour it is.
#[derive(Clone, Copy, PartialEq, Eq, Structural)]
pub enum Role {
    Blue,
    Cyan,
    Magenta,
    Green,
    Red,
    Yellow,
    Orange,
    TextPrimary,
    TextSecondary,
    TextMuted,
    BorderNormal,
    BorderFocused,
    BgPrimary,
    BgSecondary,
    BgPanel,
    BgInputActive,
    /// Black, whatever the theme.
    Black,
    /// Yellow, whatever the theme.
    PlainYellow,
    /// The colour with that number among the colours of bars, which begin anew after the last.
    Bar(usize),
    /// A colour of the theme with that number.
    Swatch(usize, Hue),
}

/// How a text looks. What is missing is left as it is.
#[derive(Clone, Copy, PartialEq, Eq, Structural)]
pub struct Style {
    pub fg: Option<Role>,
    pub bg: Option<Role>,
    pub bold: bool,
    pub dim: bool,
}

/// A text in one style.
pub struct Span {
    pub text: String,
    pub style: Style,
}

#[verifier::ext_equal]
pub struct SpanView {
    pub text: Seq<char>,
    pub style: Style,
}

impl DeepView for Span {
    type V = SpanView;

    open spec fn deep_view(&self) -> SpanView {
        SpanView { text: self.text@, style: self.style }
    }
}

// ── Styles ──

pub open spec fn raw() -> Style {
    Style { fg: None, bg: None, bold: false, dim: false }
}

pub open spec fn fg(role: Role) -> Style {
    Style { fg: Some(role), ..raw() }
}

pub open spec fn bold(role: Role) -> Style {
    Style { bold: true, ..fg(role) }
}

pub open spec fn fg_on(role: Role, bg: Role) -> Style {
    Style { bg: Some(bg), ..fg(role) }
}

pub open spec fn bold_on(role: Role, bg: Role) -> Style {
    Style { bold: true, ..fg_on(role, bg) }
}

pub open spec fn span(text: Seq<char>, style: Style) -> SpanView {
    SpanView { text, style }
}

pub fn plain_style() -> (r: Style)
    ensures
        r == raw(),
{
    Style { fg: None, bg: None, bold: false, dim: false }
}

pub fn fg_style(role: Role) -> (r: Style)
    ensures
        r == fg(role),
{
    Style { fg: Some(role), bg: None, bold: false, dim: false }
}

pub fn bold_style(role: Role) -> (r: Style)
    ensures
        r == bold(role),
{
    Style { fg: Some(role), bg: None, bold: true, dim: false }
}

pub fn fg_on_style(role: Role, bg: Role) -> (r: Style)
    ensures
        r == fg_on(role, bg),
{
    Style { fg: Some(role), bg: Some(bg), bold: false, dim: false }
}

pub fn bold_on_style(role: Role, bg: Role) -> (r: Style)
    ensures
        r == bold_on(role, bg),
{
    Style { fg: Some(role), bg: Some(bg), bold: true, dim: false }
}

// ── Lines ──

/// A text in a style.
pub fn span_of(text: &str, style: Style) -> (r: Span)
    ensures
        r.deep_view() == span(text@, style),
{
    Span { text: text.to_string(), style }
}

/// A line without spans.
pub fn empty_line() -> (r: Vec<Span>)
    ensures
        r.deep_view() == Seq::<SpanView>::empty(),
{
    let r: Vec<Span> = Vec::new();
    assert(r.deep_view() =~= Seq::<SpanView>::empty());
    r
}

/// Adds a text at the end of a line.
pub fn add_span(line: &mut Vec<Span>, text: &str, style: Style)
    ensures
        final(line).deep_view() == old(line).deep_view().push(span(text@, style)),
{
    line.push(span_of(text, style));
    assert(line.deep_view() =~= old(line).deep_view().push(span(text@, style)));
}

/// A line of one text.
pub fn line_of(text: &str, style: Style) -> (r: Vec<Span>)
    ensures
        r.deep_view() == seq![span(text@, style)],
{
    let mut r = empty_line();
    add_span(&mut r, text, style);
    assert(r.deep_view() =~= seq![span(text@, style)]);
    r
}

/// No lines.
pub fn empty_lines() -> (r: Vec<Vec<Span>>)
    ensures
        r.deep_view() == Seq::<Seq<SpanView>>::empty(),
{
    let r: Vec<Vec<Span>> = Vec::new();
    assert(r.deep_view() =~= Seq::<Seq<SpanView>>::empty());
    r
}

/// Adds a line below the others.
pub fn add_line(lines: &mut Vec<Vec<Span>>, line: Vec<Span>)
    ensures
        final(lines).deep_view() == old(lines).deep_view().push(line.deep_view()),
{
    lines.push(line);
    assert(lines.deep_view() =~= old(lines).deep_view().push(line.deep_view()));
}

// ── Strokes ──

/// A cell that is written. What is missing is left as it is.
#[derive(Clone, Copy, PartialEq, Eq, Structural)]
pub struct Stroke {
    pub x: u16,
    pub y: u16,
    pub ch: Option<char>,
    pub fg: Option<Role>,
    pub bg: Option<Role>,
}

/// What a picture makes of a cell: the last stroke on it counts, in each respect.
#[derive(Clone, Copy, PartialEq, Eq, Structural)]
pub struct Cell {
    pub ch: Option<char>,
    pub fg: Option<Role>,
    pub bg: Option<Role>,
}

pub open spec fn untouched() -> Cell {
    Cell { ch: None, fg: None, bg: None }
}

pub open spec fn over<A>(new: Option<A>, old: Option<A>) -> Option<A> {
    match new {
        Some(_) => new,
        None => old,
    }
}

/// What strokes, one after the other, make of the cell in a column and a row.
pub open spec fn painted(strokes: Seq<Stroke>, x: int, y: int) -> Cell
    decreases strokes.len(),
{
    if strokes.len() == 0 {
        untouched()
    } else {
        let s = strokes.last();
        let before = painted(strokes.drop_last(), x, y);
        if s.x == x && s.y == y {
            Cell { ch: over(s.ch, before.ch), fg: over(s.fg, before.fg), bg: over(s.bg, before.bg) }
        } else {
            before
        }
    }
}

// ── Laws ──

/// A stroke counts for its own cell, in what it sets, before all earlier ones; in what it does not
/// set, and for all other cells, the earlier ones count.
pub proof fn law_the_last_stroke_counts(strokes: Seq<Stroke>, s: Stroke, x: int, y: int)
    ensures
        s.x == x && s.y == y && s.ch is Some ==> painted(strokes.push(s), x, y).ch == s.ch,
        s.x == x && s.y == y && s.fg is Some ==> painted(strokes.push(s), x, y).fg == s.fg,
        s.x == x && s.y == y && s.bg is Some ==> painted(strokes.push(s), x, y).bg == s.bg,
        s.ch is None ==> painted(strokes.push(s), x, y).ch == painted(strokes, x, y).ch,
        s.fg is None ==> painted(strokes.push(s), x, y).fg == painted(strokes, x, y).fg,
        s.bg is None ==> painted(strokes.push(s), x, y).bg == painted(strokes, x, y).bg,
        s.x != x || s.y != y ==> painted(strokes.push(s), x, y) == painted(strokes, x, y),
        painted(Seq::empty(), x, y) == (Cell { ch: None, fg: None, bg: None }),
{
    assert(strokes.push(s).drop_last() == strokes);
}

/// A style has the colours that it is made of, and is bold only where it is said to be.
pub proof fn law_styles(role: Role, bg: Role)
    ensures
        raw() == (Style { fg: None, bg: None, bold: false, dim: false }),
        fg(role) == (Style { fg: Some(role), bg: None, bold: false, dim: false }),
        bold(role) == (Style { fg: Some(role), bg: None, bold: true, dim: false }),
        fg_on(role, bg) == (Style { fg: Some(role), bg: Some(bg), bold: false, dim: false }),
        bold_on(role, bg) == (Style { fg: Some(role), bg: Some(bg), bold: true, dim: false }),
{
}

/// The cells of a rectangle: as many columns from its left and rows from its top as it has.
pub proof fn law_cells_of_a_rectangle(r: Rect, col: int, row: int)
    ensures
        r.holds(col, row) <==> 0 <= col - r.x < r.width && 0 <= row - r.y < r.height,
{
}

}
