//! Selecting text with the mouse, and the keys that the program takes before any tile.
use vstd::prelude::*;

use crate::cursor::bytes_in;
use crate::screen::Rect;
use crate::session_keys::Key;
use crate::text;
use crate::text::{cat4, decimal_of, trimmed_end};

verus! {

/// How often the tiles tick: five times a second, in nanoseconds.
pub const TICK_RATE: u64 = 200_000_000;

/// Mouse text selection state
pub struct TextSelection {
    /// Whether a drag is in progress
    pub active: bool,
    /// Start position (col, row) in terminal coordinates
    pub start: (u16, u16),
    /// Current end position (col, row) in terminal coordinates
    pub end: (u16, u16),
    /// The selected text once finalized
    pub selected_text: String,
    /// The pane rect where the selection started (constrains selection to one tile)
    pub pane_rect: Option<Rect>,
}

#[verifier::ext_equal]
pub struct SelectionView {
    pub active: bool,
    pub start: (u16, u16),
    pub end: (u16, u16),
    pub selected_text: Seq<char>,
    pub pane_rect: Option<Rect>,
}

impl View for TextSelection {
    type V = SelectionView;

    open spec fn view(&self) -> SelectionView {
        SelectionView {
            active: self.active,
            start: self.start,
            end: self.end,
            selected_text: self.selected_text@,
            pane_rect: self.pane_rect,
        }
    }
}

/// Whether a place (col, row) does not come behind another, as one reads.
pub open spec fn up_to(a: (int, int), b: (int, int)) -> bool {
    a.1 < b.1 || (a.1 == b.1 && a.0 <= b.0)
}

pub open spec fn place(p: (u16, u16)) -> (int, int) {
    (p.0 as int, p.1 as int)
}

/// A number moved into the range from `low` to `high`, where that is one.
pub open spec fn clamped(n: u16, low: int, high: int) -> int {
    let m = if n < low {
        low
    } else {
        n as int
    };
    if m > high {
        high
    } else {
        m
    }
}

/// The last number below `from + size`, or `from` where the size is nothing.
pub open spec fn last_of(from: u16, size: u16) -> int {
    if size == 0 {
        from as int
    } else {
        from + size - 1
    }
}

impl SelectionView {
    /// No selection.
    pub open spec fn none() -> SelectionView {
        SelectionView {
            active: false,
            start: (0, 0),
            end: (0, 0),
            selected_text: Seq::empty(),
            pane_rect: None,
        }
    }

    pub open spec fn has_selection(self) -> bool {
        self.active || self.selected_text.len() > 0
    }

    /// The end of the selection that comes first, as one reads.
    pub open spec fn first(self) -> (u16, u16) {
        if up_to(place(self.start), place(self.end)) {
            self.start
        } else {
            self.end
        }
    }

    /// The end of the selection that comes last, as one reads.
    pub open spec fn last(self) -> (u16, u16) {
        if up_to(place(self.start), place(self.end)) {
            self.end
        } else {
            self.start
        }
    }

    /// Whether a cell lies between the two ends, as one reads.
    pub open spec fn selects(self, col: int, row: int) -> bool {
        self.has_selection() && up_to(place(self.first()), (col, row)) && up_to(
            (col, row),
            place(self.last()),
        )
    }

    /// The button goes down: a selection begins, and stays in the pane that was clicked.
    pub open spec fn pressed(col: u16, row: u16, pane: Option<Rect>) -> SelectionView {
        SelectionView {
            active: true,
            start: (col, row),
            end: (col, row),
            selected_text: Seq::empty(),
            pane_rect: pane,
        }
    }

    /// The mouse is dragged: the end follows it, within the pane.
    pub open spec fn dragged(self, col: u16, row: u16) -> SelectionView {
        if !self.active {
            self
        } else {
            SelectionView {
                end: match self.pane_rect {
                    Some(r) => (
                        clamped(col, r.x as int, last_of(r.x, r.width)) as u16,
                        clamped(row, r.y as int, last_of(r.y, r.height)) as u16,
                    ),
                    None => (col, row),
                },
                ..self
            }
        }
    }

    /// The button goes up. A click without a drag selects nothing.
    pub open spec fn released(self, col: u16, row: u16) -> SelectionView {
        if !self.active {
            self
        } else {
            SelectionView {
                end: (col, row),
                active: false,
                selected_text: if self.start == (col, row) {
                    Seq::empty()
                } else {
                    self.selected_text
                },
                ..self
            }
        }
    }

    /// The columns of a row that are selected within an area: from the first, up to but without
    /// the second.
    pub open spec fn columns(self, row: int, area: Rect) -> (int, int) {
        let (first, last) = (self.first(), self.last());
        let from = if row == first.1 {
            first.0 as int
        } else {
            area.x as int
        };
        let to = if row == last.1 {
            last.0 as int + 1
        } else {
            area.x + area.width
        };
        (
            if from < area.x {
                area.x as int
            } else {
                from
            },
            if to > area.x + area.width {
                area.x + area.width
            } else {
                to
            },
        )
    }

    /// The text of the rows from `row` on, behind a text of the rows before.
    pub open spec fn text_from(
        self,
        grid: Seq<Seq<Seq<char>>>,
        area: Rect,
        row: int,
        before: Seq<char>,
    ) -> Seq<char>
        decreases self.last().1 + 1 - row,
    {
        if row > self.last().1 {
            before
        } else if row < area.y || row >= area.y + area.height {
            self.text_from(grid, area, row + 1, before)
        } else {
            let (from, to) = self.columns(row, area);
            let line = text::trim_end(cells_text(grid, row, from, to));
            let joint = if before.len() > 0 {
                before.push('\n')
            } else {
                before
            };
            self.text_from(grid, area, row + 1, joint + line)
        }
    }

    /// The selected text of a screen: row by row, without the blanks at the end of a row.
    pub open spec fn extracted(self, grid: Seq<Seq<Seq<char>>>, area: Rect) -> Seq<char> {
        self.text_from(grid, area, self.first().1 as int, Seq::empty())
    }
}

/// What stands in the cells of a row, as far as there are such cells.
pub open spec fn cells_text(grid: Seq<Seq<Seq<char>>>, row: int, from: int, to: int) -> Seq<char>
    decreases to - from,
{
    if from >= to {
        Seq::empty()
    } else if row < grid.len() && from < grid[row].len() {
        grid[row][from] + cells_text(grid, row, from + 1, to)
    } else {
        cells_text(grid, row, from + 1, to)
    }
}

/// The first of several panes that holds a cell.
pub open spec fn first_pane(panes: Seq<Rect>, col: int, row: int) -> Option<int>
    decreases panes.len(),
{
    if panes.len() == 0 {
        None
    } else {
        match first_pane(panes.drop_last(), col, row) {
            Some(i) => Some(i),
            None => if panes.last().holds(col, row) {
                Some(panes.len() - 1)
            } else {
                None
            },
        }
    }
}

/// The pane that was clicked.
pub fn pane_at(panes: &Vec<Rect>, col: u16, row: u16) -> (r: Option<usize>)
    requires
        forall|i: int| 0 <= i < panes@.len() ==> (#[trigger] panes@[i]).fits(),
    ensures
        match r {
            Some(i) => first_pane(panes@, col as int, row as int) == Some(i as int),
            None => first_pane(panes@, col as int, row as int) is None,
        },
{
    let mut i: usize = 0;
    assert(panes@.take(0) == Seq::<Rect>::empty());
    while i < panes.len()
        invariant
            i <= panes@.len(),
            forall|j: int| 0 <= j < panes@.len() ==> (#[trigger] panes@[j]).fits(),
            first_pane(panes@.take(i as int), col as int, row as int) is None,
        decreases panes@.len() - i,
    {
        assert(panes@.take(i + 1).drop_last() == panes@.take(i as int));
        if panes[i].contains(col, row) {
            proof {
                lemma_first_pane_stays(panes@, i + 1, col as int, row as int);
            }
            return Some(i);
        }
        i += 1;
    }
    assert(panes@.take(i as int) == panes@);
    None
}

proof fn lemma_first_pane_stays(panes: Seq<Rect>, n: int, col: int, row: int)
    requires
        0 <= n <= panes.len(),
        first_pane(panes.take(n), col, row) is Some,
    ensures
        first_pane(panes, col, row) == first_pane(panes.take(n), col, row),
    decreases panes.len() - n,
{
    if n < panes.len() {
        assert(panes.take(n + 1).drop_last() == panes.take(n));
        lemma_first_pane_stays(panes, n + 1, col, row);
    } else {
        assert(panes.take(n) == panes);
    }
}

fn clamp(n: u16, low: u16, high: u16) -> (r: u16)
    ensures
        r == clamped(n, low as int, high as int),
{
    let m: u16 = if n < low {
        low
    } else {
        n
    };
    if m > high {
        high
    } else {
        m
    }
}

fn row_text(grid: &Vec<Vec<String>>, row: usize, from: u16, to: u16) -> (r: String)
    ensures
        r@ == cells_text(grid.deep_view(), row as int, from as int, to as int),
{
    let mut r = String::new();
    let mut col: u16 = from;
    let ghost g = grid.deep_view();
    while col < to
        invariant
            from <= col,
            from <= to ==> col <= to,
            g == grid.deep_view(),
            r@ + cells_text(g, row as int, col as int, to as int) == cells_text(
                g,
                row as int,
                from as int,
                to as int,
            ),
        decreases to - col,
    {
        let ghost before = r@;
        if row < grid.len() && (col as usize) < grid[row].len() {
            let cell = grid[row][col as usize].as_str();
            assert(g[row as int][col as int] == cell@);
            r = r.concat(cell);
            assert(before + (cell@ + cells_text(g, row as int, col + 1, to as int)) == (before
                + cell@) + cells_text(g, row as int, col + 1, to as int));
        }
        col += 1;
    }
    assert(cells_text(g, row as int, col as int, to as int) == Seq::<char>::empty());
    assert(r@ + Seq::<char>::empty() == r@);
    r
}

impl TextSelection {
    /// No selection.
    pub fn none() -> (r: TextSelection)
        ensures
            r@ == SelectionView::none(),
    {
        TextSelection {
            active: false,
            start: (0, 0),
            end: (0, 0),
            selected_text: String::new(),
            pane_rect: None,
        }
    }

    pub fn is_cell_selected(&self, col: u16, row: u16) -> (r: bool)
        ensures
            r == self@.selects(col as int, row as int),
    {
        if !self.active && self.selected_text.as_str().is_empty() {
            return false;
        }
        let (start, end) = self.ordered();
        if row < start.1 || row > end.1 {
            return false;
        }
        if row == start.1 && row == end.1 {
            return col >= start.0 && col <= end.0;
        }
        if row == start.1 {
            return col >= start.0;
        }
        if row == end.1 {
            return col <= end.0;
        }
        true
    }

    pub fn ordered(&self) -> (r: ((u16, u16), (u16, u16)))
        ensures
            r.0 == self@.first(),
            r.1 == self@.last(),
    {
        if self.start.1 < self.end.1 || (self.start.1 == self.end.1 && self.start.0 <= self.end.0) {
            (self.start, self.end)
        } else {
            (self.end, self.start)
        }
    }

    pub fn has_selection(&self) -> (r: bool)
        ensures
            r == self@.has_selection(),
    {
        self.active || !self.selected_text.as_str().is_empty()
    }

    /// The left button goes down in the pane given.
    pub fn press(&mut self, col: u16, row: u16, pane: Option<Rect>)
        ensures
            final(self)@ == SelectionView::pressed(col, row, pane),
    {
        self.active = true;
        self.start = (col, row);
        self.end = (col, row);
        self.selected_text = String::new();
        self.pane_rect = pane;
    }

    /// The mouse is dragged with the left button down.
    pub fn drag(&mut self, col: u16, row: u16)
        requires
            old(self)@.pane_rect matches Some(r) ==> r.fits(),
        ensures
            final(self)@ == old(self)@.dragged(col, row),
    {
        if self.active {
            self.end = match self.pane_rect {
                Some(r) => (
                    clamp(col, r.x, r.x + r.width.saturating_sub(1)),
                    clamp(row, r.y, r.y + r.height.saturating_sub(1)),
                ),
                None => (col, row),
            };
        }
    }

    /// The left button goes up.
    pub fn release(&mut self, col: u16, row: u16)
        ensures
            final(self)@ == old(self)@.released(col, row),
    {
        if self.active {
            self.end = (col, row);
            self.active = false;
            // If start == end, it was just a click, clear selection
            if self.start.0 == self.end.0 && self.start.1 == self.end.1 {
                self.selected_text = String::new();
            }
        }
    }

    /// The columns of a row that are selected within an area: from the first, up to but without
    /// the second.
    pub fn row_columns(&self, row: u16, area: Rect) -> (r: (u16, u16))
        requires
            area.fits(),
        ensures
            (r.0 as int, r.1 as int) == self@.columns(row as int, area),
    {
        let (start, end) = self.ordered();
        let edge: u16 = area.x + area.width;
        let from: u16 = if row == start.1 {
            start.0
        } else {
            area.x
        };
        let to: u16 = if row == end.1 {
            if end.0 < edge {
                end.0 + 1
            } else {
                edge
            }
        } else {
            edge
        };
        let first: u16 = if from < area.x {
            area.x
        } else {
            from
        };
        (first, to)
    }

    /// The selected text, out of what stands in the cells of the screen.
    pub fn extract(&self, grid: &Vec<Vec<String>>, area: Rect) -> (r: String)
        requires
            area.fits(),
        ensures
            r@ == self@.extracted(grid.deep_view(), area),
    {
        let (start, end) = self.ordered();
        let ghost g = grid.deep_view();
        let mut r = String::new();
        let mut row: usize = start.1 as usize;
        while row <= end.1 as usize
            invariant
                start == self@.first(),
                end == self@.last(),
                start.1 <= row <= end.1 + 1,
                start.1 <= end.1,
                area.fits(),
                g == grid.deep_view(),
                self@.text_from(g, area, row as int, r@) == self@.extracted(g, area),
            decreases end.1 + 1 - row,
        {
            let at: u16 = row as u16;
            if at >= area.y && at < area.y + area.height {
                let (from, to) = self.row_columns(at, area);
                let cells = row_text(grid, row, from, to);
                if !r.as_str().is_empty() {
                    r.push('\n');
                }
                r = r.concat(trimmed_end(cells.as_str()));
            }
            row += 1;
        }
        r
    }

    /// Keeps the text that was selected; nothing is kept where there is none.
    pub fn keep_text(&mut self, selected: String)
        ensures
            final(self)@ == old(self)@.holding(selected@),
    {
        if !selected.as_str().is_empty() {
            self.selected_text = selected;
        }
    }
}

// ── The keys of the program ──

/// A key with the modifiers that were held.
#[derive(Clone, Copy)]
pub struct Chord {
    pub key: Key,
    pub ctrl: bool,
    pub shift: bool,
    /// Any other modifier.
    pub other: bool,
}

/// The keys that copy.
#[derive(Clone, Copy, PartialEq, Eq, Structural)]
pub enum CopyKey {
    CtrlC,
    CtrlShiftC,
}

/// Where a key goes.
#[derive(Clone, Copy, PartialEq, Eq, Structural)]
pub enum Route {
    /// It copies what is selected.
    Copy(CopyKey),
    /// It turns down a request for permission, where one waits; else it goes to the tiles.
    Dismiss,
    /// It opens the list of themes.
    Themes,
    /// It goes to the tiles.
    Tiles,
}

impl Chord {
    pub open spec fn is_char(self, c: char) -> bool {
        self.key == Key::Char(c)
    }

    /// Some terminals report Ctrl+Shift+C as the capital letter, others add the shift.
    pub open spec fn copies_with_shift(self) -> bool {
        self.ctrl && (self.is_char('C') || (self.is_char('c') && self.shift))
    }

    pub open spec fn is_ctrl_c(self) -> bool {
        self.is_char('c') && self.ctrl && !self.shift && !self.other
    }

    pub open spec fn bare(self) -> bool {
        !self.ctrl && !self.shift && !self.other
    }

    /// Where the key goes, in a tile's input mode or in that of the layout.
    pub open spec fn goes(self, in_tile: bool) -> Route {
        if self.copies_with_shift() {
            Route::Copy(CopyKey::CtrlShiftC)
        } else if self.is_ctrl_c() {
            Route::Copy(CopyKey::CtrlC)
        } else if self.key is Escape && self.bare() && in_tile {
            Route::Dismiss
        } else if self.is_char('t') && self.bare() && !in_tile {
            Route::Themes
        } else {
            Route::Tiles
        }
    }

    /// Where the key goes, in a tile's input mode or in that of the layout.
    pub fn route(&self, in_tile: bool) -> (r: Route)
        ensures
            r == self.goes(in_tile),
    {
        let bare = !self.ctrl && !self.shift && !self.other;
        match self.key {
            Key::Char(c) => if self.ctrl && (c == 'C' || (c == 'c' && self.shift)) {
                Route::Copy(CopyKey::CtrlShiftC)
            } else if c == 'c' && self.ctrl && !self.shift && !self.other {
                Route::Copy(CopyKey::CtrlC)
            } else if c == 't' && bare && !in_tile {
                Route::Themes
            } else {
                Route::Tiles
            },
            Key::Escape => if bare && in_tile {
                Route::Dismiss
            } else {
                Route::Tiles
            },
            _ => Route::Tiles,
        }
    }
}

/// What a key that copies does.
pub enum CopyAction {
    /// Put this text on the clipboard.
    Copy(String),
    /// Leave the input mode of the tile.
    LeaveTile,
    Quit,
    /// There is nothing to copy; the text is for the debug log.
    Note(String),
    Nothing,
}

#[verifier::ext_equal]
pub enum CopyView {
    Copy(Seq<char>),
    LeaveTile,
    Quit,
    Note(Seq<char>),
    Nothing,
}

impl DeepView for CopyAction {
    type V = CopyView;

    open spec fn deep_view(&self) -> CopyView {
        match self {
            CopyAction::Copy(t) => CopyView::Copy(t@),
            CopyAction::LeaveTile => CopyView::LeaveTile,
            CopyAction::Quit => CopyView::Quit,
            CopyAction::Note(t) => CopyView::Note(t@),
            CopyAction::Nothing => CopyView::Nothing,
        }
    }
}

impl SelectionView {
    /// With the text that was selected, where there is any.
    pub open spec fn holding(self, selected: Seq<char>) -> SelectionView {
        if selected.len() > 0 {
            SelectionView { selected_text: selected, ..self }
        } else {
            self
        }
    }

    /// After a key that copies: what was copied is selected no more.
    pub open spec fn copied(self) -> SelectionView {
        if self.selected_text.len() > 0 {
            SelectionView::none()
        } else {
            self
        }
    }

    /// What a key that copies does: it copies what is selected. Where nothing is, Ctrl+C leaves the
    /// tile or quits.
    pub open spec fn copies(self, which: CopyKey, in_tile: bool) -> CopyView {
        if self.selected_text.len() > 0 {
            CopyView::Copy(self.selected_text)
        } else if which is CtrlC {
            if in_tile {
                CopyView::LeaveTile
            } else {
                CopyView::Quit
            }
        } else {
            CopyView::Note("[copy] Ctrl+Shift+C pressed but no selection text"@)
        }
    }
}

impl TextSelection {
    /// A key that copies. What was selected is selected no more.
    pub fn copy_key(&mut self, which: CopyKey, in_tile: bool) -> (r: CopyAction)
        ensures
            r.deep_view() == old(self)@.copies(which, in_tile),
            final(self)@ == old(self)@.copied(),
    {
        if !self.selected_text.as_str().is_empty() {
            let text = self.selected_text.clone();
            *self = TextSelection::none();
            return CopyAction::Copy(text);
        }
        match which {
            CopyKey::CtrlC => if in_tile {
                CopyAction::LeaveTile
            } else {
                CopyAction::Quit
            },
            CopyKey::CtrlShiftC => CopyAction::Note(
                "[copy] Ctrl+Shift+C pressed but no selection text".to_string(),
            ),
        }
    }
}

/// A key that copies, while the selection is in use elsewhere: Ctrl+C quits.
pub fn copy_key_when_busy(which: CopyKey) -> (r: CopyAction)
    ensures
        r.deep_view() == (if which is CtrlC {
            CopyView::Quit
        } else {
            CopyView::Nothing
        }),
{
    match which {
        CopyKey::CtrlC => CopyAction::Quit,
        CopyKey::CtrlShiftC => CopyAction::Nothing,
    }
}

/// What the debug log says once a text was copied; its length is counted in bytes.
pub fn copied_log(copied: &str, which: CopyKey) -> (r: String)
    ensures
        r@ == "[copy] "@ + text::decimal(crate::cursor::byte_len(copied@)) + " chars via "@ + (
        if which is CtrlC {
            "Ctrl+C"@
        } else {
            "Ctrl+Shift+C"@
        }),
{
    let via = match which {
        CopyKey::CtrlC => "Ctrl+C",
        CopyKey::CtrlShiftC => "Ctrl+Shift+C",
    };
    let n: usize = bytes_in(copied);
    cat4("[copy] ", decimal_of(n as u64).as_str(), " chars via ", via)
}

// ── The clock of the program ──

/// How long to wait for an event: until the next tick, or the next frame where one comes sooner.
pub open spec fn wait_for(next_frame: Option<u64>, since_tick: u64) -> int {
    let left = if since_tick < TICK_RATE {
        TICK_RATE - since_tick
    } else {
        0
    };
    match next_frame {
        Some(frame) => if frame < left {
            frame as int
        } else {
            left
        },
        None => left,
    }
}

/// How long to wait for an event, in nanoseconds.
pub fn poll_timeout(next_frame: Option<u64>, since_tick: u64) -> (r: u64)
    ensures
        r == wait_for(next_frame, since_tick),
{
    let left: u64 = TICK_RATE.saturating_sub(since_tick);
    match next_frame {
        Some(frame) => if frame < left {
            frame
        } else {
            left
        },
        None => left,
    }
}

/// Whether the tiles have to tick.
pub open spec fn ticks(since_tick: u64) -> bool {
    since_tick >= TICK_RATE
}

/// Whether the tiles have to tick.
pub fn tick_due(since_tick: u64) -> (r: bool)
    ensures
        r == ticks(since_tick),
{
    since_tick >= TICK_RATE
}

// ── Laws ──

/// What is selected does not depend on the direction of the drag.
pub proof fn law_direction_does_not_matter(s: SelectionView, col: int, row: int)
    ensures
        s.selects(col, row) == (SelectionView { start: s.end, end: s.start, ..s }).selects(col, row),
        up_to(place(s.first()), place(s.last())),
{
}

/// The cells of an area that the text is taken from are those that count as selected.
pub proof fn law_columns_are_the_selected_cells(s: SelectionView, area: Rect, col: int, row: int)
    requires
        s.has_selection(),
        area.fits(),
        area.holds(col, row),
        s.first().1 <= row <= s.last().1,
    ensures
        s.selects(col, row) <==> s.columns(row, area).0 <= col < s.columns(row, area).1,
{
}

/// Dragging keeps the end of the selection within the pane where it began.
pub proof fn law_drag_stays_in_the_pane(s: SelectionView, r: Rect, col: u16, row: u16)
    requires
        s.active,
        s.pane_rect == Some(r),
        r.fits(),
        r.width > 0 && r.height > 0,
    ensures
        r.holds(s.dragged(col, row).end.0 as int, s.dragged(col, row).end.1 as int),
        r.holds(col as int, row as int) ==> s.dragged(col, row).end == (col, row),
{
}

/// A click without a drag leaves nothing selected.
pub proof fn law_click_selects_nothing(col: u16, row: u16, pane: Option<Rect>)
    ensures
        !SelectionView::pressed(col, row, pane).released(col, row).has_selection(),
{
}

/// Copying twice copies once: the second time nothing is selected.
pub proof fn law_copying_clears(s: SelectionView, which: CopyKey, in_tile: bool)
    ensures
        !SelectionView::none().has_selection(),
        !(SelectionView::none().copies(which, in_tile) is Copy),
{
}

/// Selected is what lies between the two ends as one reads: in a single row the columns between
/// them; over several rows the first row from its end on, the last row up to its end, and every
/// row between them.
pub proof fn law_what_is_selected(s: SelectionView, col: int, row: int)
    requires
        s.has_selection(),
        s.start.1 < s.end.1 || (s.start.1 == s.end.1 && s.start.0 <= s.end.0),
    ensures
        s.first() == s.start && s.last() == s.end,
        row < s.start.1 || row > s.end.1 ==> !s.selects(col, row),
        s.start.1 < row < s.end.1 ==> s.selects(col, row),
        s.start.1 == row && row < s.end.1 ==> (s.selects(col, row) <==> s.start.0 <= col),
        s.start.1 < row && row == s.end.1 ==> (s.selects(col, row) <==> col <= s.end.0),
        s.start.1 == row && row == s.end.1 ==> (s.selects(col, row) <==> s.start.0 <= col
            <= s.end.0),
{
}

/// The text of some cells is the text of the cells to the left and then that of the cells to the
/// right; a single cell has what stands in it.
pub proof fn law_cells_side_by_side(
    grid: Seq<Seq<Seq<char>>>,
    row: int,
    from: int,
    mid: int,
    to: int,
)
    requires
        from <= mid <= to,
    ensures
        cells_text(grid, row, from, to) == cells_text(grid, row, from, mid) + cells_text(
            grid,
            row,
            mid,
            to,
        ),
        row < grid.len() && from < grid[row].len() ==> cells_text(grid, row, from, from + 1)
            == grid[row][from],
    decreases mid - from,
{
    reveal_with_fuel(cells_text, 2);
    if row < grid.len() && from < grid[row].len() {
        assert(grid[row][from] + Seq::<char>::empty() == grid[row][from]);
    }
    if from < mid {
        law_cells_side_by_side(grid, row, from + 1, mid, to);
        if row < grid.len() && from < grid[row].len() {
            assert(grid[row][from] + (cells_text(grid, row, from + 1, mid) + cells_text(
                grid,
                row,
                mid,
                to,
            )) == grid[row][from] + cells_text(grid, row, from + 1, mid) + cells_text(
                grid,
                row,
                mid,
                to,
            ));
        }
    } else {
        assert(Seq::<char>::empty() + cells_text(grid, row, mid, to) == cells_text(
            grid,
            row,
            mid,
            to,
        ));
    }
}

/// What was gathered stays in front, and every row from there on that lies in the area adds what
/// is selected in it.
proof fn lemma_rows_are_gathered(
    s: SelectionView,
    grid: Seq<Seq<Seq<char>>>,
    area: Rect,
    at: int,
    before: Seq<char>,
    row: int,
)
    ensures
        before.is_prefix_of(s.text_from(grid, area, at, before)),
        at <= row <= s.last().1 && area.y <= row < area.y + area.height ==> text::contains(
            s.text_from(grid, area, at, before),
            text::trim_end(
                cells_text(grid, row, s.columns(row, area).0, s.columns(row, area).1),
            ),
        ),
    decreases s.last().1 + 1 - at,
{
    if at > s.last().1 {
    } else if at < area.y || at >= area.y + area.height {
        lemma_rows_are_gathered(s, grid, area, at + 1, before, row);
    } else {
        let (from, to) = s.columns(at, area);
        let line = text::trim_end(cells_text(grid, at, from, to));
        let joint = if before.len() > 0 {
            before.push('\n')
        } else {
            before
        };
        let all = s.text_from(grid, area, at, before);
        lemma_rows_are_gathered(s, grid, area, at + 1, joint + line, row);
        assert(before =~= all.take(before.len() as int)) by {
            assert((joint + line).take(before.len() as int) =~= before);
            assert((joint + line) =~= all.take((joint + line).len() as int));
            assert(all.take((joint + line).len() as int).take(before.len() as int) =~= all.take(
                before.len() as int,
            ));
        }
        if row == at {
            let rest = all.skip((joint + line).len() as int);
            assert(all =~= joint + line + rest);
            text::law_contains(all, joint, line, rest);
        }
    }
}

/// Every row that is selected is copied, as far as it lies in the area, without the white space at
/// its end.
pub proof fn law_selected_rows_are_copied(
    s: SelectionView,
    grid: Seq<Seq<Seq<char>>>,
    area: Rect,
    row: int,
)
    requires
        s.first().1 <= row <= s.last().1,
        area.y <= row < area.y + area.height,
    ensures
        text::contains(
            s.extracted(grid, area),
            text::trim_end(
                cells_text(grid, row, s.columns(row, area).0, s.columns(row, area).1),
            ),
        ),
        s.first().1 == s.last().1 ==> s.extracted(grid, area) == text::trim_end(
            cells_text(grid, row, s.columns(row, area).0, s.columns(row, area).1),
        ),
{
    lemma_rows_are_gathered(s, grid, area, s.first().1 as int, Seq::empty(), row);
    if s.first().1 == s.last().1 {
        reveal_with_fuel(SelectionView::text_from, 3);
        let line = text::trim_end(
            cells_text(grid, row, s.columns(row, area).0, s.columns(row, area).1),
        );
        assert(Seq::<char>::empty() + line == line);
    }
}

/// Two rows that are selected are copied with a line feed between them, where the upper one is not
/// blank.
pub proof fn law_rows_are_parted_by_line_feeds(
    s: SelectionView,
    grid: Seq<Seq<Seq<char>>>,
    area: Rect,
)
    requires
        s.last().1 == s.first().1 + 1,
        area.y <= s.first().1,
        s.last().1 < area.y + area.height,
    ensures
        ({
            let top = s.first().1 as int;
            let upper = text::trim_end(
                cells_text(grid, top, s.columns(top, area).0, s.columns(top, area).1),
            );
            let lower = text::trim_end(
                cells_text(grid, top + 1, s.columns(top + 1, area).0, s.columns(top + 1, area).1),
            );
            &&& upper.len() > 0 ==> s.extracted(grid, area) == upper.push('\n') + lower
            &&& upper.len() == 0 ==> s.extracted(grid, area) == lower
        }),
{
    reveal_with_fuel(SelectionView::text_from, 4);
    let top = s.first().1 as int;
    let upper = text::trim_end(
        cells_text(grid, top, s.columns(top, area).0, s.columns(top, area).1),
    );
    let lower = text::trim_end(
        cells_text(grid, top + 1, s.columns(top + 1, area).0, s.columns(top + 1, area).1),
    );
    assert(Seq::<char>::empty() + upper == upper);
    if upper.len() == 0 {
        assert(upper + lower == lower);
    }
}

/// The pane that is clicked holds the cell, and none of those before it does; where none does, no
/// pane is clicked.
pub proof fn law_the_clicked_pane(panes: Seq<Rect>, col: int, row: int, k: int)
    ensures
        first_pane(panes, col, row) matches Some(i) ==> 0 <= i < panes.len() && panes[i].holds(
            col,
            row,
        ) && (0 <= k < i ==> !panes[k].holds(col, row)),
        first_pane(panes, col, row) is None && 0 <= k < panes.len() ==> !panes[k].holds(col, row),
    decreases panes.len(),
{
    if panes.len() > 0 {
        law_the_clicked_pane(panes.drop_last(), col, row, k);
        if 0 <= k < panes.len() - 1 {
            assert(panes.drop_last()[k] == panes[k]);
        }
        if let Some(i) = first_pane(panes.drop_last(), col, row) {
            assert(panes.drop_last()[i] == panes[i]);
        }
    }
}

/// A press begins a selection where it happens, in its pane; a drag moves its end and keeps its
/// start; the release ends it and keeps what was selected, unless it was a mere click. Without a
/// press neither does anything.
pub proof fn law_press_drag_and_release(
    s: SelectionView,
    col: u16,
    row: u16,
    pane: Option<Rect>,
)
    ensures
        SelectionView::pressed(col, row, pane) == (SelectionView {
            active: true,
            start: (col, row),
            end: (col, row),
            selected_text: Seq::empty(),
            pane_rect: pane,
        }),
        s.active ==> s.dragged(col, row) == (SelectionView { end: s.dragged(col, row).end, ..s }),
        s.active && s.pane_rect is None ==> s.dragged(col, row).end == (col, row),
        s.active && s.start != (col, row) ==> s.released(col, row) == (SelectionView {
            active: false,
            end: (col, row),
            ..s
        }),
        s.active && s.start == (col, row) ==> s.released(col, row).selected_text.len() == 0
            && !s.released(col, row).active,
        !s.active ==> s.dragged(col, row) == s && s.released(col, row) == s,
{
}

/// A key that copies copies all that is selected. Without a selection Ctrl+C leaves the tile, and
/// outside of tiles it quits; the other key does neither.
pub proof fn law_what_a_copying_key_does(s: SelectionView, which: CopyKey, in_tile: bool)
    ensures
        s.selected_text.len() > 0 ==> s.copies(which, in_tile) == CopyView::Copy(s.selected_text),
        s.selected_text.len() == 0 && which is CtrlC && in_tile ==> s.copies(which, in_tile)
            is LeaveTile,
        s.selected_text.len() == 0 && which is CtrlC && !in_tile ==> s.copies(which, in_tile)
            is Quit,
        s.selected_text.len() == 0 && which is CtrlShiftC ==> s.copies(which, in_tile) is Note,
{
}

/// A key goes where its modifiers say: `c` with Ctrl copies, with Shift or as a capital letter
/// too; Escape in a tile and `t` outside of one have their use without modifiers, and all else
/// goes to the tiles.
pub proof fn law_where_a_key_goes(k: Chord, in_tile: bool)
    ensures
        k.goes(in_tile) == Route::Copy(CopyKey::CtrlC) <==> k.key == Key::Char('c') && k.ctrl
            && !k.shift && !k.other,
        k.goes(in_tile) == Route::Copy(CopyKey::CtrlShiftC) <==> k.ctrl && (k.key == Key::Char('C')
            || k.key == Key::Char('c') && k.shift),
        k.goes(in_tile) is Dismiss <==> k.key is Escape && in_tile && !k.ctrl && !k.shift
            && !k.other,
        k.goes(in_tile) is Themes <==> k.key == Key::Char('t') && !in_tile && !k.ctrl && !k.shift
            && !k.other,
{
}

/// The wait for an event is over at the next tick, of which there are five in a second, or at
/// the next frame where that is sooner.
pub proof fn law_how_long_to_wait(next_frame: Option<u64>, since_tick: u64)
    ensures
        since_tick >= 200_000_000 ==> wait_for(next_frame, since_tick) == 0,
        since_tick <= 200_000_000 && next_frame is None ==> wait_for(next_frame, since_tick)
            + since_tick == 200_000_000,
        next_frame matches Some(frame) ==> wait_for(next_frame, since_tick) <= frame,
        wait_for(next_frame, since_tick) <= wait_for(None, since_tick),
        next_frame matches Some(frame) ==> wait_for(next_frame, since_tick) == frame || wait_for(
            next_frame,
            since_tick,
        ) == wait_for(None, since_tick),
{
}

/// What was selected with the mouse is what is copied, all of it and once: after it nothing is
/// selected any more.
pub proof fn law_what_is_selected_is_copied(
    s: SelectionView,
    selected: Seq<char>,
    which: CopyKey,
    in_tile: bool,
)
    requires
        selected.len() > 0,
    ensures
        s.holding(selected).copies(which, in_tile) == CopyView::Copy(selected),
        s.holding(selected) == (SelectionView { selected_text: selected, ..s }),
        !s.holding(selected).copied().has_selection(),
        s.selected_text.len() == 0 ==> s.copied() == s,
        s.holding(Seq::empty()) == s,
{
}

/// The tiles tick when the wait for the tick is over.
pub proof fn law_ticks_are_waited_for(since_tick: u64)
    ensures
        ticks(since_tick) <==> wait_for(None, since_tick) == 0,
        ticks(since_tick) <==> since_tick >= 200_000_000,
{
}

/// Without a selection nothing is active, nothing is kept and there is no pane.
pub proof fn law_no_selection(col: int, row: int)
    ensures
        SelectionView::none() == (SelectionView {
            active: false,
            start: (0, 0),
            end: (0, 0),
            selected_text: Seq::empty(),
            pane_rect: None,
        }),
        !SelectionView::none().selects(col, row),
{
}

}
