//! What the tile of a session is drawn from.
use vstd::prelude::*;

use crate::cursor;
use crate::cursor::split;
use crate::paths;
use crate::paths::shorten_path_with;
use crate::screen;
use crate::screen::{
    add_line, add_span, bold_style, empty_line, empty_lines, fg_style, line_of, Role, Span,
    SpanView, Style,
};
use crate::seqs;
use crate::seqs::window_bounds;
use crate::session;
use crate::session::{ClaudeSession, SessionView};
use crate::text;
use crate::text::{begins, cat3, cat4, chars_of, decimal_of, has};

verus! {

// ── The calls into `unicode_width` ──

/// How many columns a text takes, as `unicode_width::UnicodeWidthStr::width` says.
pub uninterp spec fn str_width(s: Seq<char>) -> usize;

/// How many columns a character takes, as `unicode_width::UnicodeWidthChar::width` says.
pub uninterp spec fn char_width(c: char) -> Option<usize>;

/// `unicode_width::UnicodeWidthStr::width` is a fixed function of the text.
#[verifier::external_body]
fn width_of(s: &str) -> (w: usize)
    ensures
        w == str_width(s@),
{
    unicode_width::UnicodeWidthStr::width(s)
}

/// `unicode_width::UnicodeWidthChar::width` is a fixed function of the character; a control
/// character has none.
#[verifier::external_body]
fn width_of_char(c: char) -> (w: Option<usize>)
    ensures
        w == char_width(c),
{
    unicode_width::UnicodeWidthChar::width(c)
}

/// The columns of a character; none for one without a width.
pub open spec fn columns(c: char) -> usize {
    match char_width(c) {
        Some(w) => w,
        None => 0,
    }
}

/// The columns of each character of a text.
pub open spec fn all_columns(s: Seq<char>) -> Seq<usize> {
    s.map_values(|c: char| columns(c))
}

// ── Fitting ──

/// How many rows a line takes when it is wrapped.
pub open spec fn rows(width: usize, wrap: usize) -> int {
    if width == 0 {
        1
    } else {
        (width + wrap - 1) / (wrap as int)
    }
}

pub open spec fn total_rows(widths: Seq<usize>, wrap: usize) -> int
    decreases widths.len(),
{
    if widths.len() == 0 {
        0
    } else {
        total_rows(widths.drop_last(), wrap) + rows(widths.last(), wrap)
    }
}

/// How many of the lines fit into so many rows, after the first `k`; at least one is taken.
pub open spec fn fitting_from(widths: Seq<usize>, wrap: usize, room: usize, k: int) -> int
    decreases widths.len() - k,
{
    if 0 <= k < widths.len() && (k == 0 || total_rows(widths.take(k + 1), wrap) <= room) {
        fitting_from(widths, wrap, room, k + 1)
    } else {
        k
    }
}

/// How many lines fit into so many rows, taken in order; at least one is taken.
pub open spec fn fitting(widths: Seq<usize>, wrap: usize, room: usize) -> int {
    fitting_from(widths, wrap, room, 0)
}

/// How many characters make up so many columns.
pub open spec fn skipped(widths: Seq<usize>, cols: int) -> int
    decreases widths.len(),
{
    if widths.len() == 0 || cols <= 0 {
        0
    } else {
        1 + skipped(widths.drop_first(), cols - widths[0])
    }
}

proof fn lemma_rows(width: usize, wrap: usize)
    requires
        wrap > 0,
    ensures
        rows(width, wrap) >= 1,
        width > 0 ==> rows(width, wrap) == (width - 1) / (wrap as int) + 1,
        rows(width, wrap) <= width || width == 0,
{
    if width > 0 {
        assert((width + wrap - 1) / (wrap as int) == (width - 1) / (wrap as int) + 1)
            by (nonlinear_arith)
            requires
                wrap > 0,
                width > 0,
        ;
        assert((width - 1) / (wrap as int) <= width - 1) by (nonlinear_arith)
            requires
                wrap > 0,
                width > 0,
        ;
        assert((width - 1) / (wrap as int) >= 0) by (nonlinear_arith)
            requires
                wrap > 0,
                width > 0,
        ;
    }
}

/// How many lines with these widths fit into so many rows, taken in order.
pub fn fit_lines(widths: &Vec<usize>, wrap: usize, room: usize) -> (n: usize)
    requires
        wrap > 0,
    ensures
        n == fitting(widths@, wrap, room),
        n <= widths@.len(),
{
    let mut used: usize = 0;
    let mut taken: usize = 0;
    assert(widths@.take(0) == Seq::<usize>::empty());
    while taken < widths.len()
        invariant
            taken <= widths@.len(),
            wrap > 0,
            used == total_rows(widths@.take(taken as int), wrap),
            fitting_from(widths@, wrap, room, taken as int) == fitting(widths@, wrap, room),
        decreases widths@.len() - taken,
    {
        let w: usize = widths[taken];
        proof {
            lemma_rows(w, wrap);
            assert(widths@.take(taken + 1).drop_last() == widths@.take(taken as int));
        }
        let needed: usize = if w == 0 {
            1
        } else {
            (w - 1) / wrap + 1
        };
        if taken > 0 && (used > room || needed > room - used) {
            return taken;
        }
        used = used + needed;
        taken += 1;
    }
    taken
}

/// How many of the characters with these widths make up so many columns.
pub fn skip_count(widths: &Vec<usize>, cols: usize) -> (n: usize)
    ensures
        n == skipped(widths@, cols as int),
        n <= widths@.len(),
{
    let mut left: usize = cols;
    let mut n: usize = 0;
    assert(widths@.skip(0) == widths@);
    while n < widths.len() && left > 0
        invariant
            n <= widths@.len(),
            n + skipped(widths@.skip(n as int), left as int) == skipped(widths@, cols as int),
        decreases widths@.len() - n,
    {
        assert(widths@.skip(n as int).drop_first() == widths@.skip(n + 1));
        proof {
            lemma_skipped_nothing(widths@.skip(n + 1), left - widths@[n as int]);
        }
        left = left.saturating_sub(widths[n]);
        n += 1;
    }
    n
}

proof fn lemma_skipped_nothing(widths: Seq<usize>, cols: int)
    ensures
        cols <= 0 ==> skipped(widths, cols) == skipped(widths, 0),
{
}

/// Skip `cols` display columns from the start of `s`, returning the remaining substring.
pub fn skip_display_cols(s: &str, cols: usize) -> (r: &str)
    ensures
        r@ == s@.skip(skipped(all_columns(s@), cols as int)),
{
    let v = chars_of(s);
    let mut widths: Vec<usize> = Vec::new();
    let mut i: usize = 0;
    while i < v.len()
        invariant
            i <= v@.len(),
            v@ == s@,
            widths@ == all_columns(s@).take(i as int),
        decreases v@.len() - i,
    {
        let w: usize = match width_of_char(v[i]) {
            Some(w) => w,
            None => 0,
        };
        widths.push(w);
        i += 1;
    }
    assert(widths@ == all_columns(s@));
    let n: usize = skip_count(&widths, cols);
    assert(s@.skip(n as int) == s@.subrange(n as int, v@.len() as int));
    s.substring_char(n, v.len())
}

// ── The tile ──

/// What the tile of a session is drawn from.
pub struct SessionFrame {
    pub title: String,
    /// Whether the border is a thick one.
    pub thick: bool,
    pub border: Style,
    pub title_style: Style,
    pub bg: Role,
    /// The output, from top to bottom; long lines are wrapped.
    pub lines: Vec<Vec<Span>>,
    pub input_title: String,
    pub input_border: Role,
    pub input_title_role: Role,
    pub input: Vec<Span>,
}

#[verifier::ext_equal]
pub struct FrameView {
    pub title: Seq<char>,
    pub thick: bool,
    pub border: Style,
    pub title_style: Style,
    pub bg: Role,
    pub lines: Seq<Seq<SpanView>>,
    pub input_title: Seq<char>,
    pub input_border: Role,
    pub input_title_role: Role,
    pub input: Seq<SpanView>,
}

impl DeepView for SessionFrame {
    type V = FrameView;

    open spec fn deep_view(&self) -> FrameView {
        FrameView {
            title: self.title@,
            thick: self.thick,
            border: self.border,
            title_style: self.title_style,
            bg: self.bg,
            lines: self.lines.deep_view(),
            input_title: self.input_title@,
            input_border: self.input_border,
            input_title_role: self.input_title_role,
            input: self.input.deep_view(),
        }
    }
}

/// How a line of output looks: prompts and errors stand out.
pub open spec fn output_style(line: Seq<char>) -> Style {
    if text::starts_with(line, "▸"@) {
        screen::bold(Role::Cyan)
    } else if text::contains(line, "[error]"@) || text::contains(line, "[stderr]"@) {
        screen::fg(Role::Red)
    } else {
        screen::fg(Role::TextPrimary)
    }
}

pub open spec fn output_line(line: Seq<char>) -> Seq<SpanView> {
    seq![screen::span(line, output_style(line))]
}

pub open spec fn rain_role(i: int) -> Role {
    if i % 4 == 0 {
        Role::Blue
    } else if i % 4 == 1 {
        Role::Cyan
    } else if i % 4 == 2 {
        Role::Magenta
    } else {
        Role::Green
    }
}

/// The rain below the output, each row in its colour.
pub open spec fn rain_lines(rain: Seq<Seq<char>>) -> Seq<Seq<SpanView>> {
    Seq::new(rain.len(), |i: int| seq![screen::span(rain[i], screen::fg(rain_role(i)))])
}

/// How far a text is moved to the left, so that its column `col` is seen in so many columns.
pub open spec fn shift(col: usize, width: usize) -> int {
    if col < width {
        0
    } else if col - width + 1 > usize::MAX {
        usize::MAX as int
    } else {
        col - width + 1
    }
}

/// How far a text is moved to the left, so that its end is seen in so many columns.
pub open spec fn end_shift(len: usize, width: usize) -> int {
    if len > width {
        len - width
    } else {
        0
    }
}

impl SessionView {
    pub open spec fn status_word(self) -> Seq<char> {
        match self.state {
            crate::session::StateView::AwaitingPermission(_) => "⚠ PERMISSION"@,
            crate::session::StateView::Running => "⟳"@,
            crate::session::StateView::Idle => Seq::empty(),
        }
    }

    /// The title of the tile; the cost is given as a text.
    pub open spec fn tile_title(self, cost: Seq<char>) -> Seq<char> {
        " "@ + self.title + " │ prompts:"@ + (text::decimal(self.prompt_count as nat) + " │ $"@
            + cost + (" "@ + self.status_word() + " "@))
    }

    /// Whether the rain falls: while the assistant works.
    pub open spec fn rains(self) -> bool {
        self.state is Running
    }

    /// How many rows are left for the output.
    pub open spec fn output_room(self, height: u16) -> int {
        if !self.rains() {
            height as int
        } else if height >= 4 {
            height - 4
        } else {
            0
        }
    }

    /// By how many lines the output is scrolled up.
    pub open spec fn tile_scroll(self, room: int) -> int {
        let limit = ((if self.output_lines.len() >= room {
            self.output_lines.len() - room
        } else {
            0
        }) as usize) as u16;
        if self.scroll_offset <= limit {
            self.scroll_offset as int
        } else {
            limit as int
        }
    }

    /// The widths of the lines that may be shown, from the bottom up.
    pub open spec fn widths_up(self, scroll: int) -> Seq<usize> {
        let n = if self.output_lines.len() >= scroll {
            self.output_lines.len() - scroll
        } else {
            0
        };
        Seq::new(n as nat, |i: int| str_width(self.output_lines[n - 1 - i]))
    }

    /// The lines of output that the tile shows.
    pub open spec fn seen_output(self, width: u16, room: int) -> Seq<Seq<char>> {
        let scroll = self.tile_scroll(room);
        let wrap: usize = if width == 0 {
            1
        } else {
            width as usize
        };
        seqs::window(
            self.output_lines,
            scroll,
            fitting(self.widths_up(scroll), wrap, room as usize),
        )
    }

    /// The lines of the tile above its input.
    pub open spec fn tile_lines(self, width: u16, room: int) -> Seq<Seq<SpanView>> {
        let scroll = self.tile_scroll(room);
        let out = self.seen_output(width, room).map_values(|line: Seq<char>| output_line(line));
        let rain_width: nat = if width == 0 {
            0
        } else {
            (width - 1) as nat
        };
        let rained = if self.rains() {
            out + rain_lines(session::rain(self.rain_tick, rain_width, self.queued_prompt))
        } else {
            out
        };
        if scroll > 0 {
            rained.push(
                seq![
                    screen::span(
                        " ["@ + text::decimal(scroll as nat) + " more lines below] "@,
                        screen::bold(Role::Yellow),
                    ),
                ],
            )
        } else {
            rained
        }
    }

    pub open spec fn input_title(self, focused: bool, cwd: Seq<char>) -> Seq<char> {
        (if self.auto_accept_permissions {
            " ☠ "@
        } else {
            " "@
        }) + cwd + (if focused {
            " ▸ "@
        } else {
            " "@
        })
    }

    /// The input line of the tile.
    pub open spec fn input_spans(self, focused: bool, width: u16) -> Seq<SpanView> {
        let style = screen::fg(Role::TextPrimary);
        if focused {
            let before = self.before_cursor();
            let moved = shift(str_width(before), width as usize);
            seq![
                screen::span(before.skip(skipped(all_columns(before), moved)), style),
                screen::span(
                    if self.rain_tick % 5 < 3 {
                        "█"@
                    } else {
                        " "@
                    },
                    screen::fg(Role::Green),
                ),
                screen::span(self.after_cursor(), style),
            ]
        } else {
            let moved = end_shift(str_width(self.input_buf), width as usize);
            seq![
                screen::span(
                    self.input_buf.skip(skipped(all_columns(self.input_buf), moved)),
                    style,
                ),
            ]
        }
    }

    pub open spec fn tile_border(self, focused: bool, input_mode: bool) -> Role {
        if self.state is AwaitingPermission {
            Role::Yellow
        } else if focused && input_mode {
            Role::Green
        } else if focused {
            Role::BorderFocused
        } else {
            Role::BorderNormal
        }
    }

    /// What the tile is drawn from. The place for output is `width` by `height` cells large, that
    /// for the input `input_width` cells wide.
    pub open spec fn frame(
        self,
        width: u16,
        height: u16,
        input_width: u16,
        focused: bool,
        input_mode: bool,
        cost: Seq<char>,
        cwd: Seq<char>,
        home: Option<Seq<char>>,
    ) -> FrameView {
        let border = self.tile_border(focused, input_mode);
        let in_input = focused && input_mode;
        FrameView {
            title: self.tile_title(cost),
            thick: focused,
            border: if focused {
                screen::bold(border)
            } else {
                screen::fg(border)
            },
            title_style: screen::fg(
                if in_input {
                    Role::Green
                } else if focused {
                    Role::Cyan
                } else {
                    Role::TextSecondary
                },
            ),
            bg: if in_input && !(self.state is AwaitingPermission) {
                Role::BgInputActive
            } else {
                Role::BgPrimary
            },
            lines: self.tile_lines(width, self.output_room(height)),
            input_title: self.input_title(
                focused,
                paths::shortened(self.effective_cwd(cwd), home),
            ),
            input_border: if self.auto_accept_permissions {
                Role::Red
            } else if focused {
                Role::Green
            } else {
                Role::BorderNormal
            },
            input_title_role: if self.auto_accept_permissions {
                Role::Red
            } else if focused {
                Role::Green
            } else {
                Role::TextMuted
            },
            input: self.input_spans(focused, input_width),
        }
    }
}

fn style_of_output(line: &str) -> (r: Style)
    ensures
        r == output_style(line@),
{
    if begins(line, "▸") {
        bold_style(Role::Cyan)
    } else if has(line, "[error]") || has(line, "[stderr]") {
        fg_style(Role::Red)
    } else {
        fg_style(Role::TextPrimary)
    }
}

fn role_of_rain(i: usize) -> (r: Role)
    ensures
        r == rain_role(i as int),
{
    if i % 4 == 0 {
        Role::Blue
    } else if i % 4 == 1 {
        Role::Cyan
    } else if i % 4 == 2 {
        Role::Magenta
    } else {
        Role::Green
    }
}

impl ClaudeSession {
    fn scroll_in(&self, room: usize) -> (r: usize)
        ensures
            r == self@.tile_scroll(room as int),
    {
        let max_scroll: usize = self.output_lines.len().saturating_sub(room);
        let limit: u16 = max_scroll as u16;
        if self.scroll_offset <= limit {
            self.scroll_offset as usize
        } else {
            limit as usize
        }
    }

    /// The widths of the lines that may be shown, from the bottom up.
    fn line_widths(&self, scroll: usize) -> (r: Vec<usize>)
        ensures
            r@ == self@.widths_up(scroll as int),
    {
        let n: usize = self.output_lines.len().saturating_sub(scroll);
        let mut r: Vec<usize> = Vec::new();
        let mut i: usize = n;
        while i > 0
            invariant
                i <= n <= self.output_lines@.len(),
                n == self@.widths_up(scroll as int).len(),
                r@ == self@.widths_up(scroll as int).take(n - i),
            decreases i,
        {
            let line = self.output_lines[i - 1].as_str();
            assert(self@.output_lines[i - 1] == line@);
            let w: usize = width_of(line);
            r.push(w);
            assert(self@.widths_up(scroll as int)[n - i] == w);
            i -= 1;
        }
        assert(r@ == self@.widths_up(scroll as int));
        r
    }

    /// The output that the tile shows: lines from the bottom, as far as they fit once they are
    /// wrapped.
    fn show_output(&self, width: u16, room: usize, lines: &mut Vec<Vec<Span>>)
        ensures
            final(lines).deep_view() == old(lines).deep_view() + self@.seen_output(
                width,
                room as int,
            ).map_values(|line: Seq<char>| output_line(line)),
    {
        let scroll: usize = self.scroll_in(room);
        let wrap: usize = if width == 0 {
            1
        } else {
            width as usize
        };
        let widths = self.line_widths(scroll);
        let take: usize = fit_lines(&widths, wrap, room);
        let (start, end) = window_bounds(self.output_lines.len(), scroll, take);
        let ghost before = lines.deep_view();
        let ghost seen = self@.seen_output(width, room as int);
        let ghost want = seen.map_values(|line: Seq<char>| output_line(line));
        assert(seen == self@.output_lines.subrange(start as int, end as int));
        let mut i: usize = start;
        assert(before + want.take(0) == before);
        while i < end
            invariant
                start <= i <= end <= self.output_lines@.len(),
                seen == self@.output_lines.subrange(start as int, end as int),
                want == seen.map_values(|line: Seq<char>| output_line(line)),
                lines.deep_view() == before + want.take(i - start),
            decreases end - i,
        {
            let line = self.output_lines[i].as_str();
            assert(seen[i - start] == line@);
            assert(want[i - start] == output_line(line@));
            assert(before + want.take(i + 1 - start) == (before + want.take(i - start)).push(
                want[i - start],
            ));
            add_line(lines, line_of(line, style_of_output(line)));
            i += 1;
        }
        assert(want.take(end - start) == want);
    }

    fn show_rain(&self, width: usize, lines: &mut Vec<Vec<Span>>)
        requires
            session::rain_fits(self@.rain_tick, width as nat),
        ensures
            final(lines).deep_view() == old(lines).deep_view() + rain_lines(
                session::rain(self@.rain_tick, width as nat, self@.queued_prompt),
            ),
    {
        let rain = self.rain_frame(width);
        let ghost before = lines.deep_view();
        let ghost texts = text::texts(rain@);
        let ghost want = rain_lines(texts);
        let mut i: usize = 0;
        assert(before + want.take(0) == before);
        while i < rain.len()
            invariant
                i <= rain@.len(),
                texts == text::texts(rain@),
                want == rain_lines(texts),
                lines.deep_view() == before + want.take(i as int),
            decreases rain@.len() - i,
        {
            let row = rain[i].as_str();
            assert(texts[i as int] == row@);
            assert(before + want.take(i + 1) == (before + want.take(i as int)).push(
                want[i as int],
            ));
            add_line(lines, line_of(row, fg_style(role_of_rain(i))));
            i += 1;
        }
        assert(want.take(i as int) == want);
    }

    fn show_lines(&self, width: u16, room: usize) -> (lines: Vec<Vec<Span>>)
        requires
            self@.rains() ==> session::rain_fits(
                self@.rain_tick,
                if width == 0 {
                    0
                } else {
                    (width - 1) as nat
                },
            ),
        ensures
            lines.deep_view() == self@.tile_lines(width, room as int),
    {
        let mut lines = empty_lines();
        self.show_output(width, room, &mut lines);
        assert(lines.deep_view() =~= self@.seen_output(width, room as int).map_values(
            |line: Seq<char>| output_line(line),
        ));
        // Append rain animation if running
        if self.is_running() && !self.is_awaiting_permission() {
            self.show_rain(width.saturating_sub(1) as usize, &mut lines);
        }
        // Add scroll indicator if scrolled up
        let scroll: usize = self.scroll_in(room);
        if scroll > 0 {
            let number = decimal_of(scroll as u64);
            let note = cat3(" [", number.as_str(), " more lines below] ");
            add_line(&mut lines, line_of(note.as_str(), bold_style(Role::Yellow)));
        }
        lines
    }

    fn show_input(&self, focused: bool, width: u16) -> (line: Vec<Span>)
        requires
            self@.wf(),
        ensures
            line.deep_view() == self@.input_spans(focused, width),
    {
        let mut line = empty_line();
        let w: usize = width as usize;
        if focused {
            let (before, after) = split(self.input_buf.as_str(), self.cursor_pos);
            let cursor_ch = if self.rain_tick % 5 < 3 {
                "█"
            } else {
                " "
            };
            // Horizontal scroll: keep cursor visible within input width
            let cursor_col: usize = width_of(before);
            let moved: usize = if cursor_col >= w {
                (cursor_col - w).saturating_add(1)
            } else {
                0
            };
            let visible_before = skip_display_cols(before, moved);
            add_span(&mut line, visible_before, fg_style(Role::TextPrimary));
            add_span(&mut line, cursor_ch, fg_style(Role::Green));
            add_span(&mut line, after, fg_style(Role::TextPrimary));
        } else {
            // Unfocused: show the end of the text if it overflows
            let text_width: usize = width_of(self.input_buf.as_str());
            let moved: usize = text_width.saturating_sub(w);
            let visible = skip_display_cols(self.input_buf.as_str(), moved);
            add_span(&mut line, visible, fg_style(Role::TextPrimary));
        }
        assert(line.deep_view() =~= self@.input_spans(focused, width));
        line
    }

    /// The title of the tile; the cost is given as a text.
    fn show_title(&self, cost: &str) -> (r: String)
        ensures
            r@ == self@.tile_title(cost@),
    {
        proof {
            reveal_strlit("");
            assert(""@ == Seq::<char>::empty());
        }
        let status = if self.is_awaiting_permission() {
            "⚠ PERMISSION"
        } else if self.is_running() {
            "⟳"
        } else {
            ""
        };
        let tail = cat3(" ", status, " ");
        let count = decimal_of(self.prompt_count as u64);
        let middle = cat4(count.as_str(), " │ $", cost, tail.as_str());
        cat4(" ", self.title.as_str(), " │ prompts:", middle.as_str())
    }

    /// What the tile is drawn from. The place for output is `width` by `height` cells large, that
    /// for the input `input_width` cells wide; `cwd` is the directory of the program. The session
    /// keeps how many rows of output there were, for the limits of scrolling.
    pub fn render(
        &mut self,
        width: u16,
        height: u16,
        input_width: u16,
        focused: bool,
        input_mode: bool,
        cost: &str,
        cwd: &str,
        home: Option<&str>,
    ) -> (r: SessionFrame)
        requires
            old(self)@.wf(),
            old(self)@.rains() ==> session::rain_fits(
                old(self)@.rain_tick,
                if width == 0 {
                    0
                } else {
                    (width - 1) as nat
                },
            ),
        ensures
            r.deep_view() == old(self)@.frame(
                width,
                height,
                input_width,
                focused,
                input_mode,
                cost@,
                cwd@,
                text::opt_text(home),
            ),
            final(self)@ == (SessionView {
                last_output_visible: old(self)@.output_room(height) as u16,
                ..old(self)@
            }),
    {
        let awaiting = self.is_awaiting_permission();
        let title = self.show_title(cost);
        let in_input = focused && input_mode;
        let border = if awaiting {
            Role::Yellow
        } else if in_input {
            Role::Green
        } else if focused {
            Role::BorderFocused
        } else {
            Role::BorderNormal
        };
        let bg = if in_input && !awaiting {
            Role::BgInputActive
        } else {
            Role::BgPrimary
        };
        // If running (but not awaiting permission), reserve space for rain animation
        let rain_rows: u16 = if self.is_running() && !awaiting {
            4
        } else {
            0
        };
        let room: u16 = height.saturating_sub(rain_rows);
        let lines = self.show_lines(width, room as usize);
        let dir = self.effective_cwd(cwd);
        let shown = shorten_path_with(dir.as_str(), home);
        let danger = self.auto_accept_permissions;
        let lead = if danger {
            " ☠ "
        } else {
            " "
        };
        let trail = if focused {
            " ▸ "
        } else {
            " "
        };
        let input_title = cat3(lead, shown.as_str(), trail);
        let input = self.show_input(focused, input_width);
        // Store for consistent scroll clamping in the input handler
        self.last_output_visible = room;
        SessionFrame {
            title,
            thick: focused,
            border: if focused {
                bold_style(border)
            } else {
                fg_style(border)
            },
            title_style: fg_style(
                if in_input {
                    Role::Green
                } else if focused {
                    Role::Cyan
                } else {
                    Role::TextSecondary
                },
            ),
            bg,
            lines,
            input_title,
            input_border: if danger {
                Role::Red
            } else if focused {
                Role::Green
            } else {
                Role::BorderNormal
            },
            input_title_role: if danger {
                Role::Red
            } else if focused {
                Role::Green
            } else {
                Role::TextMuted
            },
            input,
        }
    }

    /// Whether a tick of the tile has changed anything to be drawn.
    pub fn tick_used(&self, drained: bool) -> (r: bool)
        ensures
            r == (drained || self@.is_running()),
    {
        drained || self.is_running()
    }
}

// ── Laws ──

/// The lines that are shown fit the room for them, unless a single line is too long; and one line
/// more would not fit.
pub proof fn law_shown_lines_fit(widths: Seq<usize>, wrap: usize, room: usize)
    requires
        wrap > 0,
    ensures
        ({
            let n = fitting(widths, wrap, room);
            &&& 0 <= n <= widths.len()
            &&& widths.len() > 0 ==> n >= 1
            &&& n > 1 ==> total_rows(widths.take(n), wrap) <= room
            &&& 0 < n < widths.len() ==> total_rows(widths.take(n + 1), wrap) > room
        }),
{
    lemma_fitting(widths, wrap, room, 0);
}

proof fn lemma_fitting(widths: Seq<usize>, wrap: usize, room: usize, k: int)
    requires
        wrap > 0,
        0 <= k <= widths.len(),
        k > 1 ==> total_rows(widths.take(k), wrap) <= room,
    ensures
        ({
            let n = fitting_from(widths, wrap, room, k);
            &&& k <= n <= widths.len()
            &&& k < widths.len() && k == 0 ==> n >= 1
            &&& n > 1 ==> total_rows(widths.take(n), wrap) <= room
            &&& 0 < n < widths.len() ==> total_rows(widths.take(n + 1), wrap) > room
        }),
    decreases widths.len() - k,
{
    if k < widths.len() && (k == 0 || total_rows(widths.take(k + 1), wrap) <= room) {
        lemma_fitting(widths, wrap, room, k + 1);
    }
}

/// What is skipped of a text is no more than needed, and it is enough wherever the text is.
pub proof fn law_skipping_columns(widths: Seq<usize>, cols: int)
    requires
        cols >= 0,
    ensures
        ({
            let n = skipped(widths, cols);
            &&& 0 <= n <= widths.len()
            &&& n < widths.len() ==> sum(widths.take(n)) >= cols
            &&& n > 0 ==> sum(widths.take(n - 1)) < cols
        }),
    decreases widths.len(),
{
    if widths.len() > 0 && cols > 0 {
        let rest = widths.drop_first();
        let left = cols - widths[0];
        if left >= 0 {
            law_skipping_columns(rest, left);
        } else {
            assert(skipped(rest, left) == 0);
        }
        let n = skipped(widths, cols);
        lemma_sum_first(widths, n);
        if n > 1 {
            lemma_sum_first(widths, n - 1);
            assert(rest.take(n - 2) == widths.take(n - 1).drop_first());
        } else {
            assert(widths.take(0) == Seq::<usize>::empty());
        }
        assert(rest.take(n - 1) == widths.take(n).drop_first());
        if left < 0 {
            assert(rest.take(0) == Seq::<usize>::empty());
        }
    } else {
        assert(widths.take(0) == Seq::<usize>::empty());
    }
}

/// The sum of some widths.
pub open spec fn sum(widths: Seq<usize>) -> int
    decreases widths.len(),
{
    if widths.len() == 0 {
        0
    } else {
        sum(widths.drop_last()) + widths.last()
    }
}

proof fn lemma_sum_first(widths: Seq<usize>, n: int)
    requires
        0 < n <= widths.len(),
    ensures
        sum(widths.take(n)) == widths[0] + sum(widths.take(n).drop_first()),
    decreases n,
{
    let t = widths.take(n);
    if n == 1 {
        assert(t.drop_last() == Seq::<usize>::empty());
        assert(t.drop_first() == Seq::<usize>::empty());
    } else {
        lemma_sum_first(widths, n - 1);
        assert(t.drop_last() == widths.take(n - 1));
        assert(t.drop_first().drop_last() == widths.take(n - 1).drop_first());
    }
}

/// Drawing a session changes nothing of it but how many rows of output it remembers, so that it
/// looks the same when it is drawn again.
pub proof fn law_drawing_twice(
    s: SessionView,
    width: u16,
    height: u16,
    input_width: u16,
    focused: bool,
    input_mode: bool,
    cost: Seq<char>,
    cwd: Seq<char>,
    home: Option<Seq<char>>,
)
    ensures
        (SessionView { last_output_visible: s.output_room(height) as u16, ..s }).frame(
            width,
            height,
            input_width,
            focused,
            input_mode,
            cost,
            cwd,
            home,
        ) == s.frame(width, height, input_width, focused, input_mode, cost, cwd, home),
{
    let t = SessionView { last_output_visible: s.output_room(height) as u16, ..s };
    let room = s.output_room(height);
    assert(t.widths_up(t.tile_scroll(room)) =~= s.widths_up(s.tile_scroll(room)));
}

/// A line takes as many rows as it needs at that width, and at least one.
pub proof fn law_rows_of_a_line(width: usize, wrap: usize)
    requires
        wrap > 0,
    ensures
        rows(width, wrap) >= 1,
        rows(width, wrap) * wrap >= width,
        width > 0 ==> (rows(width, wrap) - 1) * wrap < width,
        width <= wrap ==> rows(width, wrap) == 1,
{
    let w = width as int;
    let n = wrap as int;
    let r = (w + n - 1) / n;
    if width > 0 {
        assert(r * n <= w + n - 1 < r * n + n && r >= 1) by (nonlinear_arith)
            requires
                r == (w + n - 1) / n,
                n > 0,
                w > 0,
        ;
        assert((r - 1) * n == r * n - n) by (nonlinear_arith);
        if w <= n {
            assert(r == 1) by (nonlinear_arith)
                requires
                    r * n <= w + n - 1,
                    r >= 1,
                    0 < w <= n,
            ;
        }
    } else {
        assert(1 * n >= 0) by (nonlinear_arith)
            requires
                n > 0,
        ;
    }
}

/// Lines take the rows of each of them.
pub proof fn law_rows_add_up(a: Seq<usize>, b: Seq<usize>, width: usize, wrap: usize)
    ensures
        total_rows(a + b, wrap) == total_rows(a, wrap) + total_rows(b, wrap),
        total_rows(seq![width], wrap) == rows(width, wrap),
    decreases b.len(),
{
    if b.len() == 0 {
        assert(a + b == a);
    } else {
        law_rows_add_up(a, b.drop_last(), width, wrap);
        assert((a + b).drop_last() == a + b.drop_last());
    }
    assert(seq![width].drop_last() == Seq::<usize>::empty());
    assert(total_rows(Seq::<usize>::empty(), wrap) == 0);
}

/// The output that is seen ends as many lines before its end as the tile is scrolled, and goes up
/// from there without a gap; where there is any output, some of it is seen.
pub proof fn law_the_end_of_the_output_is_seen(s: SessionView, width: u16, room: int, i: int)
    requires
        0 <= room,
        s.output_lines.len() <= u16::MAX,
    ensures
        ({
            let seen = s.seen_output(width, room);
            let all = s.output_lines;
            let scroll = s.tile_scroll(room);
            &&& scroll <= s.scroll_offset
            &&& s.scroll_offset + room <= all.len() ==> scroll == s.scroll_offset
            &&& s.scroll_offset == 0 ==> scroll == 0
            &&& 0 <= i < seen.len() ==> seen[seen.len() - 1 - i] == all[all.len() - scroll - 1 - i]
            &&& all.len() > scroll ==> seen.len() >= 1
            &&& seen.len() <= all.len()
        }),
{
    let scroll = s.tile_scroll(room);
    let wrap: usize = if width == 0 {
        1
    } else {
        width as usize
    };
    let widths = s.widths_up(scroll);
    let n = fitting(widths, wrap, room as usize);
    law_shown_lines_fit(widths, wrap, room as usize);
    seqs::law_window(s.output_lines, scroll, n, i);
}

/// A tile shows the output that is seen, line by line and whole; below it the rain while the
/// assistant runs, and where it is scrolled how many lines are left below.
pub proof fn law_what_a_tile_shows(s: SessionView, width: u16, room: int, i: int)
    ensures
        ({
            let lines = s.tile_lines(width, room);
            let seen = s.seen_output(width, room);
            let n = seen.len() as int;
            let scroll = s.tile_scroll(room);
            let rain_width: nat = if width == 0 {
                0
            } else {
                (width - 1) as nat
            };
            let rain = session::rain(s.rain_tick, rain_width, s.queued_prompt);
            let rained: int = if s.state is Running {
                rain.len() as int
            } else {
                0
            };
            &&& 0 <= i < n ==> lines[i].len() == 1 && lines[i][0].text == seen[i]
            &&& s.state is Running && 0 <= i < rain.len() ==> lines[n + i].len() == 1
                && lines[n + i][0].text == rain[i]
            &&& scroll == 0 ==> lines.len() == n + rained
            &&& scroll > 0 ==> lines.len() == n + rained + 1 && lines.last().len() == 1
                && lines.last()[0].text == " ["@ + text::decimal(scroll as nat)
                + " more lines below] "@
        }),
{
}

/// The rain takes four rows of the room for the output while the assistant runs.
pub proof fn law_room_for_the_output(s: SessionView, height: u16)
    ensures
        !(s.state is Running) ==> s.output_room(height) == height,
        s.state is Running && height >= 4 ==> s.output_room(height) + 4 == height,
        s.state is Running && height < 4 ==> s.output_room(height) == 0,
{
}

/// A prompt stands out in the output, and so does an error.
pub proof fn law_colours_of_the_output(line: Seq<char>)
    ensures
        text::starts_with(line, "▸"@) ==> output_style(line) == screen::bold(Role::Cyan),
        !text::starts_with(line, "▸"@) && (text::contains(line, "[error]"@) || text::contains(
            line,
            "[stderr]"@,
        )) ==> output_style(line) == screen::fg(Role::Red),
        !text::starts_with(line, "▸"@) && !text::contains(line, "[error]"@) && !text::contains(
            line,
            "[stderr]"@,
        ) ==> output_style(line) == screen::fg(Role::TextPrimary),
{
}

/// The title of a tile tells its name, the number of its prompts, its cost and its state.
pub proof fn law_the_title_of_a_tile(s: SessionView, cost: Seq<char>)
    ensures
        ({
            let state = if s.state is Idle {
                Seq::empty()
            } else if s.state is Running {
                "⟳"@
            } else {
                "⚠ PERMISSION"@
            };
            s.tile_title(cost) == " "@ + s.title + " │ prompts:"@ + text::decimal(
                s.prompt_count as nat,
            ) + " │ $"@ + cost + " "@ + state + " "@
        }),
{
    let state = if s.state is Idle {
        Seq::empty()
    } else if s.state is Running {
        "⟳"@
    } else {
        "⚠ PERMISSION"@
    };
    assert(s.tile_title(cost) =~= " "@ + s.title + " │ prompts:"@ + text::decimal(
        s.prompt_count as nat,
    ) + " │ $"@ + cost + " "@ + state + " "@);
}

/// The input is shown whole where there is room, with the cursor where it stands; else its start
/// is left out, and no more than that.
pub proof fn law_the_input_is_shown(s: SessionView, width: u16)
    ensures
        ({
            let focused = s.input_spans(true, width);
            let other = s.input_spans(false, width);
            &&& focused.len() == 3
            &&& focused[0].text.is_suffix_of(s.before_cursor())
            &&& str_width(s.before_cursor()) < width ==> focused[0].text == s.before_cursor()
            &&& focused[2].text == s.after_cursor()
            &&& focused[1].text == "█"@ || focused[1].text == " "@
            &&& other.len() == 1
            &&& other[0].text.is_suffix_of(s.input_buf)
            &&& str_width(s.input_buf) <= width ==> other[0].text == s.input_buf
        }),
{
    let before = s.before_cursor();
    let moved = shift(str_width(before), width as usize);
    let over = end_shift(str_width(s.input_buf), width as usize);
    law_skipping_columns(all_columns(before), moved);
    law_skipping_columns(all_columns(s.input_buf), over);
    let n = skipped(all_columns(before), moved);
    let m = skipped(all_columns(s.input_buf), over);
    assert(before.skip(n) =~= before.skip(before.len() - before.skip(n).len()));
    assert(s.input_buf.skip(m) =~= s.input_buf.skip(
        s.input_buf.len() - s.input_buf.skip(m).len(),
    ));
    if moved == 0 {
        assert(before.skip(0) =~= before);
    }
    if over == 0 {
        assert(s.input_buf.skip(0) =~= s.input_buf);
    }
}

/// The frame of a tile tells where its session works, warns where nothing is asked any more, and
/// shows by its border whether permission is asked for and where the keys go.
pub proof fn law_the_frame_of_a_tile(
    s: SessionView,
    width: u16,
    height: u16,
    input_width: u16,
    focused: bool,
    input_mode: bool,
    cost: Seq<char>,
    cwd: Seq<char>,
    home: Option<Seq<char>>,
)
    ensures
        ({
            let f = s.frame(width, height, input_width, focused, input_mode, cost, cwd, home);
            let dir = match s.workdir {
                Some(dir) => dir,
                None => cwd,
            };
            &&& f.title == s.tile_title(cost)
            &&& f.lines == s.tile_lines(width, s.output_room(height))
            &&& f.input == s.input_spans(focused, input_width)
            &&& text::contains(f.input_title, paths::shortened(dir, home))
            &&& s.auto_accept_permissions ==> text::starts_with(f.input_title, " ☠ "@)
                && f.input_border == Role::Red
            &&& !s.auto_accept_permissions && focused ==> f.input_border == Role::Green
            &&& s.state is AwaitingPermission ==> f.border.fg == Some(Role::Yellow)
            &&& !(s.state is AwaitingPermission) && focused && input_mode ==> f.border.fg == Some(
                Role::Green,
            )
            &&& !(s.state is AwaitingPermission) && focused && !input_mode ==> f.border.fg == Some(
                Role::BorderFocused,
            )
            &&& !(s.state is AwaitingPermission) && !focused ==> f.border.fg == Some(
                Role::BorderNormal,
            )
            &&& f.thick == focused
            &&& focused && input_mode ==> f.title_style == screen::fg(Role::Green)
            &&& focused && !input_mode ==> f.title_style == screen::fg(Role::Cyan)
            &&& !focused ==> f.title_style == screen::fg(Role::TextSecondary)
            &&& f.bg == Role::BgInputActive <==> focused && input_mode && !(s.state
                is AwaitingPermission)
        }),
{
    let dir = paths::shortened(s.effective_cwd(cwd), home);
    let head = if s.auto_accept_permissions {
        " ☠ "@
    } else {
        " "@
    };
    let tail = if focused {
        " ▸ "@
    } else {
        " "@
    };
    text::law_contains(head + dir + tail, head, dir, tail);
    assert((head + dir + tail).take(head.len() as int) =~= head);
}

}
