//! The usage of tokens: what is asked for it, and what the dashboard draws of it.
use vstd::prelude::*;

use crate::cursor;
use crate::cursor::{bytes_in, split};
use crate::json;
use crate::json::{parse, Json, JsonView};
use crate::screen;
use crate::screen::{
    add_line, add_span, bold_style, empty_line, empty_lines, fg_style, line_of, Cell, Rect, Role,
    Span, SpanView, Stroke,
};
use crate::seqs;
use crate::seqs::rank;
use crate::text;
use crate::text::{
    behind_last, cat2, cat3, chars_of, decimal_of, padded_end, padded_start, truncate_chars,
};

verus! {

/// How many days the dashboard shows.
pub const DAYS_SHOWN: usize = 14;

/// What happened on a day.
pub struct DailyActivity {
    pub date: String,
    pub message_count: u64,
    pub session_count: u64,
    pub tool_call_count: u64,
}

/// The tokens that a model has taken.
pub struct ModelUsage {
    pub input_tokens: u64,
    pub output_tokens: u64,
    pub cache_read_input_tokens: u64,
    pub cache_creation_input_tokens: u64,
}

/// The statistics that are kept of all sessions.
pub struct StatsCache {
    pub daily_activity: Vec<DailyActivity>,
    /// The models by their names, in no particular order
    pub model_usage: Vec<(String, ModelUsage)>,
    pub last_computed_date: String,
    pub total_sessions: u64,
    pub total_messages: u64,
}

#[verifier::ext_equal]
pub struct DayView {
    pub date: Seq<char>,
    pub message_count: u64,
    pub session_count: u64,
    pub tool_call_count: u64,
}

impl DeepView for DailyActivity {
    type V = DayView;

    open spec fn deep_view(&self) -> DayView {
        DayView {
            date: self.date@,
            message_count: self.message_count,
            session_count: self.session_count,
            tool_call_count: self.tool_call_count,
        }
    }
}

// ── Asking for the usage ──

/// The token in the credentials; none is an empty one.
pub open spec fn value_token(val: JsonView) -> Seq<char> {
    match val.get_in("claudeAiOauth"@, "accessToken"@) {
        Some(JsonView::Text(token)) => token,
        _ => Seq::empty(),
    }
}

/// The token in a text of credentials; none is an empty one.
pub open spec fn text_token(data: Seq<char>) -> Seq<char> {
    match json::parsed_json(data) {
        Ok(val) => value_token(val),
        Err(_) => Seq::empty(),
    }
}

/// The arguments of the request for the usage.
pub open spec fn usage_args(token: Seq<char>) -> Seq<Seq<char>> {
    seq![
        "-s"@,
        "--max-time"@,
        "5"@,
        "-H"@,
        "Authorization: Bearer "@ + token,
        "-H"@,
        "anthropic-beta: oauth-2025-04-20"@,
        "https://api.anthropic.com/api/oauth/usage"@,
    ]
}

/// The token in the credentials; none is an empty one.
pub fn token_of_value(val: &Json) -> (r: String)
    ensures
        r@ == value_token(val@),
{
    match val.get_in("claudeAiOauth", "accessToken") {
        Some(Json::Text(token)) => token.clone(),
        _ => String::new(),
    }
}

/// The token in a text of credentials; none is an empty one.
pub fn access_token(data: &str) -> (r: String)
    ensures
        r@ == text_token(data@),
{
    match parse(data) {
        Ok(val) => token_of_value(&val),
        Err(_) => String::new(),
    }
}

/// The arguments of the request for the usage; without a token nothing is asked.
pub fn usage_request(token: &str) -> (r: Option<Vec<String>>)
    ensures
        match r {
            Some(args) => token@.len() > 0 && text::texts(args@) == usage_args(token@),
            None => token@.len() == 0,
        },
{
    if token.is_empty() {
        return None;
    }
    let mut args: Vec<String> = Vec::new();
    args.push("-s".to_string());
    args.push("--max-time".to_string());
    args.push("5".to_string());
    args.push("-H".to_string());
    args.push(cat2("Authorization: Bearer ", token));
    args.push("-H".to_string());
    args.push("anthropic-beta: oauth-2025-04-20".to_string());
    args.push("https://api.anthropic.com/api/oauth/usage".to_string());
    assert(text::texts(args@) =~= usage_args(token@));
    Some(args)
}

// ── The models ──

/// A model as the dashboard shows it.
pub struct ModelRow {
    pub name: String,
    pub input: u64,
    pub output: u64,
    pub total: u64,
}

#[verifier::ext_equal]
pub struct ModelRowView {
    pub name: Seq<char>,
    pub input: u64,
    pub output: u64,
    pub total: int,
}

impl DeepView for ModelRow {
    type V = ModelRowView;

    open spec fn deep_view(&self) -> ModelRowView {
        ModelRowView {
            name: self.name@,
            input: self.input,
            output: self.output,
            total: self.total as int,
        }
    }
}

pub open spec fn model_total(m: (String, ModelUsage)) -> int {
    m.1.input_tokens + m.1.output_tokens
}

pub open spec fn model_totals(models: Seq<(String, ModelUsage)>) -> Seq<int> {
    models.map_values(|m: (String, ModelUsage)| model_total(m))
}

/// A model without what stands before the last slash of its name.
pub open spec fn model_row(m: (String, ModelUsage)) -> ModelRowView {
    ModelRowView {
        name: text::first_chars(text::after_last(m.0@, '/'), 25),
        input: m.1.input_tokens,
        output: m.1.output_tokens,
        total: model_total(m),
    }
}

/// The four models with the most tokens, the first of which has the most.
pub open spec fn model_rows(models: Seq<(String, ModelUsage)>) -> Seq<ModelRowView> {
    let order = seqs::ranked(model_totals(models));
    let n: int = if order.len() < 4 {
        order.len() as int
    } else {
        4
    };
    order.take(n).map_values(|i: int| model_row(models[i]))
}

/// The four models with the most tokens, the first of which has the most.
pub fn top_models(models: &Vec<(String, ModelUsage)>) -> (r: Vec<ModelRow>)
    requires
        forall|i: int| 0 <= i < models@.len() ==> model_total(#[trigger] models@[i]) <= u64::MAX,
    ensures
        r.deep_view() == model_rows(models@),
{
    let mut totals: Vec<u64> = Vec::new();
    let mut i: usize = 0;
    while i < models.len()
        invariant
            i <= models@.len(),
            i == totals@.len(),
            forall|k: int| 0 <= k < models@.len() ==> model_total(#[trigger] models@[k])
                <= u64::MAX,
            forall|k: int| 0 <= k < i ==> totals@[k] == model_total(#[trigger] models@[k]),
        decreases models@.len() - i,
    {
        assert(model_total(models@[i as int]) <= u64::MAX);
        totals.push(models[i].1.input_tokens + models[i].1.output_tokens);
        i += 1;
    }
    assert(seqs::values(totals@) =~= model_totals(models@));
    let order = rank(&totals);
    let ghost want = model_rows(models@);
    let ghost ranks = seqs::ranked(model_totals(models@));
    let n: usize = if order.len() < 4 {
        order.len()
    } else {
        4
    };
    let mut r: Vec<ModelRow> = Vec::new();
    let mut k: usize = 0;
    assert(r.deep_view() =~= want.take(0));
    while k < n
        invariant
            k <= n <= order@.len(),
            n <= 4,
            totals@.len() == models@.len(),
            forall|j: int| 0 <= j < models@.len() ==> totals@[j] == model_total(
                #[trigger] models@[j],
            ),
            ranks == seqs::ints(order@),
            forall|j: int| 0 <= j < ranks.len() ==> 0 <= #[trigger] ranks[j] < models@.len(),
            want == ranks.take(n as int).map_values(|i: int| model_row(models@[i])),
            r.deep_view() == want.take(k as int),
        decreases n - k,
    {
        let at: usize = order[k];
        assert(ranks[k as int] == at as int);
        let m = &models[at];
        let short = truncate_chars(behind_last(m.0.as_str(), '/'), 25).to_string();
        assert(totals@[at as int] == model_total(models@[at as int]));
        let row = ModelRow {
            name: short,
            input: m.1.input_tokens,
            output: m.1.output_tokens,
            total: totals[at],
        };
        assert(want[k as int] == row.deep_view());
        let ghost before = r.deep_view();
        r.push(row);
        assert(r.deep_view() =~= before.push(row.deep_view()));
        assert(want.take(k + 1) =~= want.take(k as int).push(want[k as int]));
        k += 1;
    }
    assert(want.take(k as int) =~= want);
    r
}

/// The numbers of a model, each given as a text.
pub struct Figures {
    pub input: String,
    pub output: String,
    pub total: String,
}

#[verifier::ext_equal]
pub struct FiguresView {
    pub input: Seq<char>,
    pub output: Seq<char>,
    pub total: Seq<char>,
}

impl DeepView for Figures {
    type V = FiguresView;

    open spec fn deep_view(&self) -> FiguresView {
        FiguresView { input: self.input@, output: self.output@, total: self.total@ }
    }
}

/// The line of a model.
pub open spec fn model_line(i: int, row: ModelRowView, f: FiguresView) -> Seq<SpanView> {
    seq![
        screen::span(
            "   ● "@ + text::pad_end(row.name, 25),
            screen::fg(Role::Bar(i as usize)),
        ),
        screen::span(
            " in:"@ + text::pad_start(f.input, 8) + "  out:"@ + (text::pad_start(f.output, 8)
                + "  total:"@ + text::pad_start(f.total, 9)),
            screen::fg(Role::TextSecondary),
        ),
    ]
}

/// The lines of the breakdown by model.
pub open spec fn model_lines(rows: Seq<ModelRowView>, figures: Seq<FiguresView>) -> Seq<
    Seq<SpanView>,
> {
    let head = seq![seq![screen::span(" Model Token Breakdown"@, screen::bold(Role::TextPrimary))]];
    if rows.len() == 0 {
        head.push(seq![screen::span("   No model usage data"@, screen::fg(Role::TextMuted))])
    } else {
        head + Seq::new(rows.len(), |i: int| model_line(i, rows[i], figures[i]))
    }
}

/// The lines of the breakdown by model, given the numbers of each model as texts.
pub fn render_models(rows: &Vec<ModelRow>, figures: &Vec<Figures>) -> (lines: Vec<Vec<Span>>)
    requires
        rows@.len() == figures@.len(),
    ensures
        lines.deep_view() == model_lines(rows.deep_view(), figures.deep_view()),
{
    let ghost rv = rows.deep_view();
    let ghost fv = figures.deep_view();
    let mut lines = empty_lines();
    add_line(&mut lines, line_of(" Model Token Breakdown", bold_style(Role::TextPrimary)));
    if rows.len() == 0 {
        add_line(&mut lines, line_of("   No model usage data", fg_style(Role::TextMuted)));
        assert(lines.deep_view() =~= model_lines(rv, fv));
        return lines;
    }
    let ghost head = lines.deep_view();
    let ghost body = Seq::new(rv.len(), |i: int| model_line(i, rv[i], fv[i]));
    let mut i: usize = 0;
    assert(head + body.take(0) == head);
    while i < rows.len()
        invariant
            i <= rows@.len() == figures@.len(),
            rv == rows.deep_view(),
            fv == figures.deep_view(),
            body == Seq::new(rv.len(), |i: int| model_line(i, rv[i], fv[i])),
            lines.deep_view() == head + body.take(i as int),
        decreases rows@.len() - i,
    {
        assert(rv[i as int] == rows@[i as int].deep_view());
        assert(fv[i as int] == figures@[i as int].deep_view());
        let name = cat2("   ● ", padded_end(rows[i].name.as_str(), 25).as_str());
        let f = &figures[i];
        let tail = cat3(
            padded_start(f.output.as_str(), 8).as_str(),
            "  total:",
            padded_start(f.total.as_str(), 9).as_str(),
        );
        let input = padded_start(f.input.as_str(), 8);
        let numbers = text::cat4(" in:", input.as_str(), "  out:", tail.as_str());
        let mut line = empty_line();
        add_span(&mut line, name.as_str(), fg_style(Role::Bar(i)));
        add_span(&mut line, numbers.as_str(), fg_style(Role::TextSecondary));
        assert(line.deep_view() =~= model_line(i as int, rv[i as int], fv[i as int]));
        assert(head + body.take(i + 1) == (head + body.take(i as int)).push(body[i as int]));
        add_line(&mut lines, line);
        i += 1;
    }
    assert(body.take(i as int) == body);
    assert(lines.deep_view() =~= model_lines(rv, fv));
    lines
}

/// How a number of tokens is written.
pub enum TokenCount {
    /// In full.
    Plain(String),
    /// In thousands, with one digit behind the point.
    Thousands(u64),
    /// In millions, with one digit behind the point.
    Millions(u64),
}

/// How a number of tokens is written.
pub fn fmt_tok(n: u64) -> (r: TokenCount)
    ensures
        match r {
            TokenCount::Millions(m) => n >= 1_000_000 && m == n,
            TokenCount::Thousands(m) => 1_000 <= n < 1_000_000 && m == n,
            TokenCount::Plain(t) => n < 1_000 && t@ == text::decimal(n as nat),
        },
{
    if n >= 1_000_000 {
        TokenCount::Millions(n)
    } else if n >= 1_000 {
        TokenCount::Thousands(n)
    } else {
        TokenCount::Plain(decimal_of(n))
    }
}

// ── The days ──

/// The greatest number of messages of a day, and one where there were none.
pub open spec fn most_messages(days: Seq<DayView>) -> int
    decreases days.len(),
{
    if days.len() == 0 {
        1
    } else {
        let before = most_messages(days.drop_last());
        if days.last().message_count > before {
            days.last().message_count as int
        } else {
            before
        }
    }
}

/// How high the bars are.
pub open spec fn bar_height(area: Rect) -> int {
    if area.height >= 2 {
        area.height - 2
    } else {
        0
    }
}

/// How many cells of a bar are filled.
pub open spec fn filled(day: DayView, area: Rect, most: int) -> int {
    (day.message_count * bar_height(area)) / most
}

/// What is written below a bar: month and day, or the date as it is where it is short.
pub open spec fn day_label(date: Seq<char>) -> Seq<char> {
    if cursor::byte_len(date) >= 10 {
        cursor::text_after(cursor::text_before(date, 10), 5)
    } else {
        date
    }
}

/// Month and day can be cut out of a date.
pub open spec fn date_fits(date: Seq<char>) -> bool {
    cursor::byte_len(date) >= 10 ==> cursor::on_boundary(date, 10) && cursor::on_boundary(
        cursor::text_before(date, 10),
        5,
    )
}

/// A cell of the picture of a day, number `i` of those shown. Each day has `width` columns; its bar
/// takes no more than three of them.
pub open spec fn day_cell(
    area: Rect,
    day: DayView,
    i: int,
    width: int,
    most: int,
    x: int,
    y: int,
    under: Cell,
) -> Cell {
    let from = area.x + i * width;
    let bar_width = if width >= 4 {
        3
    } else if width >= 1 {
        width - 1
    } else {
        0
    };
    let bottom = area.y + bar_height(area);
    let row = bottom - y;
    let label = text::first_chars(day_label(day.date), width as nat);
    let label_y = area.y + (if area.height >= 1 {
        area.height - 1
    } else {
        0
    });
    if y == label_y && from <= x < from + label.len() {
        Cell { ch: Some(label[x - from]), fg: Some(Role::TextMuted), bg: Some(Role::BgPrimary) }
    } else if 0 <= row < bar_height(area) && from <= x < from + bar_width {
        if row < filled(day, area, most) {
            Cell { ch: Some('█'), fg: Some(Role::Bar(i as usize)), bg: Some(Role::BgPrimary) }
        } else {
            Cell { ch: Some(' '), bg: Some(Role::BgPrimary), ..under }
        }
    } else {
        under
    }
}

/// A cell of the picture of the first `k` days.
pub open spec fn days_cell(
    area: Rect,
    days: Seq<DayView>,
    width: int,
    most: int,
    k: int,
    x: int,
    y: int,
) -> Cell
    decreases k,
{
    if k <= 0 {
        screen::untouched()
    } else {
        day_cell(
            area,
            days[k - 1],
            k - 1,
            width,
            most,
            x,
            y,
            days_cell(area, days, width, most, k - 1, x, y),
        )
    }
}

/// The days that are shown: the last fourteen.
pub open spec fn days_shown(days: Seq<DayView>) -> Seq<DayView> {
    seqs::last_n(days, DAYS_SHOWN as nat)
}

/// The days that are shown can be drawn: month and day can be cut out of their dates, and their
/// bars can be measured.
pub open spec fn days_fit(area: Rect, days: Seq<DayView>) -> bool {
    forall|i: int|
        0 <= i < days_shown(days).len() ==> date_fits((#[trigger] days_shown(days)[i]).date)
            && days_shown(days)[i].message_count * bar_height(area) <= u64::MAX
}

/// A cell of the picture of the last days.
pub open spec fn daily_cell(area: Rect, days: Seq<DayView>, x: int, y: int) -> Cell {
    let shown = days_shown(days);
    days_cell(
        area,
        shown,
        (area.width as int) / (shown.len() as int),
        most_messages(shown),
        shown.len() as int,
        x,
        y,
    )
}

fn add_stroke(strokes: &mut Vec<Stroke>, s: Stroke)
    ensures
        final(strokes)@ == old(strokes)@.push(s),
        forall|x: int, y: int| #[trigger]
            screen::painted(final(strokes)@, x, y) == (if x == s.x && y == s.y {
                let under = screen::painted(old(strokes)@, x, y);
                Cell {
                    ch: screen::over(s.ch, under.ch),
                    fg: screen::over(s.fg, under.fg),
                    bg: screen::over(s.bg, under.bg),
                }
            } else {
                screen::painted(old(strokes)@, x, y)
            }),
{
    strokes.push(s);
    assert(strokes@.drop_last() == old(strokes)@);
}

proof fn lemma_most(days: Seq<DayView>)
    ensures
        most_messages(days) >= 1,
        most_messages(days) <= u64::MAX,
        forall|i: int| 0 <= i < days.len() ==> (#[trigger] days[i]).message_count <= most_messages(
            days,
        ),
    decreases days.len(),
{
    if days.len() > 0 {
        lemma_most(days.drop_last());
        assert forall|i: int| 0 <= i < days.len() implies (#[trigger] days[i]).message_count
            <= most_messages(days) by {
            if i < days.len() - 1 {
                assert(days.drop_last()[i] == days[i]);
            }
        }
    }
}

/// Draws the bar of a day, from its bottom up.
fn draw_bar(strokes: &mut Vec<Stroke>, area: Rect, x_start: u16, cells: u16, full: u16, i: usize)
    requires
        area.fits(),
        x_start + cells <= u16::MAX,
    ensures
        forall|x: int, y: int| #[trigger]
            screen::painted(final(strokes)@, x, y) == ({
                let row = area.y + bar_height(area) - y;
                let under = screen::painted(old(strokes)@, x, y);
                if 0 <= row < bar_height(area) && x_start <= x < x_start + cells {
                    if row < full {
                        Cell {
                            ch: Some('█'),
                            fg: Some(Role::Bar(i)),
                            bg: Some(Role::BgPrimary),
                        }
                    } else {
                        Cell { ch: Some(' '), bg: Some(Role::BgPrimary), ..under }
                    }
                } else {
                    under
                }
            }),
{
    let height: u16 = area.height.saturating_sub(2);
    let bottom: u16 = area.y + height;
    let mut row: u16 = 0;
    while row < height
        invariant
            row <= height,
            height == bar_height(area),
            bottom == area.y + height,
            x_start + cells <= u16::MAX,
            forall|x: int, y: int| #[trigger]
                screen::painted(strokes@, x, y) == ({
                    let r = bottom - y;
                    let under = screen::painted(old(strokes)@, x, y);
                    if 0 <= r < row && x_start <= x < x_start + cells {
                        if r < full {
                            Cell {
                                ch: Some('█'),
                                fg: Some(Role::Bar(i)),
                                bg: Some(Role::BgPrimary),
                            }
                        } else {
                            Cell { ch: Some(' '), bg: Some(Role::BgPrimary), ..under }
                        }
                    } else {
                        under
                    }
                }),
        decreases height - row,
    {
        let y: u16 = bottom - row;
        let ghost before = strokes@;
        let mut dx: u16 = 0;
        while dx < cells
            invariant
                dx <= cells,
                x_start + cells <= u16::MAX,
                forall|x: int, cy: int| #[trigger]
                    screen::painted(strokes@, x, cy) == ({
                        let under = screen::painted(before, x, cy);
                        if cy == y && x_start <= x < x_start + dx {
                            if row < full {
                                Cell {
                                    ch: Some('█'),
                                    fg: Some(Role::Bar(i)),
                                    bg: Some(Role::BgPrimary),
                                }
                            } else {
                                Cell { ch: Some(' '), bg: Some(Role::BgPrimary), ..under }
                            }
                        } else {
                            under
                        }
                    }),
            decreases cells - dx,
        {
            let (ch, fg) = if row < full {
                ('█', Some(Role::Bar(i)))
            } else {
                (' ', None)
            };
            let s = Stroke { x: x_start + dx, y, ch: Some(ch), fg, bg: Some(Role::BgPrimary) };
            add_stroke(strokes, s);
            dx += 1;
        }
        row += 1;
    }
}

/// Writes what stands below a bar.
fn draw_label(strokes: &mut Vec<Stroke>, label: &Vec<char>, x_start: u16, y: u16)
    requires
        x_start + label@.len() <= u16::MAX,
    ensures
        forall|x: int, cy: int| #[trigger]
            screen::painted(final(strokes)@, x, cy) == (if cy == y && x_start <= x < x_start
                + label@.len() {
                Cell {
                    ch: Some(label@[x - x_start]),
                    fg: Some(Role::TextMuted),
                    bg: Some(Role::BgPrimary),
                }
            } else {
                screen::painted(old(strokes)@, x, cy)
            }),
{
    let mut i: usize = 0;
    while i < label.len()
        invariant
            i <= label@.len(),
            x_start + label@.len() <= u16::MAX,
            forall|x: int, cy: int| #[trigger]
                screen::painted(strokes@, x, cy) == (if cy == y && x_start <= x < x_start + i {
                    Cell {
                        ch: Some(label@[x - x_start]),
                        fg: Some(Role::TextMuted),
                        bg: Some(Role::BgPrimary),
                    }
                } else {
                    screen::painted(old(strokes)@, x, cy)
                }),
        decreases label@.len() - i,
    {
        let s = Stroke {
            x: x_start + i as u16,
            y,
            ch: Some(label[i]),
            fg: Some(Role::TextMuted),
            bg: Some(Role::BgPrimary),
        };
        add_stroke(strokes, s);
        i += 1;
    }
}

fn label_of(date: &str) -> (r: &str)
    requires
        date_fits(date@),
    ensures
        r@ == day_label(date@),
{
    if bytes_in(date) >= 10 {
        let (head, _) = split(date, 10);
        let (_, tail) = split(head, 5);
        tail
    } else {
        date
    }
}

/// Draws a day.
fn draw_day(
    strokes: &mut Vec<Stroke>,
    area: Rect,
    day: &DailyActivity,
    i: usize,
    width: u16,
    most: u64,
)
    requires
        area.fits(),
        i * width + width <= area.width,
        most >= 1,
        day.message_count <= most,
        day.message_count * bar_height(area) <= u64::MAX,
        date_fits(day.date@),
    ensures
        forall|x: int, y: int| #[trigger]
            screen::painted(final(strokes)@, x, y) == day_cell(
                area,
                day.deep_view(),
                i as int,
                width as int,
                most as int,
                x,
                y,
                screen::painted(old(strokes)@, x, y),
            ),
{
    let ghost before = strokes@;
    assert(i * width <= area.width);
    let x_start: u16 = area.x + (i as u64 * width as u64) as u16;
    let height: u64 = area.height.saturating_sub(2) as u64;
    proof {
        let most_int = most as int;
        let h = height as int;
        let n = day.message_count as int;
        assert((n * h) / most_int <= h) by (nonlinear_arith)
            requires
                0 <= n <= most_int,
                most_int >= 1,
                h >= 0,
        ;
        assert((n * h) / most_int >= 0) by (nonlinear_arith)
            requires
                0 <= n,
                most_int >= 1,
                h >= 0,
        ;
    }
    let full: u16 = (day.message_count * height / most) as u16;
    assert(full == filled(day.deep_view(), area, most as int));
    let cells: u16 = if width >= 4 {
        3
    } else {
        width.saturating_sub(1)
    };
    draw_bar(strokes, area, x_start, cells, full, i);
    let ghost barred = strokes@;
    let label = chars_of(truncate_chars(label_of(day.date.as_str()), width as usize));
    let label_y: u16 = area.y + area.height.saturating_sub(1);
    draw_label(strokes, &label, x_start, label_y);
    assert forall|x: int, y: int| #[trigger]
        screen::painted(strokes@, x, y) == day_cell(
            area,
            day.deep_view(),
            i as int,
            width as int,
            most as int,
            x,
            y,
            screen::painted(before, x, y),
        ) by {
        assert(screen::painted(barred, x, y) == screen::painted(barred, x, y));
    }
}

/// The last fourteen days as bars, in strokes; none where there was no day.
pub fn render_daily_bars(area: Rect, stats: &StatsCache) -> (r: Option<Vec<Stroke>>)
    requires
        area.fits(),
        days_fit(area, stats.daily_activity.deep_view()),
    ensures
        match r {
            Some(strokes) => stats.daily_activity@.len() > 0 && forall|x: int, y: int| #[trigger]
                screen::painted(strokes@, x, y) == daily_cell(
                    area,
                    stats.daily_activity.deep_view(),
                    x,
                    y,
                ),
            None => stats.daily_activity@.len() == 0,
        },
{
    let total: usize = stats.daily_activity.len();
    if total == 0 {
        return None;
    }
    let from: usize = total.saturating_sub(DAYS_SHOWN);
    let n: usize = total - from;
    let ghost shown = days_shown(stats.daily_activity.deep_view());
    assert(shown =~= stats.daily_activity.deep_view().subrange(from as int, total as int));
    // The greatest number of messages
    let mut most: u64 = 1;
    let mut k: usize = 0;
    assert(shown.take(0) == Seq::<DayView>::empty());
    while k < n
        invariant
            k <= n,
            from + n == total == stats.daily_activity@.len(),
            shown == stats.daily_activity.deep_view().subrange(from as int, total as int),
            most == most_messages(shown.take(k as int)),
        decreases n - k,
    {
        assert(shown.take(k + 1).drop_last() == shown.take(k as int));
        let count: u64 = stats.daily_activity[from + k].message_count;
        assert(shown[k as int].message_count == count);
        if count > most {
            most = count;
        }
        k += 1;
    }
    assert(shown.take(k as int) == shown);
    proof {
        lemma_most(shown);
    }
    let width: u16 = (area.width as usize / n) as u16;
    let mut strokes: Vec<Stroke> = Vec::new();
    let mut i: usize = 0;
    while i < n
        invariant
            i <= n,
            from + n == total == stats.daily_activity@.len(),
            n >= 1,
            area.fits(),
            width == (area.width as int) / (n as int),
            most >= 1,
            shown == stats.daily_activity.deep_view().subrange(from as int, total as int),
            forall|i: int|
                0 <= i < shown.len() ==> (#[trigger] shown[i]).message_count <= most,
            forall|i: int|
                0 <= i < shown.len() ==> date_fits((#[trigger] shown[i]).date)
                    && shown[i].message_count * bar_height(area) <= u64::MAX,
            forall|x: int, y: int| #[trigger]
                screen::painted(strokes@, x, y) == days_cell(
                    area,
                    shown,
                    width as int,
                    most as int,
                    i as int,
                    x,
                    y,
                ),
        decreases n - i,
    {
        let day = &stats.daily_activity[from + i];
        assert(shown[i as int] == day.deep_view());
        proof {
            let w = width as int;
            let aw = area.width as int;
            let ni = n as int;
            let ii = i as int;
            assert(ii * w + w <= aw) by (nonlinear_arith)
                requires
                    w == aw / ni,
                    ni >= 1,
                    0 <= ii < ni,
                    aw >= 0,
            ;
        }
        draw_day(&mut strokes, area, day, i, width, most);
        i += 1;
    }
    Some(strokes)
}

// ── Laws ──

/// A bar is never higher than the room for it, and the busiest day fills it.
pub proof fn law_bars_fit(days: Seq<DayView>, area: Rect, i: int)
    requires
        0 <= i < days.len(),
    ensures
        0 <= filled(days[i], area, most_messages(days)) <= bar_height(area),
        days[i].message_count == most_messages(days) ==> filled(
            days[i],
            area,
            most_messages(days),
        ) == bar_height(area),
{
    lemma_most(days);
    let n = days[i].message_count as int;
    let most = most_messages(days);
    let h = bar_height(area);
    assert((n * h) / most <= h) by (nonlinear_arith)
        requires
            0 <= n <= most,
            most >= 1,
            h >= 0,
    ;
    assert((n * h) / most >= 0) by (nonlinear_arith)
        requires
            0 <= n,
            most >= 1,
            h >= 0,
    ;
    if n == most {
        assert((n * h) / most == h) by (nonlinear_arith)
            requires
                n == most,
                most >= 1,
        ;
    }
}

/// No model that is left out has more tokens than one that is shown.
pub proof fn law_top_models(models: Seq<(String, ModelUsage)>, shown: int, left_out: int)
    requires
        0 <= shown < 4 <= left_out < models.len(),
    ensures
        ({
            let order = seqs::ranked(model_totals(models));
            &&& order.len() == models.len()
            &&& model_total(models[order[shown]]) >= model_total(models[order[left_out]])
        }),
{
    let totals = model_totals(models);
    seqs::law_ranking(totals);
    let order = seqs::ranked(totals);
    assert(totals[order[shown]] >= totals[order[left_out]]);
    assert(totals[order[shown]] == model_total(models[order[shown]]));
    assert(totals[order[left_out]] == model_total(models[order[left_out]]));
}

/// The token is the text that stands in its place in the credentials; where there is none, it is
/// empty.
pub proof fn law_the_token(data: Seq<char>, val: JsonView, token: Seq<char>)
    ensures
        json::reads_as(data, val) && val.get_in("claudeAiOauth"@, "accessToken"@) == Some(
            JsonView::Text(token),
        ) ==> text_token(data) == token,
        json::reads_as(data, val) && !(val.get_in("claudeAiOauth"@, "accessToken"@) matches Some(
            JsonView::Text(_),
        )) ==> text_token(data).len() == 0,
        json::parsed_json(data) is Err ==> text_token(data).len() == 0,
{
}

/// The token goes along with the question for the usage, which waits for no longer than five
/// seconds.
pub proof fn law_asking_for_the_usage(token: Seq<char>)
    ensures
        ({
            let args = usage_args(token);
            &&& args.len() == 8
            &&& args[1] == "--max-time"@ && args[2] == "5"@
            &&& args[3] == "-H"@ && args[4] == "Authorization: Bearer "@ + token
            &&& args[7] == "https://api.anthropic.com/api/oauth/usage"@
        }),
{
}

/// The models with the most tokens are shown, four at most and the greatest first; each with its
/// tokens, which add up to its total, and with the end of its name.
pub proof fn law_the_greatest_models_are_shown(
    models: Seq<(String, ModelUsage)>,
    i: int,
    j: int,
)
    ensures
        ({
            let rows = model_rows(models);
            let order = seqs::ranked(model_totals(models));
            &&& models.len() <= 4 ==> rows.len() == models.len()
            &&& models.len() > 4 ==> rows.len() == 4
            &&& 0 <= i < j < rows.len() ==> rows[i].total >= rows[j].total
            &&& 0 <= i < rows.len() ==> {
                let m = models[order[i]];
                &&& 0 <= order[i] < models.len()
                &&& rows[i].input == m.1.input_tokens && rows[i].output == m.1.output_tokens
                &&& rows[i].total == rows[i].input + rows[i].output
                &&& rows[i].name.len() <= 25
                &&& rows[i].name.is_prefix_of(text::after_last(m.0@, '/'))
            }
        }),
{
    let totals = model_totals(models);
    seqs::law_ranking(totals);
    let order = seqs::ranked(totals);
    let rows = model_rows(models);
    if 0 <= i < rows.len() {
        text::law_first_chars(text::after_last(models[order[i]].0@, '/'), 25);
        assert(totals[order[i]] == model_total(models[order[i]]));
        if i < j < rows.len() {
            assert(totals[order[j]] == model_total(models[order[j]]));
        }
    }
}

/// Each model has a line with its name and its figures, below the heading; without models the
/// panel says so.
pub proof fn law_lines_of_the_models(rows: Seq<ModelRowView>, figures: Seq<FiguresView>, i: int)
    ensures
        ({
            let lines = model_lines(rows, figures);
            &&& rows.len() > 0 ==> lines.len() == 1 + rows.len()
            &&& rows.len() == 0 ==> lines.len() == 2 && lines[1][0].text
                == "   No model usage data"@
            &&& 0 <= i < rows.len() ==> {
                let line = lines[1 + i];
                &&& line.len() == 2
                &&& line[0].text == "   ● "@ + text::pad_end(rows[i].name, 25)
                &&& line[1].text == " in:"@ + text::pad_start(figures[i].input, 8) + "  out:"@
                    + text::pad_start(figures[i].output, 8) + "  total:"@ + text::pad_start(
                    figures[i].total,
                    9,
                )
            }
        }),
{
    if 0 <= i < rows.len() {
        let line = model_lines(rows, figures)[1 + i];
        assert(line == model_line(i, rows[i], figures[i]));
        assert(line[1].text =~= " in:"@ + text::pad_start(figures[i].input, 8) + "  out:"@
            + text::pad_start(figures[i].output, 8) + "  total:"@ + text::pad_start(
            figures[i].total,
            9,
        ));
    }
}

/// The last fourteen days are shown.
pub proof fn law_the_last_days_are_shown(days: Seq<DayView>, i: int)
    ensures
        days.len() <= 14 ==> days_shown(days) == days,
        days.len() >= 14 ==> days_shown(days).len() == 14,
        0 <= i < days_shown(days).len() ==> days_shown(days)[days_shown(days).len() - 1 - i]
            == days[days.len() - 1 - i],
{
    seqs::law_last_n(days, 14, i);
}

/// The most messages of a day are those of some day, and no day has more; where no day has any,
/// it is one.
pub proof fn law_the_most_messages(days: Seq<DayView>, i: int)
    ensures
        0 <= i < days.len() ==> days[i].message_count <= most_messages(days),
        most_messages(days) == 1 || exists|k: int|
            0 <= k < days.len() && (#[trigger] days[k]).message_count == most_messages(days),
        most_messages(days) >= 1,
    decreases days.len(),
{
    if days.len() > 0 {
        let init = days.drop_last();
        law_the_most_messages(init, i);
        if 0 <= i < init.len() {
            assert(init[i] == days[i]);
        }
        if days.last().message_count > most_messages(init) {
            assert(days[days.len() - 1].message_count == most_messages(days));
        } else if most_messages(init) != 1 {
            let k = choose|k: int|
                0 <= k < init.len() && (#[trigger] init[k]).message_count == most_messages(init);
            assert(days[k].message_count == most_messages(days));
        }
    }
}

/// The height of a bar is the part of the room that the messages of its day are of the most: the
/// next row would be too much. A day with more messages has no lower bar.
pub proof fn law_bars_are_in_proportion(a: DayView, b: DayView, area: Rect, most: int)
    requires
        most >= 1,
    ensures
        filled(a, area, most) * most <= a.message_count * bar_height(area) < (filled(
            a,
            area,
            most,
        ) + 1) * most,
        a.message_count <= b.message_count ==> filled(a, area, most) <= filled(b, area, most),
        area.height >= 2 ==> bar_height(area) == area.height - 2,
{
    let n = a.message_count * bar_height(area);
    let m = b.message_count * bar_height(area);
    let h = bar_height(area);
    let f = n / most;
    assert(f * most <= n < (f + 1) * most) by (nonlinear_arith)
        requires
            f == n / most,
            most >= 1,
    ;
    if a.message_count <= b.message_count {
        assert(a.message_count * h <= b.message_count * h) by (nonlinear_arith)
            requires
                a.message_count <= b.message_count,
                h >= 0,
        ;
        assert(n / most <= m / most) by (nonlinear_arith)
            requires
                n <= m,
                most >= 1,
        ;
    }
}

/// Each day has its columns to itself: in them it is drawn as if it were alone.
pub proof fn law_days_stand_side_by_side(
    area: Rect,
    days: Seq<DayView>,
    width: int,
    most: int,
    k: int,
    i: int,
    x: int,
    y: int,
)
    requires
        0 <= i < k <= days.len(),
        width >= 0,
        area.x + i * width <= x < area.x + i * width + width,
    ensures
        days_cell(area, days, width, most, k, x, y) == day_cell(
            area,
            days[i],
            i,
            width,
            most,
            x,
            y,
            screen::untouched(),
        ),
    decreases k,
{
    if k - 1 > i {
        law_days_stand_side_by_side(area, days, width, most, k - 1, i, x, y);
        assert((k - 1) * width >= i * width + width) by (nonlinear_arith)
            requires
                k - 1 >= i + 1,
                width >= 0,
        ;
    } else {
        lemma_days_to_the_left(area, days, width, most, k - 1, x, y);
    }
}

proof fn lemma_days_to_the_left(
    area: Rect,
    days: Seq<DayView>,
    width: int,
    most: int,
    k: int,
    x: int,
    y: int,
)
    requires
        0 <= k <= days.len(),
        width >= 0,
        x >= area.x + k * width,
    ensures
        days_cell(area, days, width, most, k, x, y) == screen::untouched(),
    decreases k,
{
    if k > 0 {
        assert((k - 1) * width + width == k * width) by (nonlinear_arith);
        lemma_days_to_the_left(area, days, width, most, k - 1, x, y);
        let label = text::first_chars(day_label(days[k - 1].date), width as nat);
        text::law_first_chars(day_label(days[k - 1].date), width as nat);
        assert(label.len() <= width);
    }
}

/// A day has its bar above its label: as many rows from the bottom are full as the bar is high,
/// and the label stands in the last row.
pub proof fn law_how_a_day_is_drawn(
    area: Rect,
    day: DayView,
    i: int,
    width: int,
    most: int,
    row: int,
    c: int,
    under: Cell,
)
    requires
        area.height >= 3,
        width >= 4,
        0 <= row < area.height - 2,
        0 <= c < 3,
    ensures
        ({
            let x = area.x + i * width + c;
            let bar = day_cell(
                area,
                day,
                i,
                width,
                most,
                x,
                area.y + area.height - 2 - row,
                under,
            );
            let foot = day_cell(area, day, i, width, most, x, area.y + area.height - 1, under);
            let label = day_label(day.date);
            &&& row < filled(day, area, most) ==> bar.ch == Some('█')
            &&& row >= filled(day, area, most) ==> bar.ch == Some(' ')
            &&& c < label.len() ==> foot.ch == Some(label[c])
        }),
{
    text::law_first_chars(day_label(day.date), width as nat);
}

/// The label of a day is its month and its day, where its date is written in ten plain characters.
pub proof fn law_the_label_of_a_day(date: Seq<char>)
    requires
        date.len() == 10,
        forall|i: int| 0 <= i < 10 ==> '\0' <= #[trigger] date[i] <= '\u{7f}',
    ensures
        day_label(date) == date.subrange(5, 10),
        date_fits(date),
{
    let year = date.subrange(0, 5);
    let rest = date.subrange(5, 10);
    let none = Seq::<char>::empty();
    assert(year + rest =~= date);
    assert(date + none =~= date);
    vstd::utf8::is_ascii_chars_encode_utf8(date);
    vstd::utf8::is_ascii_chars_encode_utf8(year);
    cursor::lemma_joint_on_boundary(date, none);
    cursor::lemma_joint_on_boundary(year, rest);
}

}
