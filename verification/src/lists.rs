//! The panels that list something: the sessions and the themes; and the bars around the tiles.
use vstd::prelude::*;

use crate::registry;
use crate::registry::{Sessions};
use crate::screen;
use crate::screen::{
    add_line, add_span, bold_on_style, bold_style, empty_line, empty_lines, fg_on_style, fg_style,
    line_of, plain_style, Hue, Role, Span, SpanView, Style,
};
use crate::session::{ClaudeSession, SessionView, StateView};
use crate::session_keys::Key;
use crate::text;
use crate::text::{cat2, cat3, decimal_of, padded_end, repeat_char, truncate_chars};

verus! {

broadcast use vstd::std_specs::hash::group_hash_axioms;

// ── The border of a tile ──

/// How the border of a tile looks.
#[derive(Clone, Copy, PartialEq, Eq, Structural)]
pub struct TileBlock {
    pub thick: bool,
    pub border: Style,
    pub title: Style,
}

/// A standard tile with focused/unfocused styling.
pub open spec fn tile_block(title: Role, focused: bool) -> TileBlock {
    if focused {
        TileBlock {
            thick: true,
            border: screen::bold(Role::BorderFocused),
            title: screen::bold(title),
        }
    } else {
        TileBlock {
            thick: false,
            border: screen::fg(Role::BorderNormal),
            title: screen::fg(Role::TextSecondary),
        }
    }
}

/// Create a standard tile block with focused/unfocused styling.
pub fn make_tile_block(title: Role, focused: bool) -> (r: TileBlock)
    ensures
        r == tile_block(title, focused),
{
    if focused {
        TileBlock {
            thick: true,
            border: bold_style(Role::BorderFocused),
            title: bold_style(title),
        }
    } else {
        TileBlock {
            thick: false,
            border: fg_style(Role::BorderNormal),
            title: fg_style(Role::TextSecondary),
        }
    }
}

// ── Choosing from a list ──

/// The next item of a list; the last one stays.
pub open spec fn next_item(selected: int, count: int) -> int {
    if count > 0 && selected < count - 1 {
        selected + 1
    } else {
        selected
    }
}

/// The item before in a list; the first one stays.
pub open spec fn previous_item(selected: int) -> int {
    if selected > 0 {
        selected - 1
    } else {
        selected
    }
}

/// What a key makes of the choice, and whether it was used.
pub open spec fn chosen(selected: int, count: int, key: Key) -> (int, bool) {
    match key {
        Key::Char(c) => if c == 'j' {
            (next_item(selected, count), true)
        } else if c == 'k' {
            (previous_item(selected), true)
        } else {
            (selected, false)
        },
        _ => (selected, false),
    }
}

fn choose_item(selected: usize, count: usize, key: Key) -> (r: (usize, bool))
    ensures
        (r.0 as int, r.1) == chosen(selected as int, count as int, key),
{
    match key {
        Key::Char(c) => if c == 'j' {
            if count > 0 && selected < count - 1 {
                (selected + 1, true)
            } else {
                (selected, true)
            }
        } else if c == 'k' {
            if selected > 0 {
                (selected - 1, true)
            } else {
                (selected, true)
            }
        } else {
            (selected, false)
        },
        _ => (selected, false),
    }
}

/// The line below the heading of a list.
pub open spec fn rule(width: u16, role: Role) -> Seq<SpanView> {
    let n: nat = if width >= 3 {
        (width - 3) as nat
    } else {
        0
    };
    seq![screen::span(" ─"@ + text::repeated('─', n), screen::fg(role))]
}

fn rule_of(width: u16, role: Role) -> (r: Vec<Span>)
    ensures
        r.deep_view() == rule(width, role),
{
    let dashes = repeat_char('─', width.saturating_sub(3) as usize);
    line_of(cat2(" ─", dashes.as_str()).as_str(), fg_style(role))
}

// ── The sessions ──

/// The panel that lists the sessions.
pub struct SessionListPlugin {
    pub selected: usize,
}

pub open spec fn session_list_head() -> Seq<SpanView> {
    let style = screen::bold(Role::TextPrimary);
    seq![
        screen::span("  ID  "@, style),
        screen::span("Title                    "@, style),
        screen::span("Status   "@, style),
        screen::span("Prompts  "@, style),
        screen::span("Cost     "@, style),
        screen::span("Session ID"@, style),
    ]
}

impl SessionView {
    pub open spec fn list_status(self) -> (Seq<char>, Role) {
        match self.state {
            StateView::AwaitingPermission(_) => ("⚠ wait perm"@, Role::Orange),
            StateView::Running => ("⟳ running  "@, Role::Yellow),
            StateView::Idle => ("● idle     "@, Role::Green),
        }
    }

    /// The row of a session in the list; the cost is given as a text.
    pub open spec fn list_row(self, id: usize, selected: bool, cost: Seq<char>) -> Seq<SpanView> {
        let bg = if selected {
            Role::BgSecondary
        } else {
            Role::BgPrimary
        };
        let (status, role) = self.list_status();
        seq![
            screen::span(
                if selected {
                    " ▸ "@
                } else {
                    "   "@
                },
                screen::fg_on(Role::Cyan, bg),
            ),
            screen::span(
                text::pad_end(text::decimal(id as nat), 4),
                screen::fg_on(Role::TextPrimary, bg),
            ),
            screen::span(text::pad_end(self.title, 25), screen::fg_on(Role::Cyan, bg)),
            screen::span(status, screen::fg_on(role, bg)),
            screen::span(
                text::pad_end(text::decimal(self.prompt_count as nat), 9),
                screen::fg_on(Role::TextSecondary, bg),
            ),
            screen::span("$"@ + text::pad_end(cost, 8), screen::fg_on(Role::Orange, bg)),
            screen::span(
                match self.session_id {
                    Some(sid) => text::first_chars(sid, 12),
                    None => "(new)"@,
                },
                screen::fg_on(Role::TextMuted, bg),
            ),
        ]
    }
}

pub open spec fn session_list_foot() -> Seq<SpanView> {
    seq![
        screen::span("  j/k"@, screen::bold(Role::Green)),
        screen::span(":navigate  "@, screen::fg(Role::TextMuted)),
    ]
}

/// The rows of the sessions with these numbers; `selected` counts the rows.
pub open spec fn session_rows(
    table: Map<usize, SessionView>,
    ids: Seq<usize>,
    costs: Seq<Seq<char>>,
    focused: bool,
    selected: int,
) -> Seq<Seq<SpanView>> {
    Seq::new(
        ids.len(),
        |i: int| table[ids[i]].list_row(ids[i], focused && i == selected, costs[i]),
    )
}

/// The lines of the panel; the sessions stand in the order of their numbers.
pub open spec fn session_list_lines(
    table: Map<usize, SessionView>,
    ids: Seq<usize>,
    costs: Seq<Seq<char>>,
    focused: bool,
    selected: int,
    width: u16,
) -> Seq<Seq<SpanView>> {
    let head = seq![session_list_head(), rule(width, Role::BorderNormal)];
    let rows = if ids.len() == 0 {
        seq![seq![screen::span("   No active sessions"@, screen::fg(Role::TextMuted))]]
    } else {
        session_rows(table, ids, costs, focused, selected)
    };
    head + rows + seq![Seq::empty(), session_list_foot()]
}

fn list_head() -> (r: Vec<Span>)
    ensures
        r.deep_view() == session_list_head(),
{
    let style = bold_style(Role::TextPrimary);
    let mut r = empty_line();
    add_span(&mut r, "  ID  ", style);
    add_span(&mut r, "Title                    ", style);
    add_span(&mut r, "Status   ", style);
    add_span(&mut r, "Prompts  ", style);
    add_span(&mut r, "Cost     ", style);
    add_span(&mut r, "Session ID", style);
    assert(r.deep_view() =~= session_list_head());
    r
}

impl ClaudeSession {
    fn row(&self, id: usize, selected: bool, cost: &str) -> (r: Vec<Span>)
        ensures
            r.deep_view() == self@.list_row(id, selected, cost@),
    {
        let (status, role) = if self.is_awaiting_permission() {
            ("⚠ wait perm", Role::Orange)
        } else if self.is_running() {
            ("⟳ running  ", Role::Yellow)
        } else {
            ("● idle     ", Role::Green)
        };
        let bg = if selected {
            Role::BgSecondary
        } else {
            Role::BgPrimary
        };
        let indicator = if selected {
            " ▸ "
        } else {
            "   "
        };
        let number = padded_end(decimal_of(id as u64).as_str(), 4);
        let title = padded_end(self.title.as_str(), 25);
        let prompts = padded_end(decimal_of(self.prompt_count as u64).as_str(), 9);
        let price = cat2("$", padded_end(cost, 8).as_str());
        let sid = match &self.session_id {
            Some(sid) => truncate_chars(sid.as_str(), 12),
            None => "(new)",
        };
        let mut r = empty_line();
        add_span(&mut r, indicator, fg_on_style(Role::Cyan, bg));
        add_span(&mut r, number.as_str(), fg_on_style(Role::TextPrimary, bg));
        add_span(&mut r, title.as_str(), fg_on_style(Role::Cyan, bg));
        add_span(&mut r, status, fg_on_style(role, bg));
        add_span(&mut r, prompts.as_str(), fg_on_style(Role::TextSecondary, bg));
        add_span(&mut r, price.as_str(), fg_on_style(Role::Orange, bg));
        add_span(&mut r, sid, fg_on_style(Role::TextMuted, bg));
        assert(r.deep_view() =~= self@.list_row(id, selected, cost@));
        r
    }
}

impl SessionListPlugin {
    /// The panel as it opens, and what the debug log says of it.
    pub fn new() -> (r: (SessionListPlugin, String))
        ensures
            r.0.selected == 0,
            r.1@ == "[debug] Session list panel opened"@,
    {
        (SessionListPlugin { selected: 0 }, "[debug] Session list panel opened".to_string())
    }

    /// The title of the panel.
    pub fn title(count: usize) -> (r: String)
        ensures
            r@ == "  Sessions ("@ + text::decimal(count as nat) + ")  "@,
    {
        cat3("  Sessions (", decimal_of(count as u64).as_str(), ")  ")
    }

    /// The lines of the panel; `costs` says what each session has cost, in the order of their
    /// numbers.
    pub fn render(&self, sessions: &Sessions, costs: &Vec<String>, focused: bool, width: u16) -> (r:
        Vec<Vec<Span>>)
        requires
            sessions@.table.dom().len() == costs@.len(),
        ensures
            exists|ids: Seq<usize>| #[trigger]
                registry::ascending(ids, sessions@.table.dom()) && r.deep_view()
                    == session_list_lines(
                    sessions@.table,
                    ids,
                    text::texts(costs@),
                    focused,
                    self.selected as int,
                    width,
                ),
    {
        let ids = sessions.session_ids();
        proof {
            lemma_ascending_len(ids@, sessions@.table.dom());
        }
        let ghost table = sessions@.table;
        let ghost cs = text::texts(costs@);
        let ghost rows = session_rows(table, ids@, cs, focused, self.selected as int);
        let mut lines = empty_lines();
        add_line(&mut lines, list_head());
        add_line(&mut lines, rule_of(width, Role::BorderNormal));
        let ghost head = lines.deep_view();
        let mut i: usize = 0;
        assert(head + rows.take(0) == head);
        while i < ids.len()
            invariant
                i <= ids@.len(),
                ids@.len() == costs@.len(),
                table == sessions@.table,
                registry::ascending(ids@, table.dom()),
                cs == text::texts(costs@),
                rows == session_rows(table, ids@, cs, focused, self.selected as int),
                lines.deep_view() == head + rows.take(i as int),
            decreases ids@.len() - i,
        {
            let id: usize = ids[i];
            assert(ids@.contains(id));
            assert(table.dom().contains(id));
            assert(cs[i as int] == costs@[i as int]@);
            if let Some(session) = sessions.table.get(&id) {
                assert(table[id] == session@);
                let selected = focused && i == self.selected;
                assert(head + rows.take(i + 1) == (head + rows.take(i as int)).push(
                    rows[i as int],
                ));
                add_line(&mut lines, session.row(id, selected, costs[i].as_str()));
            }
            i += 1;
        }
        assert(rows.take(i as int) == rows);
        if ids.len() == 0 {
            add_line(
                &mut lines,
                line_of("   No active sessions", fg_style(Role::TextMuted)),
            );
        }
        // Footer hints
        add_line(&mut lines, empty_line());
        let mut foot = empty_line();
        add_span(&mut foot, "  j/k", bold_style(Role::Green));
        add_span(&mut foot, ":navigate  ", fg_style(Role::TextMuted));
        assert(foot.deep_view() =~= session_list_foot());
        add_line(&mut lines, foot);
        assert(lines.deep_view() =~= session_list_lines(
            table,
            ids@,
            cs,
            focused,
            self.selected as int,
            width,
        ));
        lines
    }

    /// Takes a key; the result says whether it was used.
    pub fn on_key(&mut self, key: Key, session_count: usize) -> (consumed: bool)
        ensures
            (final(self).selected as int, consumed) == chosen(
                old(self).selected as int,
                session_count as int,
                key,
            ),
    {
        let (selected, consumed) = choose_item(self.selected, session_count, key);
        self.selected = selected;
        consumed
    }
}

/// Numbers in ascending order are as many as there are in the set.
proof fn lemma_ascending_len(ids: Seq<usize>, members: Set<usize>)
    requires
        registry::ascending(ids, members),
    ensures
        members.finite(),
        members.len() == ids.len(),
{
    assert(ids.no_duplicates());
    assert(members =~= ids.to_set());
    ids.unique_seq_to_set();
}

// ── The themes ──

/// The panel that lists the themes.
pub struct ThemeMenuPlugin {
    pub selected: usize,
}

pub open spec fn theme_head() -> Seq<SpanView> {
    let style = screen::bold(Role::TextPrimary);
    seq![screen::span("     Theme Name              "@, style), screen::span("Preview"@, style)]
}

pub open spec fn theme_foot() -> Seq<SpanView> {
    let muted = screen::fg(Role::TextMuted);
    seq![
        screen::span("  j/k"@, screen::bold(Role::Green)),
        screen::span(":navigate  "@, muted),
        screen::span("Enter"@, screen::bold(Role::Cyan)),
        screen::span(":apply  "@, muted),
        screen::span("●"@, screen::fg(Role::Green)),
        screen::span("=active"@, muted),
    ]
}

pub open spec fn swatch(i: int, hue: Hue, bg: Role) -> SpanView {
    screen::span("██"@, screen::fg_on(Role::Swatch(i as usize, hue), bg))
}

/// The row of a theme: its name, and its colours.
pub open spec fn theme_row(name: Seq<char>, i: int, selected: bool, active: bool) -> Seq<SpanView> {
    let bg = if selected {
        Role::BgSecondary
    } else {
        Role::BgPrimary
    };
    seq![
        screen::span(
            if selected && active {
                " ▸●"@
            } else if selected {
                " ▸ "@
            } else if active {
                "  ●"@
            } else {
                "   "@
            },
            screen::fg_on(
                if active {
                    Role::Green
                } else {
                    Role::Cyan
                },
                bg,
            ),
        ),
        screen::span(
            text::pad_end(name, 26),
            screen::fg_on(
                if active {
                    Role::Green
                } else {
                    Role::TextPrimary
                },
                bg,
            ),
        ),
        swatch(i, Hue::Blue, bg),
        swatch(i, Hue::Green, bg),
        swatch(i, Hue::Red, bg),
        swatch(i, Hue::Yellow, bg),
        swatch(i, Hue::Cyan, bg),
        swatch(i, Hue::Magenta, bg),
        swatch(i, Hue::Orange, bg),
    ]
}

/// From which theme on the list is shown, so that the selected one is seen.
pub open spec fn theme_scroll(selected: int, room: int) -> int {
    if selected >= room {
        selected - room + 1
    } else {
        0
    }
}

/// The lines of the panel; it has room for so many rows of themes.
pub open spec fn theme_lines(
    names: Seq<Seq<char>>,
    current: int,
    selected: int,
    focused: bool,
    width: u16,
    room: int,
) -> Seq<Seq<SpanView>> {
    let from = theme_scroll(selected, room);
    let n = if from >= names.len() {
        0
    } else if names.len() - from <= room {
        names.len() - from
    } else {
        room
    };
    let rows = Seq::new(
        n as nat,
        |k: int|
            theme_row(
                names[from + k],
                from + k,
                focused && from + k == selected,
                from + k == current,
            ),
    );
    seq![theme_head(), rule(width, Role::BorderNormal)] + rows + seq![Seq::empty(), theme_foot()]
}

fn row_of_theme(name: &str, i: usize, selected: bool, active: bool) -> (r: Vec<Span>)
    ensures
        r.deep_view() == theme_row(name@, i as int, selected, active),
{
    let bg = if selected {
        Role::BgSecondary
    } else {
        Role::BgPrimary
    };
    let indicator = if selected && active {
        " ▸●"
    } else if selected {
        " ▸ "
    } else if active {
        "  ●"
    } else {
        "   "
    };
    let indicator_role = if active {
        Role::Green
    } else {
        Role::Cyan
    };
    let name_role = if active {
        Role::Green
    } else {
        Role::TextPrimary
    };
    let mut r = empty_line();
    add_span(&mut r, indicator, fg_on_style(indicator_role, bg));
    add_span(&mut r, padded_end(name, 26).as_str(), fg_on_style(name_role, bg));
    add_span(&mut r, "██", fg_on_style(Role::Swatch(i, Hue::Blue), bg));
    add_span(&mut r, "██", fg_on_style(Role::Swatch(i, Hue::Green), bg));
    add_span(&mut r, "██", fg_on_style(Role::Swatch(i, Hue::Red), bg));
    add_span(&mut r, "██", fg_on_style(Role::Swatch(i, Hue::Yellow), bg));
    add_span(&mut r, "██", fg_on_style(Role::Swatch(i, Hue::Cyan), bg));
    add_span(&mut r, "██", fg_on_style(Role::Swatch(i, Hue::Magenta), bg));
    add_span(&mut r, "██", fg_on_style(Role::Swatch(i, Hue::Orange), bg));
    assert(r.deep_view() =~= theme_row(name@, i as int, selected, active));
    r
}

/// What comes of a key in the list of themes.
pub struct ThemeReply {
    pub consumed: bool,
    /// The theme that is to be applied and kept, with a line for the debug log.
    pub apply: Option<(usize, String)>,
}

impl ThemeMenuPlugin {
    /// The panel as it opens: on the theme that is active.
    pub fn new(active: usize) -> (r: ThemeMenuPlugin)
        ensures
            r.selected == active,
    {
        ThemeMenuPlugin { selected: active }
    }

    /// The title of the panel.
    pub fn title(count: usize) -> (r: String)
        ensures
            r@ == "  Themes ("@ + text::decimal(count as nat) + ")  "@,
    {
        cat3("  Themes (", decimal_of(count as u64).as_str(), ")  ")
    }

    /// The lines of the panel, within a border of so many cells.
    pub fn render(
        &self,
        names: &Vec<String>,
        current: usize,
        focused: bool,
        width: u16,
        height: u16,
    ) -> (r: Vec<Vec<Span>>)
        requires
            self.selected < usize::MAX,
        ensures
            r.deep_view() == theme_lines(
                text::texts(names@),
                current as int,
                self.selected as int,
                focused,
                width,
                if height >= 5 {
                    height - 5
                } else {
                    0
                },
            ),
    {
        let mut lines = empty_lines();
        let mut head = empty_line();
        add_span(&mut head, "     Theme Name              ", bold_style(Role::TextPrimary));
        add_span(&mut head, "Preview", bold_style(Role::TextPrimary));
        assert(head.deep_view() =~= theme_head());
        add_line(&mut lines, head);
        add_line(&mut lines, rule_of(width, Role::BorderNormal));
        // Scrolling: keep selected item visible
        let room: usize = height.saturating_sub(5) as usize;
        let from: usize = if self.selected >= room {
            self.selected - room + 1
        } else {
            0
        };
        let total: usize = names.len();
        let n: usize = if from >= total {
            0
        } else if total - from <= room {
            total - from
        } else {
            room
        };
        let ghost all = text::texts(names@);
        let ghost rows = Seq::new(
            n as nat,
            |k: int|
                theme_row(
                    all[from + k],
                    from + k,
                    focused && from + k == self.selected,
                    from + k == current,
                ),
        );
        let ghost top = lines.deep_view();
        let mut k: usize = 0;
        assert(top + rows.take(0) == top);
        while k < n
            invariant
                k <= n,
                n > 0 ==> from + n <= total,
                total == names@.len(),
                all == text::texts(names@),
                rows == Seq::new(
                    n as nat,
                    |k: int|
                        theme_row(
                            all[from + k],
                            from + k,
                            focused && from + k == self.selected,
                            from + k == current,
                        ),
                ),
                lines.deep_view() == top + rows.take(k as int),
            decreases n - k,
        {
            let i: usize = from + k;
            assert(all[i as int] == names@[i as int]@);
            let is_selected = focused && i == self.selected;
            let row = row_of_theme(names[i].as_str(), i, is_selected, i == current);
            assert(top + rows.take(k + 1) == (top + rows.take(k as int)).push(rows[k as int]));
            add_line(&mut lines, row);
            k += 1;
        }
        assert(rows.take(k as int) == rows);
        // Footer hints
        add_line(&mut lines, empty_line());
        let mut foot = empty_line();
        add_span(&mut foot, "  j/k", bold_style(Role::Green));
        add_span(&mut foot, ":navigate  ", fg_style(Role::TextMuted));
        add_span(&mut foot, "Enter", bold_style(Role::Cyan));
        add_span(&mut foot, ":apply  ", fg_style(Role::TextMuted));
        add_span(&mut foot, "●", fg_style(Role::Green));
        add_span(&mut foot, "=active", fg_style(Role::TextMuted));
        assert(foot.deep_view() =~= theme_foot());
        add_line(&mut lines, foot);
        assert(lines.deep_view() =~= theme_lines(
            all,
            current as int,
            self.selected as int,
            focused,
            width,
            room as int,
        ));
        lines
    }

    /// Takes a key.
    pub fn on_key(&mut self, key: Key, names: &Vec<String>) -> (r: ThemeReply)
        requires
            key is Enter ==> old(self).selected < names@.len(),
        ensures
            key is Enter ==> {
                &&& final(self).selected == old(self).selected
                &&& r.consumed
                &&& r.apply matches Some((i, log)) && i == old(self).selected && log@
                    == "[theme] Switched to: "@ + names@[i as int]@ + " (saved)"@
            },
            !(key is Enter) ==> r.apply is None && (final(self).selected as int, r.consumed)
                == chosen(old(self).selected as int, names@.len() as int, key),
    {
        match key {
            Key::Enter => {
                let name = names[self.selected].as_str();
                let log = cat3("[theme] Switched to: ", name, " (saved)");
                ThemeReply { consumed: true, apply: Some((self.selected, log)) }
            },
            _ => {
                let (selected, consumed) = choose_item(self.selected, names.len(), key);
                self.selected = selected;
                ThemeReply { consumed, apply: None }
            },
        }
    }
}

// ── The bars around the tiles ──

/// The tabs: the active one stands out.
pub open spec fn tab_spans(labels: Seq<(Seq<char>, bool)>) -> Seq<SpanView>
    decreases labels.len(),
{
    if labels.len() == 0 {
        Seq::empty()
    } else {
        let (label, active) = labels.last();
        let before = if labels.len() > 1 {
            tab_spans(labels.drop_last()).push(screen::span(" "@, screen::raw()))
        } else {
            Seq::empty()
        };
        before.push(
            screen::span(
                " "@ + label + " "@,
                if active {
                    screen::bold_on(Role::BgPrimary, Role::Cyan)
                } else {
                    screen::fg_on(Role::TextSecondary, Role::BgPanel)
                },
            ),
        )
    }
}

pub open spec fn labels_view(labels: Seq<(String, bool)>) -> Seq<(Seq<char>, bool)> {
    labels.map_values(|l: (String, bool)| (l.0@, l.1))
}

/// The tabs: the active one stands out.
pub fn render_tabs(labels: &Vec<(String, bool)>) -> (r: Vec<Span>)
    ensures
        r.deep_view() == tab_spans(labels_view(labels@)),
{
    let ghost all = labels_view(labels@);
    let mut r = empty_line();
    let mut i: usize = 0;
    assert(all.take(0) == Seq::<(Seq<char>, bool)>::empty());
    while i < labels.len()
        invariant
            i <= labels@.len(),
            all == labels_view(labels@),
            r.deep_view() == tab_spans(all.take(i as int)),
        decreases labels@.len() - i,
    {
        assert(all.take(i + 1).drop_last() == all.take(i as int));
        assert(all[i as int] == (labels@[i as int].0@, labels@[i as int].1));
        if i > 0 {
            add_span(&mut r, " ", plain_style());
        }
        let style = if labels[i].1 {
            bold_on_style(Role::BgPrimary, Role::Cyan)
        } else {
            fg_on_style(Role::TextSecondary, Role::BgPanel)
        };
        add_span(&mut r, cat3(" ", labels[i].0.as_str(), " ").as_str(), style);
        i += 1;
    }
    assert(all.take(i as int) == all);
    r
}

/// The keys of the layout.
pub open spec fn footer_spans() -> Seq<SpanView> {
    let muted = screen::fg(Role::TextMuted);
    seq![
        screen::span("  s/v"@, screen::bold(Role::Green)),
        screen::span(":split  "@, muted),
        screen::span("d"@, screen::bold(Role::Red)),
        screen::span(":close  "@, muted),
        screen::span("hjkl"@, screen::bold(Role::Yellow)),
        screen::span(":nav  "@, muted),
        screen::span("i"@, screen::bold(Role::Cyan)),
        screen::span(":input  "@, muted),
        screen::span("p"@, screen::bold(Role::Magenta)),
        screen::span(":new_panel  "@, muted),
        screen::span("t"@, screen::bold(Role::Blue)),
        screen::span(":themes  "@, muted),
        screen::span("Ctrl+t/w"@, screen::bold(Role::Orange)),
        screen::span(":tab  "@, muted),
        screen::span("Ctrl+c"@, screen::bold(Role::Red)),
        screen::span(":quit  "@, muted),
        screen::span("Esc"@, screen::bold(Role::Yellow)),
        screen::span(":normal"@, muted),
    ]
}

/// The keys of the layout.
pub fn render_footer() -> (r: Vec<Span>)
    ensures
        r.deep_view() == footer_spans(),
{
    let muted = fg_style(Role::TextMuted);
    let mut r = empty_line();
    add_span(&mut r, "  s/v", bold_style(Role::Green));
    add_span(&mut r, ":split  ", muted);
    add_span(&mut r, "d", bold_style(Role::Red));
    add_span(&mut r, ":close  ", muted);
    add_span(&mut r, "hjkl", bold_style(Role::Yellow));
    add_span(&mut r, ":nav  ", muted);
    add_span(&mut r, "i", bold_style(Role::Cyan));
    add_span(&mut r, ":input  ", muted);
    add_span(&mut r, "p", bold_style(Role::Magenta));
    add_span(&mut r, ":new_panel  ", muted);
    add_span(&mut r, "t", bold_style(Role::Blue));
    add_span(&mut r, ":themes  ", muted);
    add_span(&mut r, "Ctrl+t/w", bold_style(Role::Orange));
    add_span(&mut r, ":tab  ", muted);
    add_span(&mut r, "Ctrl+c", bold_style(Role::Red));
    add_span(&mut r, ":quit  ", muted);
    add_span(&mut r, "Esc", bold_style(Role::Yellow));
    add_span(&mut r, ":normal", muted);
    assert(r.deep_view() =~= footer_spans());
    r
}

// ── Laws ──

/// The choice never leaves the list.
pub proof fn law_choice_stays_in_the_list(selected: int, count: int, key: Key)
    requires
        0 <= selected < count,
    ensures
        0 <= chosen(selected, count, key).0 < count,
{
}

/// One step down and one up lead back, but at the end of the list.
pub proof fn law_down_then_up(selected: int, count: int)
    requires
        0 <= selected < count - 1,
    ensures
        chosen(chosen(selected, count, Key::Char('j')).0, count, Key::Char('k')).0 == selected,
{
}

/// The selected theme is among those that are shown.
pub proof fn law_selected_theme_is_seen(selected: int, room: int, count: int)
    requires
        0 <= selected < count,
        room > 0,
    ensures
        theme_scroll(selected, room) <= selected < theme_scroll(selected, room) + room,
{
}

/// `j` goes one down and `k` one up in a list, as far as it goes; no other key is of use.
pub proof fn law_going_through_a_list(selected: int, count: int, key: Key)
    requires
        0 <= selected < count,
    ensures
        selected + 1 < count ==> chosen(selected, count, Key::Char('j')) == (selected + 1, true),
        selected + 1 == count ==> chosen(selected, count, Key::Char('j')) == (selected, true),
        selected > 0 ==> chosen(selected, count, Key::Char('k')) == (selected - 1, true),
        selected == 0 ==> chosen(selected, count, Key::Char('k')) == (selected, true),
        key != Key::Char('j') && key != Key::Char('k') ==> chosen(selected, count, key) == (
            selected,
            false,
        ),
{
}

/// The list of the sessions has a row for each, in the order of the numbers, between its head and
/// its foot; a row tells of its session, and only the selected one is marked.
pub proof fn law_the_list_of_sessions(
    table: Map<usize, SessionView>,
    ids: Seq<usize>,
    costs: Seq<Seq<char>>,
    focused: bool,
    selected: int,
    width: u16,
    i: int,
)
    requires
        0 <= i < ids.len(),
    ensures
        ({
            let lines = session_list_lines(table, ids, costs, focused, selected, width);
            let s = table[ids[i]];
            let row = lines[2 + i];
            &&& lines.len() == ids.len() + 4
            &&& row.len() == 7
            &&& row[0].text == (if focused && i == selected {
                " ▸ "@
            } else {
                "   "@
            })
            &&& row[1].text == text::pad_end(text::decimal(ids[i] as nat), 4)
            &&& row[2].text == text::pad_end(s.title, 25)
            &&& s.state is Idle ==> row[3].text == "● idle     "@
            &&& s.state is Running ==> row[3].text == "⟳ running  "@
            &&& s.state is AwaitingPermission ==> row[3].text == "⚠ wait perm"@
            &&& row[4].text == text::pad_end(text::decimal(s.prompt_count as nat), 9)
            &&& row[5].text == "$"@ + text::pad_end(costs[i], 8)
            &&& s.session_id matches Some(sid) ==> row[6].text == text::first_chars(sid, 12)
            &&& s.session_id is None ==> row[6].text == "(new)"@
        }),
{
}

/// Without sessions the list says so.
pub proof fn law_an_empty_list_of_sessions(
    table: Map<usize, SessionView>,
    costs: Seq<Seq<char>>,
    focused: bool,
    selected: int,
    width: u16,
)
    ensures
        ({
            let lines = session_list_lines(table, Seq::empty(), costs, focused, selected, width);
            lines.len() == 5 && lines[2].len() == 1 && lines[2][0].text == "   No active sessions"@
        }),
{
}

/// The list of the themes shows them in their order, as many as there is room for, the selected
/// one among them; each with its name, with a dot at the active one and an arrow at the selected
/// one.
pub proof fn law_the_list_of_themes(
    names: Seq<Seq<char>>,
    current: int,
    selected: int,
    focused: bool,
    width: u16,
    room: int,
    k: int,
)
    requires
        0 <= selected < names.len(),
        room > 0,
        0 <= k < names.len() - theme_scroll(selected, room),
        k < room,
    ensures
        ({
            let lines = theme_lines(names, current, selected, focused, width, room);
            let from = theme_scroll(selected, room);
            let i = from + k;
            let row = lines[2 + k];
            &&& lines.len() == 4 + (if names.len() - from <= room {
                names.len() - from
            } else {
                room
            })
            &&& row.len() == 9
            &&& row[1].text == text::pad_end(names[i], 26)
            &&& row[0].text == (if focused && i == selected {
                if i == current {
                    " ▸●"@
                } else {
                    " ▸ "@
                }
            } else if i == current {
                "  ●"@
            } else {
                "   "@
            })
            &&& selected < room ==> from == 0
        }),
{
}

/// A tab is shown with its label, in their order and with a space between any two; the active one
/// stands out.
pub proof fn law_tabs(labels: Seq<(Seq<char>, bool)>, i: int)
    requires
        0 <= i < labels.len(),
    ensures
        tab_spans(labels).len() == 2 * labels.len() - 1,
        tab_spans(labels)[2 * i].text == " "@ + labels[i].0 + " "@,
        tab_spans(labels)[2 * i].style.bold == labels[i].1,
        i + 1 < labels.len() ==> tab_spans(labels)[2 * i + 1].text == " "@,
    decreases labels.len(),
{
    let init = labels.drop_last();
    if init.len() > 0 {
        law_tabs(
            init,
            if i < init.len() {
                i
            } else {
                0
            },
        );
        if i < init.len() {
            assert(init[i] == labels[i]);
            if i + 1 < init.len() {
            } else {
                assert(tab_spans(labels)[2 * i + 1].text == " "@);
            }
        }
    }
}

/// A rule runs through its width but for its edges.
pub proof fn law_rules(width: u16, role: Role)
    ensures
        rule(width, role).len() == 1,
        width >= 3 ==> rule(width, role)[0].text.len() == width - 1,
{
    reveal_strlit(" ─");
    assert(" ─"@.len() == 2);
}

/// A tile that has the focus has a thick border; one that has not has a thin one.
pub proof fn law_the_border_of_a_tile(title: Role, focused: bool)
    ensures
        tile_block(title, focused).thick == focused,
        focused ==> tile_block(title, focused).border == screen::bold(Role::BorderFocused)
            && tile_block(title, focused).title == screen::bold(title),
        !focused ==> tile_block(title, focused).border == screen::fg(Role::BorderNormal)
            && tile_block(title, focused).title == screen::fg(Role::TextSecondary),
{
}

}
