//! The panel that shows the debug log: filtering, searching, scrolling and exporting it.
use vstd::prelude::*;

use crate::cursor;
use crate::cursor::{bytes_in, split};
use crate::screen;
use crate::screen::{
    add_line, add_span, bold_on_style, empty_line, empty_lines, fg_on_style, fg_style, Role, Span,
    SpanView,
};
use crate::seqs;
use crate::seqs::{find_place, window_bounds};
use crate::session_keys::Key;
use crate::shared;
use crate::text;
use crate::text::{
    cat2, cat3, cat4, cat5, decimal_of, find, has, padded_start, to_lowercase, truncate_chars,
    zero_padded_of,
};

verus! {

#[derive(Clone, Copy, PartialEq, Eq, Structural)]
pub enum LogCategory {
    Error,
    Session,
    Usage,
    Debug,
    Other,
}

/// What an entry is about, by the tags in it; the first tag that is found counts.
pub open spec fn category(msg: Seq<char>) -> LogCategory {
    if text::contains(msg, "[error]"@) || text::contains(msg, "[stderr]"@) {
        LogCategory::Error
    } else if text::contains(msg, "[session]"@) {
        LogCategory::Session
    } else if text::contains(msg, "[usage]"@) {
        LogCategory::Usage
    } else if text::contains(msg, "[debug]"@) {
        LogCategory::Debug
    } else {
        LogCategory::Other
    }
}

impl LogCategory {
    pub open spec fn number(self) -> int {
        match self {
            LogCategory::Error => 0,
            LogCategory::Session => 1,
            LogCategory::Usage => 2,
            LogCategory::Debug => 3,
            LogCategory::Other => 4,
        }
    }

    pub open spec fn letters(self) -> Seq<char> {
        match self {
            LogCategory::Error => "ERR"@,
            LogCategory::Session => "SES"@,
            LogCategory::Usage => "USE"@,
            LogCategory::Debug => "DBG"@,
            LogCategory::Other => "---"@,
        }
    }

    pub open spec fn role(self) -> Role {
        match self {
            LogCategory::Error => Role::Red,
            LogCategory::Session => Role::Cyan,
            LogCategory::Usage => Role::Green,
            LogCategory::Debug => Role::Orange,
            LogCategory::Other => Role::TextSecondary,
        }
    }

    pub fn classify(msg: &str) -> (r: LogCategory)
        ensures
            r == category(msg@),
    {
        if has(msg, "[error]") || has(msg, "[stderr]") {
            LogCategory::Error
        } else if has(msg, "[session]") {
            LogCategory::Session
        } else if has(msg, "[usage]") {
            LogCategory::Usage
        } else if has(msg, "[debug]") {
            LogCategory::Debug
        } else {
            LogCategory::Other
        }
    }

    pub fn badge(self) -> (r: &'static str)
        ensures
            r@ == self.letters(),
    {
        match self {
            LogCategory::Error => "ERR",
            LogCategory::Session => "SES",
            LogCategory::Usage => "USE",
            LogCategory::Debug => "DBG",
            LogCategory::Other => "---",
        }
    }

    pub fn color(self) -> (r: Role)
        ensures
            r == self.role(),
    {
        match self {
            LogCategory::Error => Role::Red,
            LogCategory::Session => Role::Cyan,
            LogCategory::Usage => Role::Green,
            LogCategory::Debug => Role::Orange,
            LogCategory::Other => Role::TextSecondary,
        }
    }

    pub fn index(self) -> (r: usize)
        ensures
            r == self.number(),
            r < 5,
    {
        match self {
            LogCategory::Error => 0,
            LogCategory::Session => 1,
            LogCategory::Usage => 2,
            LogCategory::Debug => 3,
            LogCategory::Other => 4,
        }
    }
}

/// The panel of the debug log.
pub struct DebugPlugin {
    pub scroll_offset: usize,
    pub auto_scroll: bool,
    pub filter_categories: [bool; 5],
    pub search_active: bool,
    pub search_query: String,
    pub search_matches: Vec<usize>,
    pub search_cursor: usize,
    pub wrap_enabled: bool,
    pub pending_g: bool,
    pub show_help: bool,
    pub filter_preset: usize,
    pub last_visible_height: usize,
}

#[verifier::ext_equal]
pub struct DebugView {
    pub scroll_offset: int,
    pub auto_scroll: bool,
    pub filter_categories: Seq<bool>,
    pub search_active: bool,
    pub search_query: Seq<char>,
    pub search_matches: Seq<int>,
    pub search_cursor: int,
    pub wrap_enabled: bool,
    pub pending_g: bool,
    pub show_help: bool,
    pub filter_preset: int,
    pub last_visible_height: int,
}

impl View for DebugPlugin {
    type V = DebugView;

    open spec fn view(&self) -> DebugView {
        DebugView {
            scroll_offset: self.scroll_offset as int,
            auto_scroll: self.auto_scroll,
            filter_categories: self.filter_categories@,
            search_active: self.search_active,
            search_query: self.search_query@,
            search_matches: seqs::ints(self.search_matches@),
            search_cursor: self.search_cursor as int,
            wrap_enabled: self.wrap_enabled,
            pending_g: self.pending_g,
            show_help: self.show_help,
            filter_preset: self.filter_preset as int,
            last_visible_height: self.last_visible_height as int,
        }
    }
}

/// What a key leaves to do outside the panel.
pub enum DebugAction {
    Nothing,
    /// Put this entry on the clipboard.
    Copy(String),
    /// Write this text to a file; it holds so many entries.
    Export(String, usize),
}

#[verifier::ext_equal]
pub enum DebugActionView {
    Nothing,
    Copy(Seq<char>),
    Export(Seq<char>, int),
}

impl DeepView for DebugAction {
    type V = DebugActionView;

    open spec fn deep_view(&self) -> DebugActionView {
        match self {
            DebugAction::Nothing => DebugActionView::Nothing,
            DebugAction::Copy(t) => DebugActionView::Copy(t@),
            DebugAction::Export(t, n) => DebugActionView::Export(t@, *n as int),
        }
    }
}

/// What comes of a key.
pub struct DebugReply {
    pub consumed: bool,
    pub action: DebugAction,
}

/// The panel after a key, and what the key leaves to do.
#[verifier::ext_equal]
pub struct DebugStep {
    pub panel: DebugView,
    pub consumed: bool,
    pub action: DebugActionView,
}

/// Whether a query stands in an entry, whatever the case of the letters.
pub open spec fn is_hit(msg: Seq<char>, query: Seq<char>) -> bool {
    text::contains(text::lowercase(msg), text::lowercase(query))
}

/// All categories shown, or just the one with that number.
pub open spec fn all_categories() -> Seq<bool> {
    seq![true, true, true, true, true]
}

pub open spec fn only_category(n: int) -> Seq<bool> {
    Seq::new(5, |i: int| i == n)
}

/// Seconds and milliseconds, as the panel shows a moment.
pub open spec fn clock(nanos: nat) -> Seq<char> {
    text::pad_start(text::decimal(nanos / 1_000_000_000), 4) + "."@ + text::zero_padded(
        (nanos / 1_000_000) % 1000,
        3,
    )
}

/// How long after the first entry of a log a moment came.
pub open spec fn since_start(log: Seq<(u64, Seq<char>)>, moment: u64) -> nat {
    if log.len() > 0 && moment >= log[0].0 {
        (moment - log[0].0) as nat
    } else {
        0
    }
}

/// An entry on a line of the exported file.
pub open spec fn export_line(log: Seq<(u64, Seq<char>)>, i: int) -> Seq<char> {
    let (moment, msg) = log[i];
    clock(since_start(log, moment)) + " ["@ + category(msg).letters() + "] "@ + (msg + "\n"@)
}

pub open spec fn export_text(log: Seq<(u64, Seq<char>)>, which: Seq<int>) -> Seq<char>
    decreases which.len(),
{
    if which.len() == 0 {
        Seq::empty()
    } else {
        export_text(log, which.drop_last()) + export_line(log, which.last())
    }
}

impl DebugView {
    pub open spec fn new() -> DebugView {
        DebugView {
            scroll_offset: 0,
            auto_scroll: true,
            filter_categories: all_categories(),
            search_active: false,
            search_query: Seq::empty(),
            search_matches: Seq::empty(),
            search_cursor: 0,
            wrap_enabled: true,
            pending_g: false,
            show_help: false,
            filter_preset: 0,
            last_visible_height: 20,
        }
    }

    /// The cursor of the search points at a hit, where there is one.
    pub open spec fn wf(self) -> bool {
        &&& self.filter_categories.len() == 5
        &&& self.search_matches.len() > 0 ==> self.search_cursor < self.search_matches.len()
        &&& 0 <= self.filter_preset < 3
    }

    /// Whether an entry is shown.
    pub open spec fn shows(self, msg: Seq<char>) -> bool {
        self.filter_categories[category(msg).number()] && (self.search_active
            && self.search_query.len() > 0 ==> is_hit(msg, self.search_query))
    }

    /// The entries that are shown, by their numbers.
    pub open spec fn filtered(self, log: Seq<(u64, Seq<char>)>) -> Seq<int> {
        seqs::positions(log, |e: (u64, Seq<char>)| self.shows(e.1))
    }

    /// The search after its query has changed.
    pub open spec fn searched(self, log: Seq<(u64, Seq<char>)>) -> DebugView {
        if self.search_query.len() == 0 {
            DebugView { search_matches: Seq::empty(), search_cursor: 0, ..self }
        } else {
            let hits = seqs::positions(
                log,
                |e: (u64, Seq<char>)| is_hit(e.1, self.search_query),
            );
            DebugView {
                search_matches: hits,
                search_cursor: if self.search_cursor >= hits.len() {
                    0
                } else {
                    self.search_cursor
                },
                ..self
            }
        }
    }

    /// A key that the panel has used, and that leaves nothing to do.
    pub open spec fn used(self) -> DebugStep {
        DebugStep { panel: self, consumed: true, action: DebugActionView::Nothing }
    }

    /// A key while the query is typed.
    pub open spec fn search_step(self, key: Key, log: Seq<(u64, Seq<char>)>) -> DebugStep {
        match key {
            Key::Escape | Key::Enter => DebugView {
                search_active: false,
                search_matches: if self.search_query.len() == 0 {
                    Seq::empty()
                } else {
                    self.search_matches
                },
                ..self
            }.used(),
            Key::Backspace => DebugView {
                search_query: if self.search_query.len() == 0 {
                    Seq::empty()
                } else {
                    self.search_query.drop_last()
                },
                ..self
            }.searched(log).used(),
            Key::Char(c) => DebugView { search_query: self.search_query.push(c), ..self }.searched(
                log,
            ).used(),
            _ => self.used(),
        }
    }

    /// How far from the newest entry the panel is scrolled.
    pub open spec fn scroll(self) -> int {
        if self.auto_scroll {
            0
        } else {
            self.scroll_offset
        }
    }

    /// Scrolled by hand, so that the newest entries are not followed any more.
    pub open spec fn scrolled_to(self, offset: int) -> DebugView {
        DebugView { scroll_offset: offset, auto_scroll: false, ..self }
    }

    /// Scrolled to the hit that the cursor points at, where it is shown.
    pub open spec fn at_hit(self, log: Seq<(u64, Seq<char>)>) -> DebugView {
        let shown = self.filtered(log);
        match seqs::place_of(shown, self.search_matches[self.search_cursor]) {
            Some(place) => self.scrolled_to(shown.len() - 1 - place),
            None => self,
        }
    }

    pub open spec fn toggled(self, n: int) -> DebugView {
        DebugView {
            filter_categories: self.filter_categories.update(n, !self.filter_categories[n]),
            ..self
        }
    }

    /// The number of the entry that stands at the top of the panel.
    pub open spec fn top_entry(self, log: Seq<(u64, Seq<char>)>) -> Option<int> {
        let shown = self.filtered(log);
        let below = self.scroll() + self.last_visible_height;
        let top = if shown.len() >= below {
            shown.len() - below
        } else {
            0
        };
        if top < shown.len() {
            Some(shown[top])
        } else {
            None
        }
    }

    /// A letter while no query is typed.
    pub open spec fn letter_step(
        self,
        c: char,
        ctrl: bool,
        log: Seq<(u64, Seq<char>)>,
    ) -> DebugStep {
        let half = self.last_visible_height / 2;
        if c == 'j' {
            self.scrolled_to(
                if self.scroll_offset > 0 {
                    self.scroll_offset - 1
                } else {
                    self.scroll_offset
                },
            ).used()
        } else if c == 'k' {
            self.scrolled_to(self.scroll_offset + 1).used()
        } else if c == 'G' {
            DebugView { scroll_offset: 0, auto_scroll: true, ..self }.used()
        } else if c == 'g' {
            DebugView { pending_g: true, ..self }.used()
        } else if c == 'd' && ctrl {
            self.scrolled_to(
                if self.scroll_offset >= half {
                    self.scroll_offset - half
                } else {
                    0
                },
            ).used()
        } else if c == 'u' && ctrl {
            self.scrolled_to(self.scroll_offset + half).used()
        } else if c == '/' {
            DebugView {
                search_active: true,
                search_query: Seq::empty(),
                search_matches: Seq::empty(),
                search_cursor: 0,
                ..self
            }.used()
        } else if c == 'n' {
            if self.search_matches.len() > 0 {
                DebugView {
                    search_cursor: (self.search_cursor + 1) % (self.search_matches.len() as int),
                    ..self
                }.at_hit(log).used()
            } else {
                self.used()
            }
        } else if c == 'N' {
            if self.search_matches.len() > 0 {
                DebugView {
                    search_cursor: if self.search_cursor == 0 {
                        self.search_matches.len() - 1
                    } else {
                        self.search_cursor - 1
                    },
                    ..self
                }.at_hit(log).used()
            } else {
                self.used()
            }
        } else if '1' <= c <= '5' {
            self.toggled(c as int - '1' as int).used()
        } else if c == '0' {
            DebugView { filter_categories: all_categories(), ..self }.used()
        } else if c == 'f' {
            let preset = (self.filter_preset + 1) % 3;
            DebugView {
                filter_preset: preset,
                filter_categories: if preset == 0 {
                    all_categories()
                } else {
                    only_category(preset - 1)
                },
                ..self
            }.used()
        } else if c == 'F' {
            DebugView {
                auto_scroll: !self.auto_scroll,
                scroll_offset: if self.auto_scroll {
                    self.scroll_offset
                } else {
                    0
                },
                ..self
            }.used()
        } else if c == 'w' {
            DebugView { wrap_enabled: !self.wrap_enabled, ..self }.used()
        } else if c == 'y' {
            match self.top_entry(log) {
                Some(i) => DebugStep { action: DebugActionView::Copy(log[i].1), ..self.used() },
                None => self.used(),
            }
        } else if c == 's' {
            let shown = self.filtered(log);
            DebugStep {
                action: DebugActionView::Export(export_text(log, shown), shown.len() as int),
                ..self.used()
            }
        } else if c == '?' {
            DebugView { show_help: !self.show_help, ..self }.used()
        } else {
            DebugStep { consumed: false, ..self.used() }
        }
    }

    /// A key while no query is typed. The second `g` of two jumps to the oldest entry.
    pub open spec fn plain_step(
        self,
        key: Key,
        ctrl: bool,
        log: Seq<(u64, Seq<char>)>,
    ) -> DebugStep {
        let s = DebugView { pending_g: false, ..self };
        match key {
            Key::Char(c) => if self.pending_g && c == 'g' {
                let n = s.filtered(log).len();
                s.scrolled_to(
                    if n > 0 {
                        n - 1
                    } else {
                        0
                    },
                ).used()
            } else {
                s.letter_step(c, ctrl, log)
            },
            _ => DebugStep { consumed: false, ..s.used() },
        }
    }

    /// What a key makes of the panel.
    pub open spec fn key_step(
        self,
        key: Key,
        ctrl: bool,
        log: Seq<(u64, Seq<char>)>,
    ) -> DebugStep {
        if self.search_active {
            self.search_step(key, log)
        } else {
            self.plain_step(key, ctrl, log)
        }
    }

    /// The counters have room for what a key adds to them.
    pub open spec fn room_for(self, key: Key, ctrl: bool) -> bool {
        self.search_active || match key {
            Key::Char(c) => {
                &&& c == 'k' ==> self.scroll_offset < usize::MAX
                &&& c == 'u' && ctrl ==> self.scroll_offset + self.last_visible_height / 2
                    <= usize::MAX
                &&& c == 'y' ==> self.scroll() + self.last_visible_height <= usize::MAX
            },
            _ => true,
        }
    }
}

// ── The keys ──

fn used() -> (r: DebugReply)
    ensures
        r.consumed,
        r.action is Nothing,
{
    DebugReply { consumed: true, action: DebugAction::Nothing }
}

fn clock_of(nanos: u64) -> (r: String)
    ensures
        r@ == clock(nanos as nat),
{
    let secs = decimal_of(nanos / 1_000_000_000);
    let ms = zero_padded_of((nanos / 1_000_000) % 1000, 3);
    cat3(padded_start(secs.as_str(), 4).as_str(), ".", ms.as_str())
}

fn since_first(log: &Vec<(u64, String)>, moment: u64) -> (r: u64)
    ensures
        r == since_start(shared::entries(log@), moment),
{
    if log.len() > 0 {
        assert(shared::entries(log@)[0].0 == log@[0].0);
        moment.saturating_sub(log[0].0)
    } else {
        0
    }
}

impl DebugReply {
    /// Whether this is what `step` says, next to the panel `after`.
    pub open spec fn is(self, after: DebugView, step: DebugStep) -> bool {
        &&& after == step.panel
        &&& self.consumed == step.consumed
        &&& self.action.deep_view() == step.action
    }
}

impl DebugPlugin {
    /// The panel as it opens, and what the debug log says of it.
    pub fn new() -> (r: (DebugPlugin, String))
        ensures
            r.0@ == DebugView::new(),
            r.0@.wf(),
            r.1@ == "[debug] Debug panel opened"@,
    {
        let panel = DebugPlugin {
            scroll_offset: 0,
            auto_scroll: true,
            filter_categories: [true, true, true, true, true],
            search_active: false,
            search_query: String::new(),
            search_matches: Vec::new(),
            search_cursor: 0,
            wrap_enabled: true,
            pending_g: false,
            show_help: false,
            filter_preset: 0,
            last_visible_height: 20,
        };
        assert(panel@.filter_categories =~= all_categories());
        assert(panel@.search_matches =~= Seq::<int>::empty());
        (panel, "[debug] Debug panel opened".to_string())
    }

    /// The entries that are shown, by their numbers.
    pub fn filtered_indices(&self, debug_log: &Vec<(u64, String)>) -> (r: Vec<usize>)
        ensures
            seqs::ints(r@) == self@.filtered(shared::entries(debug_log@)),
    {
        let query_lower = to_lowercase(self.search_query.as_str());
        let by_query = self.search_active && !self.search_query.as_str().is_empty();
        let ghost all = shared::entries(debug_log@);
        let ghost f = |e: (u64, Seq<char>)| self@.shows(e.1);
        let mut r: Vec<usize> = Vec::new();
        let mut i: usize = 0;
        assert(all.take(0) == Seq::<(u64, Seq<char>)>::empty());
        assert(seqs::ints(r@) =~= Seq::<int>::empty());
        while i < debug_log.len()
            invariant
                i <= debug_log@.len(),
                all == shared::entries(debug_log@),
                f == (|e: (u64, Seq<char>)| self@.shows(e.1)),
                query_lower@ == text::lowercase(self.search_query@),
                by_query == (self.search_active && self.search_query@.len() > 0),
                seqs::ints(r@) == seqs::positions(all.take(i as int), f),
            decreases debug_log@.len() - i,
        {
            proof {
                seqs::lemma_positions_step(all, i as int, f);
            }
            let msg = debug_log[i].1.as_str();
            assert(all[i as int].1 == msg@);
            let cat = LogCategory::classify(msg);
            let shown = self.filter_categories[cat.index()] && (!by_query || has(
                to_lowercase(msg).as_str(),
                query_lower.as_str(),
            ));
            assert(shown == f(all[i as int]));
            if shown {
                let ghost before = seqs::ints(r@);
                r.push(i);
                assert(seqs::ints(r@) =~= before.push(i as int));
            }
            i += 1;
        }
        assert(all.take(i as int) == all);
        r
    }

    /// Searches anew, after the query has changed.
    pub fn update_search_matches(&mut self, debug_log: &Vec<(u64, String)>)
        ensures
            final(self)@ == old(self)@.searched(shared::entries(debug_log@)),
    {
        if self.search_query.as_str().is_empty() {
            self.search_matches = Vec::new();
            self.search_cursor = 0;
            assert(self@.search_matches =~= Seq::<int>::empty());
            return;
        }
        let query_lower = to_lowercase(self.search_query.as_str());
        let ghost all = shared::entries(debug_log@);
        let ghost query = self.search_query@;
        let ghost f = |e: (u64, Seq<char>)| is_hit(e.1, query);
        let mut r: Vec<usize> = Vec::new();
        let mut i: usize = 0;
        assert(all.take(0) == Seq::<(u64, Seq<char>)>::empty());
        assert(seqs::ints(r@) =~= Seq::<int>::empty());
        while i < debug_log.len()
            invariant
                i <= debug_log@.len(),
                all == shared::entries(debug_log@),
                f == (|e: (u64, Seq<char>)| is_hit(e.1, query)),
                query_lower@ == text::lowercase(query),
                seqs::ints(r@) == seqs::positions(all.take(i as int), f),
            decreases debug_log@.len() - i,
        {
            proof {
                seqs::lemma_positions_step(all, i as int, f);
            }
            let msg = debug_log[i].1.as_str();
            assert(all[i as int].1 == msg@);
            if has(to_lowercase(msg).as_str(), query_lower.as_str()) {
                let ghost before = seqs::ints(r@);
                r.push(i);
                assert(seqs::ints(r@) =~= before.push(i as int));
            }
            i += 1;
        }
        assert(all.take(i as int) == all);
        assert(f == (|e: (u64, Seq<char>)| is_hit(e.1, old(self)@.search_query)));
        if self.search_cursor >= r.len() {
            self.search_cursor = 0;
        }
        self.search_matches = r;
    }

    fn search_key(&mut self, key: Key, debug_log: &Vec<(u64, String)>) -> (r: DebugReply)
        ensures
            r.is(final(self)@, old(self)@.search_step(key, shared::entries(debug_log@))),
    {
        match key {
            Key::Escape | Key::Enter => {
                self.search_active = false;
                if self.search_query.as_str().is_empty() {
                    self.search_matches = Vec::new();
                    assert(self@.search_matches =~= Seq::<int>::empty());
                }
            },
            Key::Backspace => {
                let n: usize = self.search_query.as_str().unicode_len();
                if n > 0 {
                    let shorter = truncate_chars(self.search_query.as_str(), n - 1).to_string();
                    assert(shorter@ == self.search_query@.drop_last());
                    self.search_query = shorter;
                }
                assert(n == 0 ==> self.search_query@ =~= Seq::<char>::empty());
                self.update_search_matches(debug_log);
            },
            Key::Char(c) => {
                self.search_query.push(c);
                self.update_search_matches(debug_log);
            },
            _ => {},
        }
        used()
    }

    fn go_to_hit(&mut self, debug_log: &Vec<(u64, String)>)
        requires
            old(self)@.search_cursor < old(self)@.search_matches.len(),
        ensures
            final(self)@ == old(self)@.at_hit(shared::entries(debug_log@)),
    {
        let filtered = self.filtered_indices(debug_log);
        let target: usize = self.search_matches[self.search_cursor];
        assert(target as int == self@.search_matches[self.search_cursor as int]);
        if let Some(pos) = find_place(&filtered, target) {
            self.scroll_offset = filtered.len() - 1 - pos;
            self.auto_scroll = false;
        }
    }

    /// The text of the file that the shown entries are exported to, and how many they are.
    pub fn export(&self, debug_log: &Vec<(u64, String)>) -> (r: (String, usize))
        ensures
            ({
                let log = shared::entries(debug_log@);
                r.0@ == export_text(log, self@.filtered(log)) && r.1 == self@.filtered(log).len()
            }),
    {
        let filtered = self.filtered_indices(debug_log);
        let ghost log = shared::entries(debug_log@);
        let ghost which = self@.filtered(log);
        let mut output = String::new();
        let mut i: usize = 0;
        proof {
            seqs::lemma_positions_bounds(log, |e: (u64, Seq<char>)| self@.shows(e.1));
        }
        assert(which.take(0) == Seq::<int>::empty());
        while i < filtered.len()
            invariant
                i <= filtered@.len(),
                log == shared::entries(debug_log@),
                which == seqs::ints(filtered@),
                forall|k: int| 0 <= k < which.len() ==> 0 <= #[trigger] which[k] < log.len(),
                output@ == export_text(log, which.take(i as int)),
            decreases filtered@.len() - i,
        {
            let idx: usize = filtered[i];
            assert(which[i as int] == idx as int);
            assert(which.take(i + 1).drop_last() == which.take(i as int));
            let msg = debug_log[idx].1.as_str();
            assert(log[idx as int] == (debug_log@[idx as int].0, msg@));
            let time = clock_of(since_first(debug_log, debug_log[idx].0));
            let badge = LogCategory::classify(msg).badge();
            let tail = cat2(msg, "\n");
            let line = cat5(time.as_str(), " [", badge, "] ", tail.as_str());
            assert(line@ == export_line(log, idx as int));
            output = output.concat(line.as_str());
            i += 1;
        }
        assert(which.take(i as int) == which);
        (output, filtered.len())
    }

    fn toggle(&mut self, n: usize)
        requires
            n < 5,
        ensures
            final(self)@ == old(self)@.toggled(n as int),
    {
        let mut f = self.filter_categories;
        f[n] = !f[n];
        self.filter_categories = f;
    }

    /// The entry that stands at the top of the panel.
    fn top_text(&self, debug_log: &Vec<(u64, String)>) -> (r: Option<String>)
        requires
            self@.scroll() + self@.last_visible_height <= usize::MAX,
        ensures
            match self@.top_entry(shared::entries(debug_log@)) {
                Some(i) => r is Some && r->0@ == shared::entries(debug_log@)[i].1,
                None => r is None,
            },
    {
        let filtered = self.filtered_indices(debug_log);
        let ghost log = shared::entries(debug_log@);
        proof {
            seqs::lemma_positions_bounds(log, |e: (u64, Seq<char>)| self@.shows(e.1));
        }
        let scroll: usize = if self.auto_scroll {
            0
        } else {
            self.scroll_offset
        };
        let top: usize = filtered.len().saturating_sub(scroll + self.last_visible_height);
        if top < filtered.len() {
            let idx: usize = filtered[top];
            assert(self@.filtered(log)[top as int] == idx as int);
            Some(debug_log[idx].1.clone())
        } else {
            None
        }
    }

    #[verifier::rlimit(60)]
    #[verifier::spinoff_prover]
    fn letter_key(&mut self, c: char, ctrl: bool, debug_log: &Vec<(u64, String)>) -> (r: DebugReply)
        requires
            old(self)@.wf(),
            !old(self)@.search_active,
            old(self)@.room_for(Key::Char(c), ctrl),
        ensures
            r.is(final(self)@, old(self)@.letter_step(c, ctrl, shared::entries(debug_log@))),
    {
        let ghost log = shared::entries(debug_log@);
        if c == 'j' {
            if self.scroll_offset > 0 {
                self.scroll_offset -= 1;
            }
            self.auto_scroll = false;
        } else if c == 'k' {
            self.scroll_offset += 1;
            self.auto_scroll = false;
        } else if c == 'G' {
            self.scroll_offset = 0;
            self.auto_scroll = true;
        } else if c == 'g' {
            self.pending_g = true;
        } else if c == 'd' && ctrl {
            // Ctrl+d: page down (toward newest)
            let half: usize = self.last_visible_height / 2;
            self.scroll_offset = self.scroll_offset.saturating_sub(half);
            self.auto_scroll = false;
        } else if c == 'u' && ctrl {
            // Ctrl+u: page up (toward oldest)
            let half: usize = self.last_visible_height / 2;
            self.scroll_offset += half;
            self.auto_scroll = false;
        } else if c == '/' {
            self.search_active = true;
            self.search_query = String::new();
            self.search_matches = Vec::new();
            self.search_cursor = 0;
            assert(self@.search_matches =~= Seq::<int>::empty());
        } else if c == 'n' {
            // Next search match
            if self.search_matches.len() > 0 {
                self.search_cursor = (self.search_cursor + 1) % self.search_matches.len();
                self.go_to_hit(debug_log);
            }
        } else if c == 'N' {
            // Prev search match
            if self.search_matches.len() > 0 {
                if self.search_cursor == 0 {
                    self.search_cursor = self.search_matches.len() - 1;
                } else {
                    self.search_cursor -= 1;
                }
                self.go_to_hit(debug_log);
            }
        } else if '1' <= c && c <= '5' {
            self.toggle((c as u32 - '1' as u32) as usize);
        } else if c == '0' {
            self.filter_categories = [true, true, true, true, true];
            assert(self@.filter_categories =~= all_categories());
        } else if c == 'f' {
            // Cycle filter presets: all -> errors-only -> sessions-only -> all
            self.filter_preset = (self.filter_preset + 1) % 3;
            if self.filter_preset == 0 {
                self.filter_categories = [true, true, true, true, true];
                assert(self@.filter_categories =~= all_categories());
            } else if self.filter_preset == 1 {
                self.filter_categories = [true, false, false, false, false];
                assert(self@.filter_categories =~= only_category(0));
            } else {
                self.filter_categories = [false, true, false, false, false];
                assert(self@.filter_categories =~= only_category(1));
            }
        } else if c == 'F' {
            self.auto_scroll = !self.auto_scroll;
            if self.auto_scroll {
                self.scroll_offset = 0;
            }
        } else if c == 'w' {
            self.wrap_enabled = !self.wrap_enabled;
        } else if c == 'y' {
            // Copy top-visible entry to clipboard
            return match self.top_text(debug_log) {
                Some(entry) => DebugReply { consumed: true, action: DebugAction::Copy(entry) },
                None => used(),
            };
        } else if c == 's' {
            // Export filtered logs to file
            let (output, n) = self.export(debug_log);
            return DebugReply { consumed: true, action: DebugAction::Export(output, n) };
        } else if c == '?' {
            self.show_help = !self.show_help;
        } else {
            return DebugReply { consumed: false, action: DebugAction::Nothing };
        }
        used()
    }

    /// Takes a key.
    pub fn on_key(&mut self, key: Key, ctrl: bool, debug_log: &Vec<(u64, String)>) -> (r: DebugReply)
        requires
            old(self)@.wf(),
            old(self)@.room_for(key, ctrl),
        ensures
            r.is(final(self)@, old(self)@.key_step(key, ctrl, shared::entries(debug_log@))),
            final(self)@.wf(),
    {
        proof {
            law_debug_keys_keep_wf(self@, key, ctrl, shared::entries(debug_log@));
        }
        // Search input mode
        if self.search_active {
            return self.search_key(key, debug_log);
        }
        let pending_g = self.pending_g;
        self.pending_g = false;
        match key {
            Key::Char(c) => {
                if pending_g && c == 'g' {
                    // gg -> jump to oldest
                    let filtered = self.filtered_indices(debug_log);
                    self.scroll_offset = filtered.len().saturating_sub(1);
                    self.auto_scroll = false;
                    return used();
                }
                self.letter_key(c, ctrl, debug_log)
            },
            _ => DebugReply { consumed: false, action: DebugAction::Nothing },
        }
    }
}

/// What the debug log says once an entry was copied.
pub fn copied_entry_log(entry: &str) -> (r: String)
    ensures
        r@ == "[debug] Copied log entry to clipboard: "@ + text::first_chars(entry@, 60),
{
    cat2("[debug] Copied log entry to clipboard: ", truncate_chars(entry, 60))
}

/// What the debug log says once the entries were written to a file, or could not be.
pub fn exported_log(count: usize, path: &str, error: Option<&str>) -> (r: String)
    ensures
        r@ == (match error {
            None => "[debug] Exported "@ + text::decimal(count as nat) + " entries to "@ + path@,
            Some(e) => "[error] Failed to export logs: "@ + e@,
        }),
{
    match error {
        None => cat4("[debug] Exported ", decimal_of(count as u64).as_str(), " entries to ", path),
        Some(e) => cat2("[error] Failed to export logs: ", e),
    }
}

// ── The picture ──

/// A part of an entry: one that the query was found in, or one between.
pub struct Segment {
    pub text: String,
    pub hit: bool,
}

#[verifier::ext_equal]
pub struct SegmentView {
    pub text: Seq<char>,
    pub hit: bool,
}

impl DeepView for Segment {
    type V = SegmentView;

    open spec fn deep_view(&self) -> SegmentView {
        SegmentView { text: self.text@, hit: self.hit }
    }
}

/// An entry cut where its lower case holds the query. The cuts are counted in bytes; where one
/// would fall into a character of the entry, there are none.
pub open spec fn segments(msg: Seq<char>, lower: Seq<char>, query: Seq<char>) -> Option<
    Seq<SegmentView>,
>
    decreases lower.len(),
{
    if msg.len() == 0 {
        Some(Seq::empty())
    } else {
        match text::first_at(lower, query) {
            None => Some(seq![SegmentView { text: msg, hit: false }]),
            Some(at) => {
                let from = cursor::byte_len(lower.take(at)) as int;
                let size = cursor::byte_len(query) as int;
                let rest = cursor::text_after(msg, from);
                if query.len() == 0 || at < 0 || at + query.len() > lower.len()
                    || !cursor::on_boundary(msg, from) || !cursor::on_boundary(rest, size) {
                    None
                } else {
                    let between = if from > 0 {
                        seq![SegmentView { text: cursor::text_before(msg, from), hit: false }]
                    } else {
                        Seq::empty()
                    };
                    let hit = seq![SegmentView { text: cursor::text_before(rest, size), hit: true }];
                    match segments(
                        cursor::text_after(rest, size),
                        lower.skip(at + query.len()),
                        query,
                    ) {
                        Some(tail) => Some(between + hit + tail),
                        None => None,
                    }
                }
            },
        }
    }
}

/// How a part of an entry looks.
pub open spec fn segment_span(seg: SegmentView, role: Role) -> SpanView {
    if seg.hit {
        screen::span(seg.text, screen::bold_on(Role::Black, Role::PlainYellow))
    } else {
        screen::span(seg.text, screen::fg(role))
    }
}

/// An entry with its hits marked; one that cannot be cut is shown as it is.
pub open spec fn message_spans(
    msg: Seq<char>,
    lower: Seq<char>,
    query: Seq<char>,
    role: Role,
) -> Seq<SpanView> {
    match segments(msg, lower, query) {
        Some(segs) => if msg.len() == 0 {
            seq![screen::span(msg, screen::fg(role))]
        } else {
            segs.map_values(|seg: SegmentView| segment_span(seg, role))
        },
        None => seq![screen::span(msg, screen::fg(role))],
    }
}

/// What the panel is drawn from.
pub struct DebugFrame {
    pub title: String,
    pub lines: Vec<Vec<Span>>,
    /// The line of hints at the bottom of a panel that has the focus.
    pub help: Option<&'static str>,
}

impl DebugView {
    pub open spec fn title(self, log: Seq<(u64, Seq<char>)>) -> Seq<char> {
        let head = "  Debug Log ("@ + text::decimal(self.filtered(log).len()) + "/"@ + (
        text::decimal(log.len()) + ")  "@);
        let searched = if self.search_active {
            head + ("[/"@ + self.search_query + "] "@)
        } else {
            head
        };
        let tailed = if self.auto_scroll {
            searched + "[tail] "@
        } else {
            searched
        };
        if self.wrap_enabled {
            tailed
        } else {
            tailed + "[nowrap] "@
        }
    }

    /// A line of the panel.
    pub open spec fn entry_line(self, log: Seq<(u64, Seq<char>)>, i: int) -> Seq<SpanView> {
        let (moment, msg) = log[i];
        let cat = category(msg);
        let head = seq![
            screen::span(
                " "@ + clock(since_start(log, moment)) + " "@,
                screen::fg(Role::TextMuted),
            ),
            screen::span(cat.letters() + " "@, screen::fg_on(Role::Black, cat.role())),
        ];
        head + (if self.search_active && self.search_query.len() > 0 {
            message_spans(
                msg,
                text::lowercase(msg),
                text::lowercase(self.search_query),
                cat.role(),
            )
        } else {
            seq![screen::span(msg, screen::fg(cat.role()))]
        })
    }

    /// The lines of a panel with room for so many.
    pub open spec fn lines(self, log: Seq<(u64, Seq<char>)>, height: int) -> Seq<Seq<SpanView>> {
        seqs::window(self.filtered(log), self.scroll(), height).map_values(
            |i: int| self.entry_line(log, i),
        )
    }

    pub open spec fn help(self) -> Seq<char> {
        if self.search_active {
            "type to search | Enter/Esc:exit search | n/N:next/prev match"@
        } else if self.show_help {
            "j/k:scroll G:bottom gg:top /:search 1-5:filter F:tail w:wrap y:copy s:save ?:help"@
        } else {
            "j/k:scroll /:search F:tail ?:help"@
        }
    }
}

/// Cuts an entry where its lower case holds the query.
pub fn cut(msg: &str, lower: &str, query: &str) -> (r: Option<Vec<Segment>>)
    ensures
        match segments(msg@, lower@, query@) {
            Some(segs) => r is Some && r->0.deep_view() == segs,
            None => r is None,
        },
{
    let mut segs: Vec<Segment> = Vec::new();
    let mut rest = msg;
    let mut below = lower;
    let size: usize = bytes_in(query);
    let qn: usize = query.unicode_len();
    let ghost want = segments(msg@, lower@, query@);
    assert(segs.deep_view() =~= Seq::<SegmentView>::empty());
    proof {
        if let Some(s) = want {
            assert(Seq::<SegmentView>::empty() + s == s);
        }
    }
    while !rest.is_empty()
        invariant
            want == segments(msg@, lower@, query@),
            size == cursor::byte_len(query@),
            qn == query@.len(),
            match segments(rest@, below@, query@) {
                Some(tail) => want == Some(segs.deep_view() + tail),
                None => want is None,
            },
        decreases below@.len(),
    {
        match find(below, query) {
            None => {
                let ghost before = segs.deep_view();
                segs.push(Segment { text: rest.to_string(), hit: false });
                assert(segs.deep_view() =~= before + seq![
                    SegmentView { text: rest@, hit: false },
                ]);
                return Some(segs);
            },
            Some(at) => {
                let n: usize = below.unicode_len();
                let from: usize = bytes_in(truncate_chars(below, at));
                assert(text::first_chars(below@, at as nat) == below@.take(at as int));
                if qn == 0 || from > bytes_in(rest) || !rest.is_char_boundary(from) {
                    return None;
                }
                let (between, behind) = split(rest, from);
                if size > bytes_in(behind) || !behind.is_char_boundary(size) {
                    return None;
                }
                let (hit, next) = split(behind, size);
                let ghost before = segs.deep_view();
                if from > 0 {
                    segs.push(Segment { text: between.to_string(), hit: false });
                }
                segs.push(Segment { text: hit.to_string(), hit: true });
                let ghost gap = if from > 0 {
                    seq![SegmentView { text: between@, hit: false }]
                } else {
                    Seq::empty()
                };
                let ghost mark = seq![SegmentView { text: hit@, hit: true }];
                assert(segs.deep_view() =~= before + (gap + mark));
                proof {
                    assert(below@.subrange(at + qn, n as int) == below@.skip(at + qn));
                    if let Some(tail) = segments(next@, below@.skip(at + qn), query@) {
                        assert(before + (gap + mark + tail) == (before + (gap + mark)) + tail);
                    }
                }
                rest = next;
                below = below.substring_char(at + qn, n);
            },
        }
    }
    proof {
        assert(segs.deep_view() + Seq::<SegmentView>::empty() == segs.deep_view());
    }
    Some(segs)
}

fn show_message(
    line: &mut Vec<Span>,
    msg: &str,
    lower: &str,
    query: &str,
    role: Role,
)
    ensures
        final(line).deep_view() == old(line).deep_view() + message_spans(
            msg@,
            lower@,
            query@,
            role,
        ),
{
    let ghost start = line.deep_view();
    if msg.is_empty() {
        add_span(line, msg, fg_style(role));
        assert(line.deep_view() =~= start + message_spans(msg@, lower@, query@, role));
        return;
    }
    match cut(msg, lower, query) {
        None => {
            add_span(line, msg, fg_style(role));
            assert(line.deep_view() =~= start + message_spans(msg@, lower@, query@, role));
        },
        Some(segs) => {
            let ghost all = segs.deep_view().map_values(
                |seg: SegmentView| segment_span(seg, role),
            );
            let mut i: usize = 0;
            assert(start + all.take(0) == start);
            while i < segs.len()
                invariant
                    i <= segs@.len(),
                    all == segs.deep_view().map_values(|seg: SegmentView| segment_span(seg, role)),
                    line.deep_view() == start + all.take(i as int),
                decreases segs@.len() - i,
            {
                let seg = &segs[i];
                let style = if seg.hit {
                    bold_on_style(Role::Black, Role::PlainYellow)
                } else {
                    fg_style(role)
                };
                assert(all[i as int] == segment_span(seg.deep_view(), role));
                assert(all.take(i + 1) == all.take(i as int).push(all[i as int]));
                assert(start + all.take(i as int).push(all[i as int]) == (start + all.take(
                    i as int,
                )).push(all[i as int]));
                add_span(line, seg.text.as_str(), style);
                i += 1;
            }
            assert(all.take(i as int) == all);
        },
    }
}

impl DebugPlugin {
    fn show_entry(&self, debug_log: &Vec<(u64, String)>, idx: usize, query_lower: &str) -> (line:
        Vec<Span>)
        requires
            idx < debug_log@.len(),
            query_lower@ == text::lowercase(self@.search_query),
        ensures
            line.deep_view() == self@.entry_line(shared::entries(debug_log@), idx as int),
    {
        let msg = debug_log[idx].1.as_str();
        assert(shared::entries(debug_log@)[idx as int] == (debug_log@[idx as int].0, msg@));
        let time = clock_of(since_first(debug_log, debug_log[idx].0));
        let cat = LogCategory::classify(msg);
        let mut line = empty_line();
        add_span(&mut line, cat3(" ", time.as_str(), " ").as_str(), fg_style(Role::TextMuted));
        add_span(
            &mut line,
            cat2(cat.badge(), " ").as_str(),
            fg_on_style(Role::Black, cat.color()),
        );
        let ghost head = line.deep_view();
        if self.search_active && !self.search_query.as_str().is_empty() {
            show_message(&mut line, msg, to_lowercase(msg).as_str(), query_lower, cat.color());
        } else {
            add_span(&mut line, msg, fg_style(cat.color()));
        }
        assert(line.deep_view() =~= self@.entry_line(shared::entries(debug_log@), idx as int));
        line
    }

    /// What the panel is drawn from; `height` is the room inside its border.
    pub fn render(&self, debug_log: &Vec<(u64, String)>, height: u16, focused: bool) -> (r:
        DebugFrame)
        ensures
            ({
                let log = shared::entries(debug_log@);
                &&& r.title@ == self@.title(log)
                &&& r.lines.deep_view() == self@.lines(
                    log,
                    if focused && height > 0 {
                        height - 1
                    } else {
                        height as int
                    },
                )
                &&& match r.help {
                    Some(help) => focused && height > 1 && help@ == self@.help(),
                    None => !focused || height <= 1,
                }
            }),
    {
        let ghost log = shared::entries(debug_log@);
        let filtered = self.filtered_indices(debug_log);
        let shown = decimal_of(filtered.len() as u64);
        let total = cat2(decimal_of(debug_log.len() as u64).as_str(), ")  ");
        let mut title = cat4("  Debug Log (", shown.as_str(), "/", total.as_str());
        if self.search_active {
            title = title.concat(cat3("[/", self.search_query.as_str(), "] ").as_str());
        }
        if self.auto_scroll {
            title = title.concat("[tail] ");
        }
        if !self.wrap_enabled {
            title = title.concat("[nowrap] ");
        }
        // Reserve 1 line for help bar when focused
        let help_height: u16 = if focused {
            1
        } else {
            0
        };
        let content_height: usize = height.saturating_sub(help_height) as usize;
        let scroll: usize = if self.auto_scroll {
            0
        } else {
            self.scroll_offset
        };
        let query_lower = to_lowercase(self.search_query.as_str());
        let (start, end) = window_bounds(filtered.len(), scroll, content_height);
        let ghost which = seqs::window(self@.filtered(log), self@.scroll(), content_height as int);
        let ghost want = self@.lines(log, content_height as int);
        proof {
            seqs::lemma_positions_bounds(log, |e: (u64, Seq<char>)| self@.shows(e.1));
        }
        let mut lines = empty_lines();
        let mut i: usize = start;
        assert(want.take(0) == Seq::<Seq<SpanView>>::empty());
        while i < end
            invariant
                start <= i <= end <= filtered@.len(),
                log == shared::entries(debug_log@),
                seqs::ints(filtered@) == self@.filtered(log),
                query_lower@ == text::lowercase(self@.search_query),
                which == self@.filtered(log).subrange(start as int, end as int),
                want == which.map_values(|k: int| self@.entry_line(log, k)),
                forall|k: int|
                    0 <= k < filtered@.len() ==> 0 <= #[trigger] self@.filtered(log)[k] < log.len(),
                lines.deep_view() == want.take(i - start),
            decreases end - i,
        {
            let idx: usize = filtered[i];
            assert(self@.filtered(log)[i as int] == idx as int);
            assert(which[i - start] == idx as int);
            assert(want[i - start] == self@.entry_line(log, idx as int));
            let line = self.show_entry(debug_log, idx, query_lower.as_str());
            assert(want.take(i + 1 - start) == want.take(i - start).push(want[i - start]));
            add_line(&mut lines, line);
            i += 1;
        }
        assert(want.take(end - start) == want);
        let help = if focused && height > 1 {
            Some(
                if self.search_active {
                    "type to search | Enter/Esc:exit search | n/N:next/prev match"
                } else if self.show_help {
                    "j/k:scroll G:bottom gg:top /:search 1-5:filter F:tail w:wrap y:copy s:save ?:help"
                } else {
                    "j/k:scroll /:search F:tail ?:help"
                },
            )
        } else {
            None
        };
        DebugFrame { title, lines, help }
    }
}

// ── Laws ──

/// Every key keeps the panel well formed.
pub proof fn law_debug_keys_keep_wf(
    s: DebugView,
    key: Key,
    ctrl: bool,
    log: Seq<(u64, Seq<char>)>,
)
    requires
        s.wf(),
    ensures
        s.key_step(key, ctrl, log).panel.wf(),
{
}

/// The entries that are shown are those of the log that pass the filter, each once and in the
/// order of the log.
pub proof fn law_shown_entries(s: DebugView, log: Seq<(u64, Seq<char>)>)
    ensures
        forall|i: int, j: int|
            0 <= i < j < s.filtered(log).len() ==> s.filtered(log)[i] < s.filtered(log)[j],
        forall|k: int| 0 <= k < log.len() ==> (s.filtered(log).contains(k) <==> s.shows(#[trigger] log[k].1)),
        forall|i: int|
            0 <= i < s.filtered(log).len() ==> 0 <= #[trigger] s.filtered(log)[i] < log.len(),
    decreases log.len(),
{
    let f = |e: (u64, Seq<char>)| s.shows(e.1);
    seqs::lemma_positions_bounds(log, f);
    assert forall|k: int| 0 <= k < log.len() implies (s.filtered(log).contains(k) <==> s.shows(
        #[trigger] log[k].1,
    )) by {
        seqs::lemma_positions_hold(log, f, k);
    }
}

/// Without a filter and a query the whole log is shown.
pub proof fn law_unfiltered_log(s: DebugView, log: Seq<(u64, Seq<char>)>)
    requires
        s.filter_categories == all_categories(),
        !s.search_active || s.search_query.len() == 0,
    ensures
        s.filtered(log).len() == log.len(),
    decreases log.len(),
{
    if log.len() > 0 {
        law_unfiltered_log(s, log.drop_last());
    }
}

/// Three presses of `f` and two presses of any filter key lead back.
pub proof fn law_filters_lead_back(s: DebugView, n: int, log: Seq<(u64, Seq<char>)>)
    requires
        s.wf(),
        0 <= n < 5,
    ensures
        s.toggled(n).toggled(n) == s,
        s.filter_preset == 0 && s.filter_categories == all_categories() ==> s.letter_step(
            'f',
            false,
            log,
        ).panel.letter_step('f', false, log).panel.letter_step('f', false, log).panel == s,
{
    assert(s.toggled(n).toggled(n).filter_categories =~= s.filter_categories);
}

/// Going to the next hit and back leads to the same hit.
pub proof fn law_next_then_previous(s: DebugView, log: Seq<(u64, Seq<char>)>)
    requires
        s.wf(),
        0 <= s.search_cursor,
        s.search_matches.len() > 0,
    ensures
        s.letter_step('n', false, log).panel.letter_step('N', false, log).panel.search_cursor
            == s.search_cursor,
{
    let n = s.search_matches.len() as int;
    if s.search_cursor + 1 == n {
        assert((s.search_cursor + 1) % n == 0) by (nonlinear_arith)
            requires
                s.search_cursor + 1 == n,
                n > 0,
        ;
    } else {
        assert((s.search_cursor + 1) % n == s.search_cursor + 1) by (nonlinear_arith)
            requires
                0 <= s.search_cursor + 1 < n,
        ;
    }
}

/// The parts that an entry is cut into, one after the other.
pub open spec fn glued(segs: Seq<SegmentView>) -> Seq<char>
    decreases segs.len(),
{
    if segs.len() == 0 {
        Seq::empty()
    } else {
        segs[0].text + glued(segs.drop_first())
    }
}

/// Marking the hits loses nothing of an entry: the parts together are the entry, and each hit is
/// as long as the query.
pub proof fn law_parts_make_the_entry(msg: Seq<char>, lower: Seq<char>, query: Seq<char>)
    requires
        segments(msg, lower, query) is Some,
    ensures
        glued(segments(msg, lower, query)->0) == msg,
        forall|i: int|
            0 <= i < segments(msg, lower, query)->0.len() && (#[trigger] segments(
                msg,
                lower,
                query,
            )->0[i]).hit ==> cursor::byte_len(segments(msg, lower, query)->0[i].text)
                == cursor::byte_len(query),
    decreases lower.len(),
{
    let segs = segments(msg, lower, query)->0;
    if msg.len() > 0 {
        match text::first_at(lower, query) {
            None => {
                assert(segs.drop_first() == Seq::<SegmentView>::empty());
                assert(glued(segs) == msg + glued(Seq::empty()));
                assert(msg + Seq::<char>::empty() == msg);
            },
            Some(at) => {
                let from = cursor::byte_len(lower.take(at)) as int;
                let size = cursor::byte_len(query) as int;
                let rest = cursor::text_after(msg, from);
                let next = cursor::text_after(rest, size);
                let below = lower.skip(at + query.len());
                law_parts_make_the_entry(next, below, query);
                cursor::lemma_split(msg, from);
                cursor::lemma_split(rest, size);
                let tail = segments(next, below, query)->0;
                let hit = SegmentView { text: cursor::text_before(rest, size), hit: true };
                let from_hit = seq![hit] + tail;
                assert(from_hit.drop_first() == tail);
                assert(glued(from_hit) == hit.text + next);
                if from > 0 {
                    assert(segs.drop_first() == from_hit);
                    assert(glued(segs) == cursor::text_before(msg, from) + rest);
                } else {
                    assert(segs == from_hit);
                    assert(cursor::text_before(msg, from) + rest == rest);
                }
                assert forall|i: int| 0 <= i < segs.len() && (#[trigger] segs[i]).hit implies
                    cursor::byte_len(segs[i].text) == size by {
                    let k = if from > 0 {
                        i - 2
                    } else {
                        i - 1
                    };
                    if k >= 0 {
                        assert(segs[i] == tail[k]);
                    }
                }
            },
        }
    } else {
        assert(segs == Seq::<SegmentView>::empty());
    }
}

/// An entry is of the first kind that it bears a mark of: an error goes before all others.
pub proof fn law_kinds_of_entries(msg: Seq<char>)
    ensures
        ({
            let error = text::contains(msg, "[error]"@) || text::contains(msg, "[stderr]"@);
            let session = text::contains(msg, "[session]"@);
            let usage = text::contains(msg, "[usage]"@);
            let debug = text::contains(msg, "[debug]"@);
            &&& category(msg) is Error <==> error
            &&& category(msg) is Session <==> session && !error
            &&& category(msg) is Usage <==> usage && !session && !error
            &&& category(msg) is Debug <==> debug && !usage && !session && !error
            &&& category(msg) is Other <==> !debug && !usage && !session && !error
        }),
        0 <= category(msg).number() < 5,
{
}

/// A filter lets through the entries of the kinds that it has; while one searches, only those of
/// them that hold what is searched for, in whatever case it is written.
pub proof fn law_what_the_filter_lets_through(s: DebugView, msg: Seq<char>)
    ensures
        s.shows(msg) ==> s.filter_categories[category(msg).number()],
        !s.search_active || s.search_query.len() == 0 ==> (s.shows(msg)
            <==> s.filter_categories[category(msg).number()]),
        s.search_active && s.search_query.len() > 0 ==> (s.shows(msg)
            <==> s.filter_categories[category(msg).number()] && text::contains(
            text::lowercase(msg),
            text::lowercase(s.search_query),
        )),
{
}

/// The hits of a search are the entries of the log that hold what is searched for, each once and
/// in the order of the log; the cursor stands on one of them.
pub proof fn law_the_hits_of_a_search(s: DebugView, log: Seq<(u64, Seq<char>)>, k: int)
    requires
        s.search_query.len() > 0,
        0 <= k < log.len(),
        0 <= s.search_cursor,
    ensures
        ({
            let t = s.searched(log);
            &&& t.search_matches.contains(k) <==> text::contains(
                text::lowercase(log[k].1),
                text::lowercase(s.search_query),
            )
            &&& forall|i: int, j: int|
                0 <= i < j < t.search_matches.len() ==> t.search_matches[i] < t.search_matches[j]
            &&& t.search_matches.len() > 0 ==> t.search_cursor < t.search_matches.len()
            &&& s.search_cursor < t.search_matches.len() ==> t.search_cursor == s.search_cursor
            &&& t == (DebugView {
                search_matches: t.search_matches,
                search_cursor: t.search_cursor,
                ..s
            })
        }),
{
    let f = |e: (u64, Seq<char>)| is_hit(e.1, s.search_query);
    seqs::lemma_positions_bounds(log, f);
    seqs::lemma_positions_hold(log, f, k);
}

/// While one searches, what is typed is what is searched for, backspace takes the last character
/// away, and Enter or Escape ends the search and keeps the hits.
pub proof fn law_searching(s: DebugView, c: char, ctrl: bool, log: Seq<(u64, Seq<char>)>)
    requires
        s.search_active,
    ensures
        ({
            let typed = s.key_step(Key::Char(c), ctrl, log);
            let erased = s.key_step(Key::Backspace, ctrl, log);
            let ended = s.key_step(Key::Enter, ctrl, log);
            &&& typed.panel.search_query == s.search_query.push(c)
            &&& s.search_query.len() > 0 ==> erased.panel.search_query
                == s.search_query.drop_last()
            &&& s.search_query.len() == 0 ==> erased.panel.search_query.len() == 0
            &&& typed.panel.search_active && erased.panel.search_active
            &&& typed.panel == (DebugView { search_query: s.search_query.push(c), ..s }).searched(
                log,
            )
            &&& !ended.panel.search_active && ended.panel.search_query == s.search_query
            &&& s.search_query.len() > 0 ==> ended.panel.search_matches == s.search_matches
            &&& ended == s.key_step(Key::Escape, ctrl, log)
            &&& typed.action is Nothing && erased.action is Nothing && ended.action is Nothing
            &&& typed.consumed && erased.consumed && ended.consumed
        }),
{
}

/// Whether a panel is another one, scrolled to a place.
pub open spec fn only_scrolled(s: DebugView, t: DebugView) -> bool {
    t == (DebugView { scroll_offset: t.scroll_offset, auto_scroll: false, ..s })
}

/// The letters scroll the log: by a line, by half of what is seen, to its end and, pressed twice,
/// to its beginning. Nothing else of the panel changes.
pub proof fn law_scrolling_the_log(s: DebugView, log: Seq<(u64, Seq<char>)>)
    requires
        !s.search_active,
        !s.pending_g,
        s.scroll_offset >= 0,
        s.last_visible_height >= 0,
    ensures
        ({
            let down = s.key_step(Key::Char('j'), false, log).panel;
            let up = s.key_step(Key::Char('k'), false, log).panel;
            let half_down = s.key_step(Key::Char('d'), true, log).panel;
            let half_up = s.key_step(Key::Char('u'), true, log).panel;
            let end = s.key_step(Key::Char('G'), false, log).panel;
            let g = s.key_step(Key::Char('g'), false, log).panel;
            let top = g.key_step(Key::Char('g'), false, log).panel;
            let half = s.last_visible_height / 2;
            let shown = s.filtered(log).len() as int;
            &&& s.scroll_offset > 0 ==> down.scroll_offset == s.scroll_offset - 1
            &&& s.scroll_offset == 0 ==> down.scroll_offset == 0
            &&& up.scroll_offset == s.scroll_offset + 1
            &&& s.scroll_offset >= half ==> half_down.scroll_offset == s.scroll_offset - half
            &&& s.scroll_offset < half ==> half_down.scroll_offset == 0
            &&& half_up.scroll_offset == s.scroll_offset + half
            &&& end.scroll_offset == 0 && end.auto_scroll
            &&& g == (DebugView { pending_g: true, ..s })
            &&& shown > 0 ==> top.scroll_offset == shown - 1
            &&& shown == 0 ==> top.scroll_offset == 0
            &&& only_scrolled(s, down) && only_scrolled(s, up) && only_scrolled(s, half_down)
            &&& only_scrolled(s, half_up) && only_scrolled(s, top)
            &&& end == (DebugView { scroll_offset: 0, auto_scroll: true, ..s })
        }),
{
    let g = s.key_step(Key::Char('g'), false, log).panel;
    let plain = DebugView { pending_g: false, ..g };
    assert(plain == s);
}

/// Going to the next hit, or the one before, goes round the hits; where that hit is shown at all
/// it is the last entry that is seen.
pub proof fn law_going_to_hits(s: DebugView, log: Seq<(u64, Seq<char>)>, height: int)
    requires
        !s.search_active,
        !s.pending_g,
        0 <= s.search_cursor < s.search_matches.len(),
        height > 0,
    ensures
        ({
            let n = s.search_matches.len() as int;
            let next = s.key_step(Key::Char('n'), false, log).panel;
            let previous = s.key_step(Key::Char('N'), false, log).panel;
            let shown = s.filtered(log);
            let hit = s.search_matches[next.search_cursor];
            &&& s.search_cursor + 1 < n ==> next.search_cursor == s.search_cursor + 1
            &&& s.search_cursor + 1 == n ==> next.search_cursor == 0
            &&& s.search_cursor > 0 ==> previous.search_cursor == s.search_cursor - 1
            &&& s.search_cursor == 0 ==> previous.search_cursor == n - 1
            &&& shown.contains(hit) ==> seqs::window(next.filtered(log), next.scroll(), height).last()
                == hit
            &&& next.search_matches == s.search_matches && next.search_query == s.search_query
                && next.filter_categories == s.filter_categories
        }),
{
    let n = s.search_matches.len() as int;
    let c = s.search_cursor;
    if c + 1 == n {
        assert((c + 1) % n == 0) by (nonlinear_arith)
            requires
                c + 1 == n,
                n > 0,
        ;
    } else {
        assert((c + 1) % n == c + 1) by (nonlinear_arith)
            requires
                0 <= c + 1 < n,
        ;
    }
    let next = s.key_step(Key::Char('n'), false, log).panel;
    let shown = s.filtered(log);
    let hit = s.search_matches[next.search_cursor];
    let moved = DebugView { search_cursor: next.search_cursor, ..s };
    assert(moved.filtered(log) =~= shown) by {
        lemma_same_filter(s, moved, log);
    }
    assert(next.filtered(log) =~= shown) by {
        lemma_same_filter(s, next, log);
    }
    if shown.contains(hit) {
        lemma_place_is_there(shown, hit);
    }
}

/// What is shown hangs on the filter and on the search alone.
proof fn lemma_same_filter(s: DebugView, t: DebugView, log: Seq<(u64, Seq<char>)>)
    requires
        s.filter_categories == t.filter_categories,
        s.search_active == t.search_active,
        s.search_query == t.search_query,
    ensures
        s.filtered(log) == t.filtered(log),
    decreases log.len(),
{
    if log.len() > 0 {
        lemma_same_filter(s, t, log.drop_last());
    }
}

proof fn lemma_place_is_there(s: Seq<int>, x: int)
    ensures
        seqs::place_of(s, x) matches Some(i) ==> 0 <= i < s.len() && s[i] == x,
        s.contains(x) ==> seqs::place_of(s, x) is Some,
    decreases s.len(),
{
    if s.len() > 0 {
        lemma_place_is_there(s.drop_last(), x);
        if s.contains(x) && s.last() != x {
            let i = choose|i: int| 0 <= i < s.len() && s[i] == x;
            assert(s.drop_last()[i] == x);
        }
    }
}

/// A slash begins a search anew; the digits turn the kinds of entries on and off one by one, and
/// zero turns them all on; the other letters turn following, wrapping and the help on and off.
pub proof fn law_switches_of_the_panel(s: DebugView, log: Seq<(u64, Seq<char>)>, n: int, k: int)
    requires
        s.wf(),
        !s.search_active,
        !s.pending_g,
        0 <= n < 5,
        0 <= k < 5,
    ensures
        ({
            let digit = ('1' as int + n) as char;
            let search = s.key_step(Key::Char('/'), false, log).panel;
            let toggled = s.key_step(Key::Char(digit), false, log).panel;
            let all = s.key_step(Key::Char('0'), false, log).panel;
            let tail = s.key_step(Key::Char('F'), false, log).panel;
            let wrap = s.key_step(Key::Char('w'), false, log).panel;
            let help = s.key_step(Key::Char('?'), false, log).panel;
            let preset = s.key_step(Key::Char('f'), false, log).panel;
            &&& search.search_active && search.search_query.len() == 0
                && search.search_matches.len() == 0
            &&& toggled.filter_categories[n] == !s.filter_categories[n]
            &&& k != n ==> toggled.filter_categories[k] == s.filter_categories[k]
            &&& toggled == (DebugView { filter_categories: toggled.filter_categories, ..s })
            &&& all.filter_categories.len() == 5 && all.filter_categories[k]
            &&& tail.auto_scroll == !s.auto_scroll
            &&& !s.auto_scroll ==> tail.scroll_offset == 0
            &&& wrap == (DebugView { wrap_enabled: !s.wrap_enabled, ..s })
            &&& help == (DebugView { show_help: !s.show_help, ..s })
            &&& s.filter_preset == 0 ==> preset.filter_preset == 1 && (preset.filter_categories[k]
                <==> k == 0)
            &&& s.filter_preset == 1 ==> preset.filter_preset == 2 && (preset.filter_categories[k]
                <==> k == 1)
            &&& s.filter_preset == 2 ==> preset.filter_preset == 0 && preset.filter_categories[k]
        }),
{
}

/// Copying takes the entry that is seen first, whole.
pub proof fn law_copying_takes_the_top_entry(s: DebugView, log: Seq<(u64, Seq<char>)>)
    requires
        !s.search_active,
        !s.pending_g,
        0 <= s.scroll() < s.filtered(log).len(),
        s.last_visible_height > 0,
    ensures
        ({
            let r = s.key_step(Key::Char('y'), false, log);
            let seen = seqs::window(s.filtered(log), s.scroll(), s.last_visible_height);
            r.panel == s && r.action == DebugActionView::Copy(log[seen[0]].1)
        }),
{
    let plain = DebugView { pending_g: false, ..s };
    assert(plain == s);
}

/// Saving takes all entries that pass the filter, and tells how many they are.
pub proof fn law_saving_takes_what_is_shown(s: DebugView, log: Seq<(u64, Seq<char>)>)
    requires
        !s.search_active,
        !s.pending_g,
    ensures
        ({
            let r = s.key_step(Key::Char('s'), false, log);
            let shown = s.filtered(log);
            r.panel == s && r.action == DebugActionView::Export(
                export_text(log, shown),
                shown.len() as int,
            )
        }),
{
    let plain = DebugView { pending_g: false, ..s };
    assert(plain == s);
}

/// What is saved are the entries one after the other, each on a line of its own with its moment
/// and its kind in front.
pub proof fn law_what_is_saved(log: Seq<(u64, Seq<char>)>, a: Seq<int>, b: Seq<int>, i: int)
    ensures
        export_text(log, a + b) == export_text(log, a) + export_text(log, b),
        export_text(log, seq![i]) == clock(since_start(log, log[i].0)) + " ["@ + category(
            log[i].1,
        ).letters() + "] "@ + log[i].1 + "\n"@,
        export_text(log, Seq::empty()).len() == 0,
    decreases b.len(),
{
    if b.len() == 0 {
        assert(a + b == a);
        assert(export_text(log, a) + Seq::<char>::empty() == export_text(log, a));
    } else {
        law_what_is_saved(log, a, b.drop_last(), i);
        assert((a + b).drop_last() == a + b.drop_last());
        assert(export_text(log, a) + (export_text(log, b.drop_last()) + export_line(log, b.last()))
            == export_text(log, a) + export_text(log, b.drop_last()) + export_line(log, b.last()));
    }
    assert(seq![i].drop_last() == Seq::<int>::empty());
    assert(export_text(log, Seq::<int>::empty()) == Seq::<char>::empty());
    assert(export_text(log, seq![i]) =~= clock(since_start(log, log[i].0)) + " ["@ + category(
        log[i].1,
    ).letters() + "] "@ + log[i].1 + "\n"@);
}

/// A moment is shown in seconds with three digits behind the point: the digits before it read as
/// the whole seconds, those behind it as the thousandths.
pub proof fn law_the_clock(nanos: nat)
    ensures
        ({
            let c = clock(nanos);
            let n = c.len() as int;
            &&& n >= 8
            &&& c[n - 4] == '.'
            &&& text::number_of(c.skip(n - 3)) == (nanos / 1_000_000) % 1000
            &&& c.take(n - 4) == text::pad_start(text::decimal(nanos / 1_000_000_000), 4)
        }),
{
    let head = text::pad_start(text::decimal(nanos / 1_000_000_000), 4);
    let ms = (nanos / 1_000_000) % 1000;
    let tail = text::zero_padded(ms, 3);
    reveal_strlit(".");
    text::law_padding(text::decimal(nanos / 1_000_000_000), 4);
    text::law_zero_padded(ms, 3);
    lemma_three_digits(ms);
    let c = clock(nanos);
    let n = c.len() as int;
    assert(c.skip(n - 3) =~= tail);
    assert(c.take(n - 4) =~= head);
}

proof fn lemma_three_digits(n: nat)
    requires
        n < 1000,
    ensures
        text::decimal(n).len() <= 3,
{
    reveal_with_fuel(text::decimal, 4);
}

/// Moments count from the first entry of the log.
pub proof fn law_moments_count_from_the_first(log: Seq<(u64, Seq<char>)>, moment: u64)
    ensures
        log.len() > 0 && moment >= log[0].0 ==> since_start(log, moment) + log[0].0 == moment,
        log.len() > 0 && moment < log[0].0 ==> since_start(log, moment) == 0,
{
}

/// The panel shows the entries that pass the filter, the newest last, as many as there is room
/// for; scrolled, as many of the newest are left out.
pub proof fn law_what_the_panel_shows(
    s: DebugView,
    log: Seq<(u64, Seq<char>)>,
    height: int,
    i: int,
)
    requires
        0 <= s.scroll_offset,
        0 <= height,
    ensures
        ({
            let lines = s.lines(log, height);
            let shown = s.filtered(log);
            let scroll = if s.auto_scroll {
                0
            } else {
                s.scroll_offset
            };
            &&& lines.len() <= height
            &&& scroll + height <= shown.len() ==> lines.len() == height
            &&& scroll <= shown.len() <= scroll + height ==> lines.len() == shown.len() - scroll
            &&& 0 <= i < lines.len() ==> lines[lines.len() - 1 - i] == s.entry_line(
                log,
                shown[shown.len() - scroll - 1 - i],
            )
        }),
{
    seqs::law_window(s.filtered(log), s.scroll(), height, i);
}

/// An entry is shown with its moment, its kind and, while nothing is searched for, its whole text.
pub proof fn law_how_an_entry_is_shown(s: DebugView, log: Seq<(u64, Seq<char>)>, i: int)
    ensures
        ({
            let line = s.entry_line(log, i);
            &&& line.len() >= 2
            &&& line[0].text == " "@ + clock(since_start(log, log[i].0)) + " "@
            &&& line[1].text == category(log[i].1).letters() + " "@
            &&& !s.search_active || s.search_query.len() == 0 ==> line.len() == 3 && line[2].text
                == log[i].1
        }),
{
}

/// The texts of some spans, one after the other.
pub open spec fn span_texts(spans: Seq<SpanView>) -> Seq<char>
    decreases spans.len(),
{
    if spans.len() == 0 {
        Seq::empty()
    } else {
        spans[0].text + span_texts(spans.drop_first())
    }
}

proof fn lemma_span_texts(segs: Seq<SegmentView>, role: Role)
    ensures
        span_texts(segs.map_values(|seg: SegmentView| segment_span(seg, role))) == glued(segs),
    decreases segs.len(),
{
    let spans = segs.map_values(|seg: SegmentView| segment_span(seg, role));
    if segs.len() > 0 {
        lemma_span_texts(segs.drop_first(), role);
        assert(spans.drop_first() =~= segs.drop_first().map_values(
            |seg: SegmentView| segment_span(seg, role),
        ));
    }
}

/// While something is searched for, an entry is shown whole too: its parts together are its text.
pub proof fn law_an_entry_is_shown_whole(
    msg: Seq<char>,
    lower: Seq<char>,
    query: Seq<char>,
    role: Role,
)
    ensures
        span_texts(message_spans(msg, lower, query, role)) == msg,
{
    let alone = seq![screen::span(msg, screen::fg(role))];
    assert(alone.drop_first() == Seq::<SpanView>::empty());
    assert(span_texts(alone) == msg + span_texts(Seq::<SpanView>::empty()));
    assert(msg + Seq::<char>::empty() == msg);
    if let Some(segs) = segments(msg, lower, query) {
        law_parts_make_the_entry(msg, lower, query);
        lemma_span_texts(segs, role);
    }
}

/// The title tells how many entries are shown and how many there are.
pub proof fn law_the_title_counts(s: DebugView, log: Seq<(u64, Seq<char>)>)
    ensures
        text::starts_with(
            s.title(log),
            "  Debug Log ("@ + text::decimal(s.filtered(log).len()) + "/"@ + text::decimal(
                log.len(),
            ) + ")  "@,
        ),
{
    let head = "  Debug Log ("@ + text::decimal(s.filtered(log).len()) + "/"@ + text::decimal(
        log.len(),
    ) + ")  "@;
    let t = s.title(log);
    assert(t.take(head.len() as int) =~= head);
}

/// Every kind of entry has its own letters, its own colour and its own place among the filters.
pub proof fn law_kinds_are_told_apart(a: LogCategory, b: LogCategory)
    ensures
        a.number() == b.number() ==> a == b,
        a.role() == b.role() ==> a == b,
        a.letters() == b.letters() ==> a == b,
        a.letters().len() == 3,
        LogCategory::Error.number() == 0 && LogCategory::Error.letters() == "ERR"@
            && LogCategory::Error.role() == Role::Red,
{
    reveal_strlit("ERR");
    reveal_strlit("SES");
    reveal_strlit("USE");
    reveal_strlit("DBG");
    reveal_strlit("---");
    assert("ERR"@[0] == 'E' && "SES"@[0] == 'S' && "USE"@[0] == 'U' && "DBG"@[0] == 'D');
    assert("---"@[0] == '-');
}

/// A new panel follows the end of the log, with every kind of entry and nothing searched for.
pub proof fn law_a_new_panel(log: Seq<(u64, Seq<char>)>)
    ensures
        DebugView::new().wf(),
        DebugView::new().filtered(log).len() == log.len(),
        DebugView::new().auto_scroll && DebugView::new().scroll() == 0,
        !DebugView::new().search_active,
        DebugView::new().wrap_enabled && !DebugView::new().show_help && !DebugView::new().pending_g,
        DebugView::new().search_query.len() == 0 && DebugView::new().search_matches.len() == 0,
{
    law_unfiltered_log(DebugView::new(), log);
}

/// There is room for every key as long as the log is not scrolled to the end of all numbers.
pub proof fn law_there_is_room_for_debug_keys(s: DebugView, key: Key, ctrl: bool)
    requires
        s.last_visible_height >= 0,
        s.scroll_offset >= 0,
        s.scroll_offset + s.last_visible_height < usize::MAX,
    ensures
        s.room_for(key, ctrl),
{
}

/// What is marked in an entry is what was searched for: the first mark lies where it is found
/// first, the next ones in the rest; without a find nothing is marked.
pub proof fn law_hits_are_marked_where_they_are(
    msg: Seq<char>,
    lower: Seq<char>,
    query: Seq<char>,
)
    requires
        msg.len() > 0,
        segments(msg, lower, query) is Some,
    ensures
        ({
            let segs = segments(msg, lower, query)->0;
            &&& text::first_at(lower, query) is None ==> segs == seq![
                SegmentView { text: msg, hit: false },
            ]
            &&& text::first_at(lower, query) matches Some(at) ==> {
                let from = cursor::byte_len(lower.take(at)) as int;
                let size = cursor::byte_len(query) as int;
                let rest = cursor::text_after(msg, from);
                let k: int = if from > 0 {
                    1
                } else {
                    0
                };
                &&& from > 0 ==> !segs[0].hit && segs[0].text == cursor::text_before(msg, from)
                &&& segs[k].hit && segs[k].text == cursor::text_before(rest, size)
                &&& segments(
                    cursor::text_after(rest, size),
                    lower.skip(at + query.len()),
                    query,
                ) == Some(segs.skip(k + 1))
            }
        }),
{
    let segs = segments(msg, lower, query)->0;
    if let Some(at) = text::first_at(lower, query) {
        let from = cursor::byte_len(lower.take(at)) as int;
        let size = cursor::byte_len(query) as int;
        let rest = cursor::text_after(msg, from);
        let k: int = if from > 0 {
            1
        } else {
            0
        };
        let tail = segments(
            cursor::text_after(rest, size),
            lower.skip(at + query.len()),
            query,
        )->0;
        assert(segs.skip(k + 1) =~= tail);
    }
}

/// A mark stands out from the rest of its entry, which has the colour of its kind.
pub proof fn law_marks_stand_out(seg: SegmentView, role: Role)
    ensures
        segment_span(seg, role).text == seg.text,
        seg.hit ==> segment_span(seg, role).style == screen::bold_on(
            Role::Black,
            Role::PlainYellow,
        ),
        !seg.hit ==> segment_span(seg, role).style == screen::fg(role),
{
}

/// Each part of an entry is shown in the style that it has, marked or not.
pub proof fn law_every_part_has_its_style(
    msg: Seq<char>,
    lower: Seq<char>,
    query: Seq<char>,
    role: Role,
    i: int,
)
    requires
        msg.len() > 0,
    ensures
        segments(msg, lower, query) matches Some(segs) ==> message_spans(
            msg,
            lower,
            query,
            role,
        ).len() == segs.len() && (0 <= i < segs.len() ==> message_spans(msg, lower, query, role)[i]
            == segment_span(segs[i], role)),
        segments(msg, lower, query) is None ==> message_spans(msg, lower, query, role) == seq![
            screen::span(msg, screen::fg(role)),
        ],
{
}

}
