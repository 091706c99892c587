//! The panel of the WebSocket service: its picture and its keys.
use vstd::prelude::*;

use crate::cursor;
use crate::cursor::{bytes_in, split};
use crate::screen;
use crate::screen::{
    add_line, add_span, bold_on_style, bold_style, empty_line, empty_lines, fg_style, line_of,
    plain_style, Role, Span, SpanView, Style,
};
use crate::seqs;
use crate::seqs::window_bounds;
use crate::session_keys::Key;
use crate::shared::{ClientView, ModeView, SharedState, SharedView, WsClient, WsMode, WS_PORT};
use crate::text;
use crate::text::{
    cat2, cat3, cat4, decimal_of, has, repeat_char, truncate_chars,
};

verus! {

/// How long it is shown that something was copied: two seconds, in milliseconds.
pub const FLASH_MILLIS: u64 = 2000;

/// The panel of the WebSocket service.
pub struct WebSocketPlugin {
    pub log_scroll: usize,
    /// When something was copied: (moment, label like "Key" or "URL")
    pub copy_flash: Option<(u64, String)>,
    /// Animation tick counter for the flash effect
    pub flash_tick: u64,
}

#[verifier::ext_equal]
pub struct WsPanelView {
    pub log_scroll: int,
    pub copy_flash: Option<(u64, Seq<char>)>,
    pub flash_tick: u64,
}

impl View for WebSocketPlugin {
    type V = WsPanelView;

    open spec fn view(&self) -> WsPanelView {
        WsPanelView {
            log_scroll: self.log_scroll as int,
            copy_flash: match self.copy_flash {
                Some((t, label)) => Some((t, label@)),
                None => None,
            },
            flash_tick: self.flash_tick,
        }
    }
}

/// How many milliseconds have passed since a moment.
pub open spec fn millis_since(moment: u64, now: u64) -> int {
    if now >= moment {
        (now - moment) / 1_000_000
    } else {
        0
    }
}

/// The frames of the animation.
pub open spec fn spinner(tick: u64) -> Seq<char> {
    let n = ((tick as usize) % 9) as int;
    if n <= 1 {
        ">>>"@
    } else if n == 2 {
        ">> "@
    } else if n == 3 {
        ">  "@
    } else if n == 4 {
        "   "@
    } else if n == 5 {
        "  <"@
    } else if n == 6 {
        " <<"@
    } else {
        "<<<"@
    }
}

impl WsPanelView {
    pub open spec fn new() -> WsPanelView {
        WsPanelView { log_scroll: 0, copy_flash: None, flash_tick: 0 }
    }

    /// One tick later: what is shown of a copy goes on while it is shown.
    pub open spec fn ticked(self, now: u64) -> WsPanelView {
        if self.flashes(now) {
            WsPanelView { flash_tick: (self.flash_tick + 1) as u64, ..self }
        } else {
            self
        }
    }

    /// With the note that something was copied.
    pub open spec fn noted(self, now: u64, label: Seq<char>) -> WsPanelView {
        WsPanelView { copy_flash: Some((now, label)), flash_tick: 0, ..self }
    }

    /// Whether it is shown that something was copied.
    pub open spec fn flashes(self, now: u64) -> bool {
        self.copy_flash matches Some((t, label)) && millis_since(t, now) < FLASH_MILLIS
    }

    /// The row of the key, `ms` milliseconds after something was copied: at first a banner that
    /// shrinks, then the key with a note.
    pub open spec fn flash_spans(self, label: Seq<char>, ms: int, key: Seq<char>) -> Seq<SpanView> {
        let frame = spinner(self.flash_tick);
        let role = if self.flash_tick % 2 == 0 {
            Role::Green
        } else {
            Role::Cyan
        };
        if ms < FLASH_MILLIS / 2 {
            seq![
                screen::span(
                    "  "@ + frame + " COPIED "@ + (label + " "@ + frame + " "@),
                    screen::bold_on(Role::BgPrimary, role),
                ),
                screen::span(
                    text::repeated('=', ((1000 - ms) * 12 / 1000) as nat),
                    screen::fg(role),
                ),
            ]
        } else {
            seq![
                screen::span("  Key: "@, screen::fg(Role::TextSecondary)),
                screen::span(key, screen::bold(role)),
                screen::span("  ["@ + label + "] copied"@, screen::fg(Role::Green)),
            ]
        }
    }

    /// The row of the key.
    pub open spec fn key_spans(self, secret: Seq<char>, now: u64) -> Seq<SpanView> {
        let key = key_display(secret);
        match self.copy_flash {
            Some((t, label)) if millis_since(t, now) < FLASH_MILLIS => self.flash_spans(
                label,
                millis_since(t, now),
                key,
            ),
            _ => seq![
                screen::span("  Key: "@, screen::fg(Role::TextSecondary)),
                screen::span(key, screen::bold(Role::Orange)),
                screen::span("  (c:copy key, u:copy URL)"@, screen::fg(Role::TextMuted)),
            ],
        }
    }

    /// The log, with room for so many lines.
    pub open spec fn log_lines(self, log: Seq<Seq<char>>, height: int) -> Seq<Seq<SpanView>> {
        seqs::window(log, self.log_scroll, height).map_values(|e: Seq<char>| log_line(e))
    }
}

/// A key as it is shown: no more than its first sixteen bytes.
pub open spec fn key_display(secret: Seq<char>) -> Seq<char> {
    if cursor::byte_len(secret) > 16 {
        cursor::text_before(secret, 16) + "..."@
    } else {
        secret
    }
}

/// A key can be cut behind its sixteenth byte, where it has more.
pub open spec fn key_fits(secret: Seq<char>) -> bool {
    cursor::byte_len(secret) > 16 ==> cursor::on_boundary(secret, 16)
}

pub open spec fn log_line(entry: Seq<char>) -> Seq<SpanView> {
    seq![
        screen::span(
            "  "@ + entry,
            screen::fg(
                if text::contains(entry, "error"@) || text::contains(entry, "failed"@) {
                    Role::Red
                } else if text::contains(entry, "onnect"@) {
                    Role::Green
                } else {
                    Role::TextSecondary
                },
            ),
        ),
    ]
}

pub open spec fn chip(on: bool, role: Role) -> Style {
    if on {
        screen::bold_on(Role::BgPrimary, role)
    } else {
        screen::fg(Role::TextMuted)
    }
}

/// The modes to choose from.
pub open spec fn mode_spans(mode: ModeView) -> Seq<SpanView> {
    seq![
        screen::span("  Mode: "@, screen::bold(Role::TextPrimary)),
        screen::span(" [1] Local "@, chip(mode is Local, Role::Green)),
        screen::span("  "@, screen::raw()),
        screen::span(" [2] Cloud "@, chip(mode is Cloud, Role::Cyan)),
        screen::span("  "@, screen::raw()),
        screen::span(" [3] Off "@, chip(mode is Off, Role::Red)),
    ]
}

/// Where the service is to be found.
pub open spec fn info_spans(mode: ModeView) -> Seq<SpanView> {
    match mode {
        ModeView::Local { port } => seq![
            screen::span(
                "  Listening on ws://0.0.0.0:"@ + text::decimal(port as nat),
                screen::fg(Role::Green),
            ),
        ],
        ModeView::Cloud { relay_url, room_id } => seq![
            screen::span(
                "  Relay: "@ + relay_url + " | Room: "@ + room_id,
                screen::fg(Role::Green),
            ),
        ],
        ModeView::Off => seq![
            screen::span("  WebSocket server is off"@, screen::fg(Role::TextMuted)),
        ],
    }
}

/// How many clients there are, and since when the first of them.
pub open spec fn client_lines(clients: Seq<ClientView>, now: u64) -> Seq<Seq<SpanView>> {
    let n = if clients.len() < 3 {
        clients.len()
    } else {
        3
    };
    seq![
        seq![
            screen::span(
                "  Clients: "@ + text::decimal(clients.len()),
                screen::bold(Role::TextPrimary),
            ),
        ],
    ] + Seq::new(n, |i: int| client_line(clients[i], now))
}

pub open spec fn client_line(c: ClientView, now: u64) -> Seq<SpanView> {
    seq![
        screen::span(
            "    "@ + c.addr + " ("@ + (text::decimal((millis_since(c.connected_at, now) / 1000) as nat)
                + "s ago)"@),
            screen::fg(Role::Cyan),
        ),
    ]
}

pub open spec fn help_spans() -> Seq<SpanView> {
    let muted = screen::fg(Role::TextMuted);
    seq![
        screen::span(" 1"@, screen::bold(Role::Green)),
        screen::span(":local "@, muted),
        screen::span("2"@, screen::bold(Role::Cyan)),
        screen::span(":cloud "@, muted),
        screen::span("3"@, screen::bold(Role::Red)),
        screen::span(":off "@, muted),
        screen::span("c"@, screen::bold(Role::Orange)),
        screen::span(":key "@, muted),
        screen::span("u"@, screen::bold(Role::Orange)),
        screen::span(":URL "@, muted),
        screen::span("j/k"@, screen::bold(Role::Yellow)),
        screen::span(":scroll"@, muted),
    ]
}

/// What the panel is drawn from.
pub struct WsFrame {
    pub title: String,
    pub mode: Vec<Span>,
    pub info: Vec<Span>,
    pub key: Vec<Span>,
    pub clients: Vec<Vec<Span>>,
    pub log: Vec<Vec<Span>>,
    /// The keys, at the bottom of a panel that has the focus.
    pub help: Option<Vec<Span>>,
}

// ── The picture ──

fn show_mode(mode: &WsMode) -> (r: Vec<Span>)
    ensures
        r.deep_view() == mode_spans(mode.deep_view()),
{
    let muted = fg_style(Role::TextMuted);
    let (local, cloud, off) = match mode {
        WsMode::Local { .. } => (bold_on_style(Role::BgPrimary, Role::Green), muted, muted),
        WsMode::Cloud { .. } => (muted, bold_on_style(Role::BgPrimary, Role::Cyan), muted),
        WsMode::Off => (muted, muted, bold_on_style(Role::BgPrimary, Role::Red)),
    };
    let mut r = empty_line();
    add_span(&mut r, "  Mode: ", bold_style(Role::TextPrimary));
    add_span(&mut r, " [1] Local ", local);
    add_span(&mut r, "  ", plain_style());
    add_span(&mut r, " [2] Cloud ", cloud);
    add_span(&mut r, "  ", plain_style());
    add_span(&mut r, " [3] Off ", off);
    assert(r.deep_view() =~= mode_spans(mode.deep_view()));
    r
}

fn show_info(mode: &WsMode) -> (r: Vec<Span>)
    ensures
        r.deep_view() == info_spans(mode.deep_view()),
{
    match mode {
        WsMode::Local { port } => {
            let at = decimal_of(*port as u64);
            let info = cat2("  Listening on ws://0.0.0.0:", at.as_str());
            line_of(info.as_str(), fg_style(Role::Green))
        },
        WsMode::Cloud { relay_url, room_id } => {
            let info = cat4("  Relay: ", relay_url.as_str(), " | Room: ", room_id.as_str());
            line_of(info.as_str(), fg_style(Role::Green))
        },
        WsMode::Off => line_of("  WebSocket server is off", fg_style(Role::TextMuted)),
    }
}

fn shown_key(secret: &str) -> (r: String)
    requires
        key_fits(secret@),
    ensures
        r@ == key_display(secret@),
{
    if bytes_in(secret) > 16 {
        cat2(split(secret, 16).0, "...")
    } else {
        secret.to_string()
    }
}

fn since(moment: u64, now: u64) -> (ms: u64)
    ensures
        ms == millis_since(moment, now),
{
    now.saturating_sub(moment) / 1_000_000
}

fn spinner_frame(tick: u64) -> (r: &'static str)
    ensures
        r@ == spinner(tick),
{
    let n: usize = (tick as usize) % 9;
    if n <= 1 {
        ">>>"
    } else if n == 2 {
        ">> "
    } else if n == 3 {
        ">  "
    } else if n == 4 {
        "   "
    } else if n == 5 {
        "  <"
    } else if n == 6 {
        " <<"
    } else {
        "<<<"
    }
}

fn show_clients(clients: &Vec<WsClient>, now: u64) -> (lines: Vec<Vec<Span>>)
    ensures
        lines.deep_view() == client_lines(clients.deep_view(), now),
{
    let ghost all = clients.deep_view();
    let count = decimal_of(clients.len() as u64);
    let mut lines = empty_lines();
    let head = cat2("  Clients: ", count.as_str());
    add_line(&mut lines, line_of(head.as_str(), bold_style(Role::TextPrimary)));
    let ghost top = lines.deep_view();
    let n: usize = if clients.len() < 3 {
        clients.len()
    } else {
        3
    };
    let ghost rows = Seq::new(n as nat, |i: int| client_line(all[i], now));
    let mut i: usize = 0;
    assert(top + rows.take(0) == top);
    while i < n
        invariant
            i <= n <= clients@.len(),
            all == clients.deep_view(),
            rows == Seq::new(n as nat, |i: int| client_line(all[i], now)),
            lines.deep_view() == top + rows.take(i as int),
        decreases n - i,
    {
        let c = &clients[i];
        assert(all[i as int] == c.deep_view());
        let ago = decimal_of(since(c.connected_at, now) / 1000);
        let tail = cat2(ago.as_str(), "s ago)");
        let row = cat4("    ", c.addr.as_str(), " (", tail.as_str());
        assert(top + rows.take(i + 1) == (top + rows.take(i as int)).push(rows[i as int]));
        add_line(&mut lines, line_of(row.as_str(), fg_style(Role::Cyan)));
        i += 1;
    }
    assert(rows.take(i as int) == rows);
    assert(lines.deep_view() =~= client_lines(all, now));
    lines
}

fn show_log_line(entry: &str) -> (r: Vec<Span>)
    ensures
        r.deep_view() == log_line(entry@),
{
    let role = if has(entry, "error") || has(entry, "failed") {
        Role::Red
    } else if has(entry, "onnect") {
        Role::Green
    } else {
        Role::TextSecondary
    };
    line_of(cat2("  ", entry).as_str(), fg_style(role))
}

fn show_help() -> (r: Vec<Span>)
    ensures
        r.deep_view() == help_spans(),
{
    let muted = fg_style(Role::TextMuted);
    let mut r = empty_line();
    add_span(&mut r, " 1", bold_style(Role::Green));
    add_span(&mut r, ":local ", muted);
    add_span(&mut r, "2", bold_style(Role::Cyan));
    add_span(&mut r, ":cloud ", muted);
    add_span(&mut r, "3", bold_style(Role::Red));
    add_span(&mut r, ":off ", muted);
    add_span(&mut r, "c", bold_style(Role::Orange));
    add_span(&mut r, ":key ", muted);
    add_span(&mut r, "u", bold_style(Role::Orange));
    add_span(&mut r, ":URL ", muted);
    add_span(&mut r, "j/k", bold_style(Role::Yellow));
    add_span(&mut r, ":scroll", muted);
    assert(r.deep_view() =~= help_spans());
    r
}

impl WebSocketPlugin {
    /// The panel as it opens, and what the debug log says of it.
    pub fn new() -> (r: (WebSocketPlugin, String))
        ensures
            r.0@ == WsPanelView::new(),
            r.1@ == "[ws] WebSocket panel opened"@,
    {
        (
            WebSocketPlugin { log_scroll: 0, copy_flash: None, flash_tick: 0 },
            "[ws] WebSocket panel opened".to_string(),
        )
    }

    /// Whether the copy flash is still active (within 2 seconds)
    pub fn flash_active(&self, now: u64) -> (r: bool)
        ensures
            r == self@.flashes(now),
    {
        match &self.copy_flash {
            Some((t, _)) => since(*t, now) < FLASH_MILLIS,
            None => false,
        }
    }

    fn show_flash(&self, label: &str, ms: u64, key: &str) -> (r: Vec<Span>)
        requires
            ms < FLASH_MILLIS,
        ensures
            r.deep_view() == self@.flash_spans(label@, ms as int, key@),
    {
        let frame = spinner_frame(self.flash_tick);
        // Color pulses between green and cyan
        let role = if self.flash_tick % 2 == 0 {
            Role::Green
        } else {
            Role::Cyan
        };
        let mut r = empty_line();
        if ms < FLASH_MILLIS / 2 {
            // Phase 1: Bright inverted banner
            let tail = cat4(label, " ", frame, " ");
            let banner = cat4("  ", frame, " COPIED ", tail.as_str());
            let bar = repeat_char('=', ((1000 - ms) * 12 / 1000) as usize);
            add_span(&mut r, banner.as_str(), bold_on_style(Role::BgPrimary, role));
            add_span(&mut r, bar.as_str(), fg_style(role));
        } else {
            // Phase 2: Fade to key display with "copied" badge
            add_span(&mut r, "  Key: ", fg_style(Role::TextSecondary));
            add_span(&mut r, key, bold_style(role));
            let badge = cat3("  [", label, "] copied");
            add_span(&mut r, badge.as_str(), fg_style(Role::Green));
        }
        assert(r.deep_view() =~= self@.flash_spans(label@, ms as int, key@));
        r
    }

    fn show_key(&self, secret: &str, now: u64) -> (r: Vec<Span>)
        requires
            key_fits(secret@),
        ensures
            r.deep_view() == self@.key_spans(secret@, now),
    {
        let key = shown_key(secret);
        if let Some((t, label)) = &self.copy_flash {
            let ms: u64 = since(*t, now);
            if ms < FLASH_MILLIS {
                return self.show_flash(label.as_str(), ms, key.as_str());
            }
        }
        let mut r = empty_line();
        add_span(&mut r, "  Key: ", fg_style(Role::TextSecondary));
        add_span(&mut r, key.as_str(), bold_style(Role::Orange));
        add_span(&mut r, "  (c:copy key, u:copy URL)", fg_style(Role::TextMuted));
        assert(r.deep_view() =~= self@.key_spans(secret@, now));
        r
    }

    fn show_log(&self, log: &Vec<String>, height: usize) -> (lines: Vec<Vec<Span>>)
        ensures
            lines.deep_view() == self@.log_lines(text::texts(log@), height as int),
    {
        let ghost all = text::texts(log@);
        let (start, end) = window_bounds(log.len(), self.log_scroll, height);
        let ghost seen = seqs::window(all, self.log_scroll as int, height as int);
        let ghost want = self@.log_lines(all, height as int);
        let mut lines = empty_lines();
        let mut i: usize = start;
        assert(want.take(0) == Seq::<Seq<SpanView>>::empty());
        while i < end
            invariant
                start <= i <= end <= log@.len(),
                all == text::texts(log@),
                seen == all.subrange(start as int, end as int),
                want == seen.map_values(|e: Seq<char>| log_line(e)),
                lines.deep_view() == want.take(i - start),
            decreases end - i,
        {
            let entry = log[i].as_str();
            assert(seen[i - start] == entry@);
            assert(want.take(i + 1 - start) == want.take(i - start).push(want[i - start]));
            add_line(&mut lines, show_log_line(entry));
            i += 1;
        }
        assert(want.take(end - start) == want);
        lines
    }

    /// What the panel is drawn from; the place for the log is `log_height` cells high, with its
    /// heading.
    pub fn render(&self, state: &SharedState, now: u64, focused: bool, log_height: u16) -> (r:
        WsFrame)
        requires
            key_fits(state@.ws_secret),
        ensures
            r.title@ == "  WebSocket ["@ + state@.ws_status + "]  "@,
            r.mode.deep_view() == mode_spans(state@.ws_mode),
            r.info.deep_view() == info_spans(state@.ws_mode),
            r.key.deep_view() == self@.key_spans(state@.ws_secret, now),
            r.clients.deep_view() == client_lines(state@.ws_connections, now),
            r.log.deep_view() == self@.log_lines(
                state@.ws_log,
                if log_height > 0 {
                    log_height - 1
                } else {
                    0
                },
            ),
            match r.help {
                Some(help) => focused && help.deep_view() == help_spans(),
                None => !focused,
            },
    {
        WsFrame {
            title: cat3("  WebSocket [", state.ws_status.as_str(), "]  "),
            mode: show_mode(&state.ws_mode),
            info: show_info(&state.ws_mode),
            key: self.show_key(state.ws_secret.as_str(), now),
            clients: show_clients(&state.ws_connections, now),
            log: self.show_log(&state.ws_log, log_height.saturating_sub(1) as usize),
            help: if focused {
                Some(show_help())
            } else {
                None
            },
        }
    }
}

// ── The keys ──

/// What a key leaves to do outside the panel.
pub enum WsKeyAction {
    Nothing,
    /// End the service that runs and start the local server.
    StartLocal { port: u16, secret: String },
    /// End the service that runs and connect to the relay.
    StartCloud { relay_url: String, room_id: String, secret: String },
    /// End the service that runs.
    Stop,
    /// Put the key on the clipboard.
    CopyKey(String),
    /// Put the address on the clipboard.
    CopyUrl(String),
}

#[verifier::ext_equal]
pub enum WsKeyView {
    Nothing,
    StartLocal { port: u16, secret: Seq<char> },
    StartCloud { relay_url: Seq<char>, room_id: Seq<char>, secret: Seq<char> },
    Stop,
    CopyKey(Seq<char>),
    CopyUrl(Seq<char>),
}

impl DeepView for WsKeyAction {
    type V = WsKeyView;

    open spec fn deep_view(&self) -> WsKeyView {
        match self {
            WsKeyAction::Nothing => WsKeyView::Nothing,
            WsKeyAction::StartLocal { port, secret } => WsKeyView::StartLocal {
                port: *port,
                secret: secret@,
            },
            WsKeyAction::StartCloud { relay_url, room_id, secret } => WsKeyView::StartCloud {
                relay_url: relay_url@,
                room_id: room_id@,
                secret: secret@,
            },
            WsKeyAction::Stop => WsKeyView::Stop,
            WsKeyAction::CopyKey(t) => WsKeyView::CopyKey(t@),
            WsKeyAction::CopyUrl(t) => WsKeyView::CopyUrl(t@),
        }
    }
}

/// What comes of a key.
pub struct WsKeyReply {
    pub consumed: bool,
    pub action: WsKeyAction,
}

/// The panel and the service after a key, and what the key leaves to do.
#[verifier::ext_equal]
pub struct WsKeyStep {
    pub panel: WsPanelView,
    pub state: SharedView,
    pub consumed: bool,
    pub action: WsKeyView,
}

impl SharedView {
    /// The service in another mode, without clients.
    pub open spec fn switched(self, mode: ModeView, status: Seq<char>) -> SharedView {
        SharedView { ws_mode: mode, ws_status: status, ws_connections: Seq::empty(), ..self }
    }
}

pub open spec fn relay() -> Seq<char> {
    "wss://relay.example.com"@
}

impl WsPanelView {
    /// A key that is used, and changes nothing.
    pub open spec fn kept(self, state: SharedView) -> WsKeyStep {
        WsKeyStep { panel: self, state, consumed: true, action: WsKeyView::Nothing }
    }

    /// What a key makes of the panel and the service.
    pub open spec fn key_step(self, key: Key, state: SharedView) -> WsKeyStep {
        match key {
            Key::Char(c) => if c == '1' {
                if state.ws_mode is Local {
                    self.kept(state)
                } else {
                    WsKeyStep {
                        state: state.switched(ModeView::Local { port: WS_PORT }, "Starting..."@),
                        action: WsKeyView::StartLocal { port: WS_PORT, secret: state.ws_secret },
                        ..self.kept(state)
                    }
                }
            } else if c == '2' {
                if state.ws_mode is Cloud {
                    self.kept(state)
                } else {
                    let room = state.ws_secret.take(12);
                    WsKeyStep {
                        state: state.switched(
                            ModeView::Cloud { relay_url: relay(), room_id: room },
                            "Connecting..."@,
                        ),
                        action: WsKeyView::StartCloud {
                            relay_url: relay(),
                            room_id: room,
                            secret: state.ws_secret,
                        },
                        ..self.kept(state)
                    }
                }
            } else if c == '3' {
                WsKeyStep {
                    state: state.switched(ModeView::Off, "Off"@),
                    action: WsKeyView::Stop,
                    ..self.kept(state)
                }
            } else if c == 'c' {
                WsKeyStep { action: WsKeyView::CopyKey(state.ws_secret), ..self.kept(state) }
            } else if c == 'u' {
                WsKeyStep { action: WsKeyView::CopyUrl(state.url()), ..self.kept(state) }
            } else if c == 'j' {
                WsPanelView {
                    log_scroll: if self.log_scroll > 0 {
                        self.log_scroll - 1
                    } else {
                        self.log_scroll
                    },
                    ..self
                }.kept(state)
            } else if c == 'k' {
                WsPanelView { log_scroll: self.log_scroll + 1, ..self }.kept(state)
            } else {
                WsKeyStep { consumed: false, ..self.kept(state) }
            },
            _ => WsKeyStep { consumed: false, ..self.kept(state) },
        }
    }
}

impl WebSocketPlugin {
    /// Takes a tick; the result says whether the panel has changed.
    pub fn on_tick(&mut self, now: u64) -> (consumed: bool)
        requires
            old(self)@.flashes(now) ==> old(self)@.flash_tick < u64::MAX,
        ensures
            consumed == old(self)@.flashes(now),
            final(self)@ == old(self)@.ticked(now),
    {
        if self.flash_active(now) {
            self.flash_tick += 1;
            true
        } else {
            false
        }
    }

    fn switch(state: &mut SharedState, mode: WsMode, status: &str)
        ensures
            final(state)@ == old(state)@.switched(mode.deep_view(), status@),
    {
        state.ws_mode = mode;
        state.ws_status = status.to_string();
        state.ws_connections = Vec::new();
        assert(state@.ws_connections =~= Seq::<ClientView>::empty());
    }

    /// Takes a key.
    pub fn on_key(&mut self, key: Key, state: &mut SharedState) -> (r: WsKeyReply)
        requires
            old(state)@.wf(),
            key == Key::Char('k') ==> old(self)@.log_scroll < usize::MAX,
        ensures
            ({
                let step = old(self)@.key_step(key, old(state)@);
                &&& final(self)@ == step.panel
                &&& final(state)@ == step.state
                &&& r.consumed == step.consumed
                &&& r.action.deep_view() == step.action
            }),
            final(state)@.wf(),
    {
        let mut action = WsKeyAction::Nothing;
        let mut consumed = true;
        match key {
            Key::Char(c) => {
                if c == '1' {
                    // Switch to Local mode
                    let local = matches!(state.ws_mode, WsMode::Local { .. });
                    if !local {
                        let secret = state.ws_secret.clone();
                        Self::switch(state, WsMode::Local { port: WS_PORT }, "Starting...");
                        action = WsKeyAction::StartLocal { port: WS_PORT, secret };
                    }
                } else if c == '2' {
                    // Switch to Cloud mode
                    let cloud = matches!(state.ws_mode, WsMode::Cloud { .. });
                    if !cloud {
                        let secret = state.ws_secret.clone();
                        let room_id = truncate_chars(secret.as_str(), 12).to_string();
                        assert(room_id@ == secret@.take(12));
                        let relay_url = "wss://relay.example.com".to_string();
                        let mode = WsMode::Cloud {
                            relay_url: relay_url.clone(),
                            room_id: room_id.clone(),
                        };
                        Self::switch(state, mode, "Connecting...");
                        action = WsKeyAction::StartCloud { relay_url, room_id, secret };
                    }
                } else if c == '3' {
                    // Switch to Off
                    Self::switch(state, WsMode::Off, "Off");
                    action = WsKeyAction::Stop;
                } else if c == 'c' {
                    // Copy secret key
                    action = WsKeyAction::CopyKey(state.ws_secret.clone());
                } else if c == 'u' {
                    // Copy connection URL
                    action = WsKeyAction::CopyUrl(state.connection_url());
                } else if c == 'j' {
                    if self.log_scroll > 0 {
                        self.log_scroll -= 1;
                    }
                } else if c == 'k' {
                    self.log_scroll += 1;
                } else {
                    consumed = false;
                }
            },
            _ => {
                consumed = false;
            },
        }
        WsKeyReply { consumed, action }
    }

    /// The key was copied, which is shown for a while; the text is for the debug log.
    pub fn key_copied(&mut self, now: u64) -> (log: String)
        ensures
            final(self)@ == old(self)@.noted(now, "Key"@),
            log@ == "[ws] Secret key copied to clipboard"@,
    {
        self.copy_flash = Some((now, "Key".to_string()));
        self.flash_tick = 0;
        "[ws] Secret key copied to clipboard".to_string()
    }

    /// The address was copied, which is shown for a while; the text is for the debug log.
    pub fn url_copied(&mut self, url: &str, now: u64) -> (log: String)
        ensures
            final(self)@ == old(self)@.noted(now, "URL"@),
            log@ == "[ws] URL copied: "@ + text::first_chars(url@, 60),
    {
        self.copy_flash = Some((now, "URL".to_string()));
        self.flash_tick = 0;
        cat2("[ws] URL copied: ", truncate_chars(url, 60))
    }
}

// ── Laws ──

/// Whatever the mode was, turning the service off leaves it off, without clients, and with its key.
pub proof fn law_off_is_off(p: WsPanelView, s: SharedView)
    ensures
        ({
            let t = p.key_step(Key::Char('3'), s).state;
            &&& t.ws_mode is Off && t.ws_connections.len() == 0
            &&& t.ws_secret == s.ws_secret && t.ws_log == s.ws_log && t.debug_log == s.debug_log
        }),
{
}

/// Choosing the mode that is on changes nothing; the clients stay.
pub proof fn law_choosing_a_mode_twice(p: WsPanelView, s: SharedView, c: char)
    requires
        c == '1' || c == '2',
    ensures
        ({
            let t = p.key_step(Key::Char(c), s).state;
            &&& p.key_step(Key::Char(c), t).state == t
            &&& p.key_step(Key::Char(c), t).action is Nothing
        }),
{
}

/// The address of the relay names the room that the program hosts, which is part of its key.
pub proof fn law_room_is_part_of_the_key(p: WsPanelView, s: SharedView)
    requires
        s.wf(),
        !(s.ws_mode is Cloud),
    ensures
        ({
            let step = p.key_step(Key::Char('2'), s);
            &&& step.state.ws_mode == ModeView::Cloud {
                relay_url: relay(),
                room_id: s.ws_secret.take(12),
            }
            &&& step.state.url() == relay() + "/join?room="@ + (s.ws_secret.take(12) + "&key="@
                + s.ws_secret)
        }),
{
}

/// No more of the key is shown than its first sixteen characters.
pub proof fn law_key_is_not_shown_whole(secret: Seq<char>)
    requires
        crate::shared::is_secret(secret),
    ensures
        key_fits(secret),
        key_display(secret) == secret.take(16) + "..."@,
{
    let head = secret.take(16);
    let tail = secret.skip(16);
    assert(head + tail == secret);
    assert forall|i: int| 0 <= i < 32 implies (#[trigger] secret[i] as nat) < 128 by {
        assert(crate::session::is_hex_lower(secret[i]));
    }
    vstd::utf8::is_ascii_chars_encode_utf8(secret);
    vstd::utf8::is_ascii_chars_encode_utf8(head);
    cursor::lemma_joint_on_boundary(head, tail);
}

/// The note that something was copied is gone after two seconds.
pub proof fn law_flash_goes_out(p: WsPanelView, copied: u64, now: u64)
    requires
        p.copy_flash matches Some((t, label)) && t == copied,
        now - copied >= 2_000_000_000,
    ensures
        !p.flashes(now),
{
}

/// The keys turn the service on here, on through the relay, or off; they copy the key or the
/// address, whole, and scroll the log by a line. Turning it on anew drops the clients, and the
/// room of the relay is the start of the key.
pub proof fn law_keys_of_the_service(p: WsPanelView, s: SharedView)
    requires
        s.wf(),
    ensures
        ({
            let local = p.key_step(Key::Char('1'), s);
            let cloud = p.key_step(Key::Char('2'), s);
            let off = p.key_step(Key::Char('3'), s);
            let key = p.key_step(Key::Char('c'), s);
            let url = p.key_step(Key::Char('u'), s);
            let down = p.key_step(Key::Char('j'), s);
            let up = p.key_step(Key::Char('k'), s);
            &&& !(s.ws_mode is Local) ==> {
                &&& local.action == WsKeyView::StartLocal { port: 9753, secret: s.ws_secret }
                &&& local.state == (SharedView {
                    ws_mode: ModeView::Local { port: 9753 },
                    ws_status: "Starting..."@,
                    ws_connections: Seq::empty(),
                    ..s
                })
            }
            &&& s.ws_mode is Local ==> local.action is Nothing && local.state == s
            &&& !(s.ws_mode is Cloud) ==> {
                &&& cloud.action matches WsKeyView::StartCloud { relay_url, room_id, secret }
                    && relay_url == "wss://relay.example.com"@ && secret == s.ws_secret
                    && room_id.len() == 12 && room_id.is_prefix_of(s.ws_secret) && cloud.state == (
                SharedView {
                    ws_mode: ModeView::Cloud { relay_url, room_id },
                    ws_status: "Connecting..."@,
                    ws_connections: Seq::empty(),
                    ..s
                })
            }
            &&& s.ws_mode is Cloud ==> cloud.action is Nothing && cloud.state == s
            &&& off.action is Stop && off.state == (SharedView {
                ws_mode: ModeView::Off,
                ws_status: "Off"@,
                ws_connections: Seq::empty(),
                ..s
            })
            &&& key.action == WsKeyView::CopyKey(s.ws_secret) && key.state == s && key.panel == p
            &&& url.action == WsKeyView::CopyUrl(s.url()) && url.state == s && url.panel == p
            &&& p.log_scroll > 0 ==> down.panel == (WsPanelView {
                log_scroll: p.log_scroll - 1,
                ..p
            })
            &&& p.log_scroll == 0 ==> down.panel == p
            &&& up.panel == (WsPanelView { log_scroll: p.log_scroll + 1, ..p })
            &&& down.state == s && up.state == s && down.action is Nothing && up.action is Nothing
            &&& local.panel == p && cloud.panel == p && off.panel == p
            &&& local.consumed && cloud.consumed && off.consumed && key.consumed && url.consumed
                && down.consumed && up.consumed
        }),
{
}

/// Any other key is left to others, and changes nothing.
pub proof fn law_keys_left_to_others(p: WsPanelView, s: SharedView, key: Key)
    requires
        key matches Key::Char(c) ==> c != '1' && c != '2' && c != '3' && c != 'c' && c != 'u' && c
            != 'j' && c != 'k',
    ensures
        p.key_step(key, s) == (WsKeyStep {
            panel: p,
            state: s,
            consumed: false,
            action: WsKeyView::Nothing,
        }),
{
}

/// The log shows its newest lines last, as many as there is room for, each whole behind two
/// spaces; scrolled, as many of the newest are left out.
pub proof fn law_the_log_of_the_service(
    p: WsPanelView,
    log: Seq<Seq<char>>,
    height: int,
    i: int,
)
    requires
        0 <= p.log_scroll,
        0 <= height,
    ensures
        ({
            let lines = p.log_lines(log, height);
            let n = lines.len() as int;
            &&& n <= height
            &&& p.log_scroll + height <= log.len() ==> n == height
            &&& p.log_scroll <= log.len() <= p.log_scroll + height ==> n == log.len()
                - p.log_scroll
            &&& 0 <= i < n ==> lines[n - 1 - i].len() == 1 && lines[n - 1 - i][0].text == "  "@
                + log[log.len() - p.log_scroll - 1 - i]
        }),
{
    seqs::law_window(log, p.log_scroll, height, i);
}

/// All clients are counted, and the first three of them are shown with the seconds since they
/// came.
pub proof fn law_clients_are_shown(clients: Seq<ClientView>, now: u64, i: int)
    ensures
        ({
            let lines = client_lines(clients, now);
            let c = clients[i];
            &&& clients.len() <= 3 ==> lines.len() == 1 + clients.len()
            &&& clients.len() > 3 ==> lines.len() == 4
            &&& lines[0][0].text == "  Clients: "@ + text::decimal(clients.len())
            &&& 0 <= i < clients.len() && i < 3 ==> lines[1 + i].len() == 1
            &&& 0 <= i < clients.len() && i < 3 && now >= c.connected_at ==> lines[1 + i][0].text
                == "    "@ + c.addr + " ("@ + text::decimal(
                ((now - c.connected_at) / 1_000_000_000) as nat,
            ) + "s ago)"@
        }),
{
    let lines = client_lines(clients, now);
    if 0 <= i < clients.len() && i < 3 {
        let c = clients[i];
        if now >= c.connected_at {
            let d = now - c.connected_at;
            assert((d / 1_000_000) / 1000 == d / 1_000_000_000);
            assert(lines[1 + i] == client_line(c, now));
            assert(lines[1 + i][0].text =~= "    "@ + c.addr + " ("@ + text::decimal(
                (d / 1_000_000_000) as nat,
            ) + "s ago)"@);
        }
    }
}

/// For two seconds after something was copied the panel says what; before and after it shows the
/// key, shortened.
pub proof fn law_what_is_said_of_the_key(
    p: WsPanelView,
    secret: Seq<char>,
    copied: u64,
    label: Seq<char>,
    now: u64,
)
    requires
        p.copy_flash == Some((copied, label)),
        now >= copied,
    ensures
        ({
            let spans = p.key_spans(secret, now);
            &&& now - copied < 1_000_000_000 ==> text::contains(
                spans[0].text,
                " COPIED "@ + label,
            )
            &&& 1_000_000_000 <= now - copied < 2_000_000_000 ==> spans[1].text == key_display(
                secret,
            ) && spans[2].text == "  ["@ + label + "] copied"@
            &&& now - copied >= 2_000_000_000 ==> spans[1].text == key_display(secret)
                && spans[2].text == "  (c:copy key, u:copy URL)"@
        }),
{
    let ms = millis_since(copied, now);
    let d = now - copied;
    assert(d < 1_000_000_000 ==> ms < 1000);
    assert(1_000_000_000 <= d < 2_000_000_000 ==> 1000 <= ms < 2000);
    assert(d >= 2_000_000_000 ==> ms >= 2000);
    if d < 1_000_000_000 {
        let frame = spinner(p.flash_tick);
        let said = " COPIED "@ + label;
        let all = p.key_spans(secret, now)[0].text;
        let tail = " "@ + frame + " "@;
        assert(all =~= ("  "@ + frame) + said + tail);
        text::law_contains(all, "  "@ + frame, said, tail);
    }
}

/// The panel shows which mode is on, and where the service is found then.
pub proof fn law_the_mode_is_shown(mode: ModeView)
    ensures
        mode_spans(mode).len() == 6,
        mode_spans(mode)[1].style.bold == (mode is Local),
        mode_spans(mode)[3].style.bold == (mode is Cloud),
        mode_spans(mode)[5].style.bold == (mode is Off),
        mode matches ModeView::Local { port } ==> info_spans(mode)[0].text
            == "  Listening on ws://0.0.0.0:"@ + text::decimal(port as nat),
        mode matches ModeView::Cloud { relay_url, room_id } ==> info_spans(mode)[0].text
            == "  Relay: "@ + relay_url + " | Room: "@ + room_id,
        mode is Off ==> info_spans(mode)[0].text == "  WebSocket server is off"@,
{
}

/// What was copied is said from that moment on for two seconds, and not longer; a tick meanwhile
/// moves what is shown of it, and does nothing else.
pub proof fn law_a_copy_is_noted(
    p: WsPanelView,
    label: Seq<char>,
    now: u64,
    later: u64,
    secret: Seq<char>,
)
    requires
        later >= now,
    ensures
        ({
            let t = p.noted(now, label);
            &&& t.flashes(later) <==> later - now < 2_000_000_000
            &&& t.log_scroll == p.log_scroll
            &&& later - now < 1_000_000_000 ==> text::contains(
                t.key_spans(secret, later)[0].text,
                " COPIED "@ + label,
            )
            &&& t.flashes(later) ==> t.ticked(later) == (WsPanelView { flash_tick: 1, ..t })
            &&& !t.flashes(later) ==> t.ticked(later) == t
        }),
{
    let t = p.noted(now, label);
    law_what_is_said_of_the_key(t, secret, now, label, later);
    let d = later - now;
    assert(millis_since(now, later) < 2000 <==> d < 2_000_000_000);
}

/// The bar behind a fresh note shrinks from twelve marks to none within a second.
pub proof fn law_the_bar_shrinks(p: WsPanelView, label: Seq<char>, ms: int, key: Seq<char>)
    requires
        0 <= ms < 1000,
    ensures
        ({
            let bar = p.flash_spans(label, ms, key)[1].text;
            &&& bar.len() * 1000 <= (1000 - ms) * 12 < (bar.len() + 1) * 1000
            &&& forall|i: int| 0 <= i < bar.len() ==> #[trigger] bar[i] == '='
        }),
{
}

}
