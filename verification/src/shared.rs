//! What all panels and connections share: the logs, and the state of the WebSocket service.
use vstd::prelude::*;

use crate::seqs;
use crate::session;
use crate::text;
use crate::text::{cat2, cat3, decimal_of, hex_of};

verus! {

/// How many entries the debug log keeps.
pub const DEBUG_LOG_KEPT: usize = 500;

/// How many entries the log of the WebSocket service keeps.
pub const WS_LOG_KEPT: usize = 100;

/// The port of the local server.
pub const WS_PORT: u16 = 9753;

/// WebSocket operating mode
pub enum WsMode {
    Off,
    Local { port: u16 },
    Cloud { relay_url: String, room_id: String },
}

/// A connected WebSocket client
pub struct WsClient {
    pub addr: String,
    /// Nanoseconds since the program started
    pub connected_at: u64,
}

/// What all panels and connections share.
pub struct SharedState {
    /// The entries of the debug log, each with its moment
    pub debug_log: Vec<(u64, String)>,
    pub ws_secret: String,
    pub ws_mode: WsMode,
    pub ws_connections: Vec<WsClient>,
    pub ws_status: String,
    pub ws_log: Vec<String>,
}

#[verifier::ext_equal]
pub enum ModeView {
    Off,
    Local { port: u16 },
    Cloud { relay_url: Seq<char>, room_id: Seq<char> },
}

#[verifier::ext_equal]
pub struct ClientView {
    pub addr: Seq<char>,
    pub connected_at: u64,
}

#[verifier::ext_equal]
pub struct SharedView {
    pub debug_log: Seq<(u64, Seq<char>)>,
    pub ws_secret: Seq<char>,
    pub ws_mode: ModeView,
    pub ws_connections: Seq<ClientView>,
    pub ws_status: Seq<char>,
    pub ws_log: Seq<Seq<char>>,
}

impl DeepView for WsMode {
    type V = ModeView;

    open spec fn deep_view(&self) -> ModeView {
        match self {
            WsMode::Off => ModeView::Off,
            WsMode::Local { port } => ModeView::Local { port: *port },
            WsMode::Cloud { relay_url, room_id } => ModeView::Cloud {
                relay_url: relay_url@,
                room_id: room_id@,
            },
        }
    }
}

impl DeepView for WsClient {
    type V = ClientView;

    open spec fn deep_view(&self) -> ClientView {
        ClientView { addr: self.addr@, connected_at: self.connected_at }
    }
}

/// The entries of a log, each with its moment.
pub open spec fn entries(log: Seq<(u64, String)>) -> Seq<(u64, Seq<char>)> {
    log.map_values(|e: (u64, String)| (e.0, e.1@))
}

impl View for SharedState {
    type V = SharedView;

    open spec fn view(&self) -> SharedView {
        SharedView {
            debug_log: entries(self.debug_log@),
            ws_secret: self.ws_secret@,
            ws_mode: self.ws_mode.deep_view(),
            ws_connections: self.ws_connections.deep_view(),
            ws_status: self.ws_status@,
            ws_log: text::texts(self.ws_log@),
        }
    }
}

/// Whether this is a key as the program makes them: sixteen bytes, in hexadecimal digits.
pub open spec fn is_secret(key: Seq<char>) -> bool {
    key.len() == 32 && forall|i: int| 0 <= i < 32 ==> session::is_hex_lower(#[trigger] key[i])
}

/// What a client is known by.
pub open spec fn client_name(number: u16) -> Seq<char> {
    "ws-client-"@ + text::decimal(number as nat)
}

impl SharedView {
    /// The logs are no longer than they may be, and the key is one.
    pub open spec fn wf(self) -> bool {
        &&& self.debug_log.len() <= DEBUG_LOG_KEPT
        &&& self.ws_log.len() <= WS_LOG_KEPT
        &&& is_secret(self.ws_secret)
    }

    /// The state that the program starts with; `assistant` is the name that is shown.
    pub open spec fn new(secret: Seq<char>, now: u64, assistant: Seq<char>) -> SharedView {
        SharedView {
            debug_log: seq![(now, assistant + " Commander started"@)],
            ws_secret: secret,
            ws_mode: ModeView::Off,
            ws_connections: Seq::empty(),
            ws_status: "Off"@,
            ws_log: Seq::empty(),
        }
    }

    /// An entry at the end of the debug log, of which only the last five hundred stay.
    pub open spec fn logged(self, now: u64, msg: Seq<char>) -> SharedView {
        SharedView {
            debug_log: seqs::last_n(self.debug_log.push((now, msg)), DEBUG_LOG_KEPT as nat),
            ..self
        }
    }

    /// An entry in both logs; of that of the service the last hundred stay.
    pub open spec fn ws_logged(self, now: u64, msg: Seq<char>) -> SharedView {
        SharedView {
            ws_log: seqs::last_n(self.ws_log.push(msg), WS_LOG_KEPT as nat),
            ..self.logged(now, "[ws] "@ + msg)
        }
    }

    pub open spec fn with_status(self, status: Seq<char>) -> SharedView {
        SharedView { ws_status: status, ..self }
    }

    pub open spec fn with_client(self, addr: Seq<char>, now: u64) -> SharedView {
        SharedView {
            ws_connections: self.ws_connections.push(ClientView { addr, connected_at: now }),
            ..self
        }
    }

    pub open spec fn without_client(self, addr: Seq<char>) -> SharedView {
        SharedView {
            ws_connections: self.ws_connections.filter(|c: ClientView| c.addr != addr),
            ..self
        }
    }

    /// Where a client finds the service.
    pub open spec fn url(self) -> Seq<char> {
        match self.ws_mode {
            ModeView::Local { port } => "ws://127.0.0.1:"@ + text::decimal(port as nat) + (
            "/ws?key="@ + self.ws_secret),
            ModeView::Cloud { relay_url, room_id } => relay_url + "/join?room="@ + (room_id
                + "&key="@ + self.ws_secret),
            ModeView::Off => "WebSocket is off"@,
        }
    }
}

// ── Chance ──

/// `rand::random` for a byte. Which byte comes is left to chance.
#[verifier::external_body]
fn random_byte() -> u8 {
    rand::random::<u8>()
}

/// `rand::random` for a number of sixteen bits. Which number comes is left to chance.
#[verifier::external_body]
fn random_number() -> u16 {
    rand::random::<u16>()
}

proof fn lemma_hex(bytes: Seq<u8>)
    ensures
        text::hex(bytes).len() == 2 * bytes.len(),
        forall|i: int|
            0 <= i < text::hex(bytes).len() ==> session::is_hex_lower(
                #[trigger] text::hex(bytes)[i],
            ),
    decreases bytes.len(),
{
    if bytes.len() > 0 {
        lemma_hex(bytes.drop_last());
    }
}

/// The key that sixteen bytes make.
pub fn secret_of(bytes: &Vec<u8>) -> (key: String)
    requires
        bytes@.len() == 16,
    ensures
        key@ == text::hex(bytes@),
        is_secret(key@),
{
    proof {
        lemma_hex(bytes@);
    }
    hex_of(bytes)
}

/// A new key.
pub fn generate_secret_key() -> (key: String)
    ensures
        is_secret(key@),
{
    let mut bytes: Vec<u8> = Vec::new();
    while bytes.len() < 16
        invariant
            bytes@.len() <= 16,
        decreases 16 - bytes@.len(),
    {
        bytes.push(random_byte());
    }
    secret_of(&bytes)
}

/// What the client with that number is known by.
pub fn client_label(number: u16) -> (name: String)
    ensures
        name@ == client_name(number),
{
    cat2("ws-client-", decimal_of(number as u64).as_str())
}

/// What a new client is known by.
pub fn new_client_label() -> (name: String)
    ensures
        exists|number: u16| name@ == #[trigger] client_name(number),
{
    let number: u16 = random_number();
    client_label(number)
}

// ── The logs ──

/// Drops all but the last `n` elements.
pub fn keep_last<A>(v: &mut Vec<A>, n: usize)
    ensures
        final(v)@ == seqs::last_n(old(v)@, n as nat),
{
    let len: usize = v.len();
    if len > n {
        let tail = v.split_off(len - n);
        *v = tail;
    }
}

/// Adds to the debug log. Keeps the last 500 entries.
pub fn debug_log(state: &mut SharedState, now: u64, msg: String)
    ensures
        final(state)@ == old(state)@.logged(now, msg@),
        old(state)@.wf() ==> final(state)@.wf(),
{
    state.debug_log.push((now, msg));
    assert(entries(state.debug_log@) == old(state)@.debug_log.push((now, msg@)));
    let ghost all = state.debug_log@;
    keep_last(&mut state.debug_log, DEBUG_LOG_KEPT);
    assert(entries(seqs::last_n(all, DEBUG_LOG_KEPT as nat)) == seqs::last_n(
        entries(all),
        DEBUG_LOG_KEPT as nat,
    ));
}

/// Adds several lines to the debug log.
pub fn debug_log_all(state: &mut SharedState, now: u64, lines: Vec<String>)
    ensures
        final(state)@ == old(state)@.logged_all(now, text::texts(lines@)),
        old(state)@.wf() ==> final(state)@.wf(),
{
    let ghost all = text::texts(lines@);
    let mut i: usize = 0;
    assert(all.take(0) == Seq::<Seq<char>>::empty());
    while i < lines.len()
        invariant
            i <= lines@.len(),
            all == text::texts(lines@),
            state@ == old(state)@.logged_all(now, all.take(i as int)),
            old(state)@.wf() ==> state@.wf(),
        decreases lines@.len() - i,
    {
        assert(all.take(i + 1).drop_last() == all.take(i as int));
        debug_log(state, now, lines[i].clone());
        i += 1;
    }
    assert(all.take(i as int) == all);
}

impl SharedView {
    pub open spec fn logged_all(self, now: u64, lines: Seq<Seq<char>>) -> SharedView
        decreases lines.len(),
    {
        if lines.len() == 0 {
            self
        } else {
            self.logged_all(now, lines.drop_last()).logged(now, lines.last())
        }
    }
}

/// Add a message to the WebSocket log
pub fn ws_log(state: &mut SharedState, now: u64, msg: String)
    ensures
        final(state)@ == old(state)@.ws_logged(now, msg@),
        old(state)@.wf() ==> final(state)@.wf(),
{
    debug_log(state, now, cat2("[ws] ", msg.as_str()));
    let ghost before = state.ws_log@;
    proof {
        text::lemma_texts_push(before, msg);
    }
    state.ws_log.push(msg);
    let ghost all = state.ws_log@;
    keep_last(&mut state.ws_log, WS_LOG_KEPT);
    assert(text::texts(seqs::last_n(all, WS_LOG_KEPT as nat)) == seqs::last_n(
        text::texts(all),
        WS_LOG_KEPT as nat,
    ));
}

pub fn update_status(state: &mut SharedState, status: &str)
    ensures
        final(state)@ == old(state)@.with_status(status@),
{
    state.ws_status = status.to_string();
}

impl SharedState {
    /// The state that the program starts with; `assistant` is the name that is shown.
    pub fn new(secret: String, now: u64, assistant: &str) -> (r: SharedState)
        requires
            is_secret(secret@),
        ensures
            r@ == SharedView::new(secret@, now, assistant@),
            r@.wf(),
    {
        let mut log: Vec<(u64, String)> = Vec::new();
        log.push((now, cat2(assistant, " Commander started")));
        let r = SharedState {
            debug_log: log,
            ws_secret: secret,
            ws_mode: WsMode::Off,
            ws_connections: Vec::new(),
            ws_status: "Off".to_string(),
            ws_log: Vec::new(),
        };
        assert(r@ =~= SharedView::new(secret@, now, assistant@));
        r
    }

    /// Registers a client.
    pub fn add_client(&mut self, addr: &str, now: u64)
        ensures
            final(self)@ == old(self)@.with_client(addr@, now),
    {
        self.ws_connections.push(WsClient { addr: addr.to_string(), connected_at: now });
        assert(self@.ws_connections =~= old(self)@.with_client(addr@, now).ws_connections);
    }

    /// Unregisters a client.
    pub fn drop_client(&mut self, addr: &str)
        ensures
            final(self)@ == old(self)@.without_client(addr@),
    {
        let ghost all = self.ws_connections.deep_view();
        let ghost keep = |c: ClientView| c.addr != addr@;
        let mut rest: Vec<WsClient> = Vec::new();
        let mut left: Vec<WsClient> = Vec::new();
        core::mem::swap(&mut left, &mut self.ws_connections);
        let n: usize = left.len();
        let mut i: usize = 0;
        assert(all.take(0) == Seq::<ClientView>::empty());
        assert(rest.deep_view() =~= all.take(0).filter(keep)) by {
            reveal(Seq::filter);
        }
        while i < n
            invariant
                i <= n == all.len(),
                left@.len() == n,
                left.deep_view() == all,
                keep == (|c: ClientView| c.addr != addr@),
                rest.deep_view() == all.take(i as int).filter(keep),
            decreases n - i,
        {
            let c = &left[i];
            proof {
                assert(all[i as int] == c.deep_view());
                assert(all.take(i + 1).drop_last() == all.take(i as int));
                assert(all.take(i + 1).filter(keep) == (if keep(all[i as int]) {
                    all.take(i as int).filter(keep).push(all[i as int])
                } else {
                    all.take(i as int).filter(keep)
                })) by {
                    reveal(Seq::filter);
                }
            }
            let ghost before = rest.deep_view();
            if !text::same(c.addr.as_str(), addr) {
                rest.push(WsClient { addr: c.addr.clone(), connected_at: c.connected_at });
                assert(rest.deep_view() =~= before.push(all[i as int]));
            }
            i += 1;
        }
        assert(all.take(n as int) == all);
        self.ws_connections = rest;
    }

    /// Where a client finds the service.
    pub fn connection_url(&self) -> (url: String)
        ensures
            url@ == self@.url(),
    {
        match &self.ws_mode {
            WsMode::Local { port } => {
                let tail = cat2("/ws?key=", self.ws_secret.as_str());
                cat3("ws://127.0.0.1:", decimal_of(*port as u64).as_str(), tail.as_str())
            },
            WsMode::Cloud { relay_url, room_id } => {
                let tail = cat3(room_id.as_str(), "&key=", self.ws_secret.as_str());
                cat3(relay_url.as_str(), "/join?room=", tail.as_str())
            },
            WsMode::Off => "WebSocket is off".to_string(),
        }
    }
}

// ── Laws ──

/// The debug log holds the newest entry, and keeps the entries that it had but for the oldest one.
pub proof fn law_debug_log_keeps_the_newest(s: SharedView, now: u64, msg: Seq<char>)
    requires
        s.wf(),
    ensures
        s.logged(now, msg).wf(),
        s.logged(now, msg).debug_log.last() == (now, msg),
        s.debug_log.len() < DEBUG_LOG_KEPT ==> s.logged(now, msg).debug_log == s.debug_log.push(
            (now, msg),
        ),
        s.debug_log.len() == DEBUG_LOG_KEPT ==> s.logged(now, msg).debug_log
            == s.debug_log.drop_first().push((now, msg)),
{
    if s.debug_log.len() > 0 {
        assert(s.debug_log.push((now, msg)).skip(1) =~= s.debug_log.drop_first().push((now, msg)));
    }
}

/// What is said in the log of the service is said in the debug log too.
pub proof fn law_both_logs(s: SharedView, now: u64, msg: Seq<char>)
    requires
        s.wf(),
    ensures
        s.ws_logged(now, msg).wf(),
        s.ws_logged(now, msg).ws_log.last() == msg,
        s.ws_logged(now, msg).debug_log.last() == (now, "[ws] "@ + msg),
{
}

/// A client that was registered is gone once it is unregistered, and the others stay.
pub proof fn law_unregistered_client_is_gone(s: SharedView, addr: Seq<char>, now: u64)
    ensures
        forall|c: ClientView| #[trigger]
            s.without_client(addr).ws_connections.contains(c) <==> s.ws_connections.contains(c)
                && c.addr != addr,
        s.with_client(addr, now).without_client(addr).ws_connections == s.without_client(
            addr,
        ).ws_connections,
{
    let keep = |c: ClientView| c.addr != addr;
    let all = s.ws_connections;
    assert forall|c: ClientView| #[trigger]
        s.without_client(addr).ws_connections.contains(c) <==> all.contains(c) && c.addr != addr by {
        seqs::lemma_filter_members(all, keep, c);
    }
    let c = ClientView { addr, connected_at: now };
    assert(all.push(c).drop_last() == all);
    assert(all.push(c).filter(keep) == all.filter(keep)) by {
        reveal(Seq::filter);
    }
}

/// The debug log holds at most five hundred entries and that of the service a hundred; what they
/// lose is the oldest entry, and an entry changes nothing else.
pub proof fn law_how_long_the_logs_are(s: SharedView, now: u64, msg: Seq<char>)
    requires
        s.wf(),
    ensures
        ({
            let t = s.logged(now, msg);
            let u = s.ws_logged(now, msg);
            &&& t.debug_log.len() <= 500 && u.ws_log.len() <= 100
            &&& s.debug_log.len() < 500 ==> t.debug_log == s.debug_log.push((now, msg))
            &&& s.ws_log.len() < 100 ==> u.ws_log == s.ws_log.push(msg)
            &&& s.ws_log.len() == 100 ==> u.ws_log == s.ws_log.drop_first().push(msg)
            &&& t == (SharedView { debug_log: t.debug_log, ..s })
            &&& u == (SharedView { debug_log: u.debug_log, ws_log: u.ws_log, ..s })
        }),
{
    if s.ws_log.len() > 0 {
        assert(s.ws_log.push(msg).skip(1) =~= s.ws_log.drop_first().push(msg));
    }
}

/// Several lines are logged one after the other.
pub proof fn law_lines_are_logged_in_order(
    s: SharedView,
    now: u64,
    a: Seq<Seq<char>>,
    b: Seq<Seq<char>>,
    line: Seq<char>,
)
    ensures
        s.logged_all(now, a + b) == s.logged_all(now, a).logged_all(now, b),
        s.logged_all(now, seq![line]) == s.logged(now, line),
        s.logged_all(now, Seq::empty()) == s,
    decreases b.len(),
{
    if b.len() == 0 {
        assert(a + b == a);
    } else {
        law_lines_are_logged_in_order(s, now, a, b.drop_last(), line);
        assert((a + b).drop_last() == a + b.drop_last());
    }
    assert(seq![line].drop_last() == Seq::<Seq<char>>::empty());
    assert(s.logged_all(now, Seq::empty()) == s);
}

/// The address of the service holds what a client needs: the port of this machine, or the relay
/// and the room, and in either case the key behind them.
pub proof fn law_the_address_of_the_service(s: SharedView)
    ensures
        s.ws_mode matches ModeView::Local { port } ==> s.url() == "ws://127.0.0.1:"@
            + text::decimal(port as nat) + "/ws?key="@ + s.ws_secret,
        s.ws_mode matches ModeView::Cloud { relay_url, room_id } ==> s.url() == relay_url
            + "/join?room="@ + room_id + "&key="@ + s.ws_secret,
        s.ws_mode is Off ==> s.url() == "WebSocket is off"@,
{
    match s.ws_mode {
        ModeView::Local { port } => {
            assert(s.url() =~= "ws://127.0.0.1:"@ + text::decimal(port as nat) + "/ws?key="@
                + s.ws_secret);
        },
        ModeView::Cloud { relay_url, room_id } => {
            assert(s.url() =~= relay_url + "/join?room="@ + room_id + "&key="@ + s.ws_secret);
        },
        _ => {},
    }
}

/// Clients have different names where they have different numbers.
pub proof fn law_names_of_clients(a: u16, b: u16)
    ensures
        client_name(a) == client_name(b) ==> a == b,
        text::starts_with(client_name(a), "ws-client-"@),
{
    let n = "ws-client-"@.len() as int;
    text::law_starts_with(client_name(a), "ws-client-"@, text::decimal(a as nat));
    assert(client_name(a).skip(n) =~= text::decimal(a as nat));
    assert(client_name(b).skip(n) =~= text::decimal(b as nat));
    text::law_decimal(a as nat);
    text::law_decimal(b as nat);
}

/// The program starts with the service off, nobody connected, and one line in the debug log.
pub proof fn law_the_state_at_the_start(secret: Seq<char>, now: u64, assistant: Seq<char>)
    ensures
        ({
            let s = SharedView::new(secret, now, assistant);
            &&& s.debug_log.len() == 1 && s.debug_log[0] == (now, assistant
                + " Commander started"@)
            &&& s.ws_mode is Off && s.ws_status == "Off"@
            &&& s.ws_connections.len() == 0 && s.ws_log.len() == 0
            &&& s.ws_secret == secret
        }),
{
}

/// A key is thirty-two hexadecimal digits, and any such text is one.
pub proof fn law_what_a_key_is(key: Seq<char>, i: int)
    ensures
        is_secret(key) ==> key.len() == 32 && (0 <= i < 32 ==> '0' <= key[i] <= '9' || 'a' <= key[i]
            <= 'f'),
        key.len() == 32 && (forall|k: int|
            0 <= k < 32 ==> '0' <= #[trigger] key[k] <= '9' || 'a' <= key[k] <= 'f') ==> is_secret(
            key,
        ),
{
    if is_secret(key) && 0 <= i < 32 {
        assert(session::is_hex_lower(key[i]));
    }
}

}
