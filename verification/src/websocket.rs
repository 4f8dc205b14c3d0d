//! The Upbit public websocket: the subscription message, what each incoming
//! frame leads to, and the reconnection back-off.

use vstd::prelude::*;
use vstd::utf8::{decode_utf8, valid_utf8};

use crate::auth::{json_quote, random_uuid};
use crate::text::to_upper;

verus! {

/// Public websocket endpoint (tickers, order books, trades).
pub const UPBIT_PUBLIC_WEBSOCKET_URL: &'static str = "wss://api.upbit.com/websocket/v1";

/// Seconds between two pings on an open connection.
pub const PING_INTERVAL: u64 = 30;

/// Wait before the first reconnection, in seconds.
pub const RECONNECT_BASE_SECS: u64 = 1;

/// Longest wait between reconnections, in seconds.
pub const RECONNECT_MAX_SECS: u64 = 60;

/// Which stream a connection subscribes to.
#[derive(Debug, Clone, Copy, PartialEq, Eq, Structural)]
pub enum UpbitWebsocketAction {
    /// Tickers.
    Quote,
    /// Order books.
    Orderbook,
}

/// The texts of a list of market codes.
pub open spec fn code_views(codes: Seq<String>) -> Seq<Seq<char>> {
    codes.map_values(|s: String| s@)
}

/// The `type` of the subscription for a stream.
pub open spec fn stream_type(action: UpbitWebsocketAction) -> Seq<char> {
    match action {
        UpbitWebsocketAction::Quote => "ticker"@,
        UpbitWebsocketAction::Orderbook => "orderbook"@,
    }
}

/// The JSON text of a list of strings.
pub open spec fn json_string_list(items: Seq<Seq<char>>) -> Seq<char> {
    "["@ + crate::text::join_with(quoted_items(items), ","@) + "]"@
}

/// Each string as JSON text.
pub open spec fn quoted_items(items: Seq<Seq<char>>) -> Seq<Seq<char>>
    decreases items.len(),
{
    if items.len() == 0 {
        Seq::empty()
    } else {
        quoted_items(items.drop_last()).push(crate::auth::json_string_literal(items.last()))
    }
}

/// The subscription message (https://docs.upbit.com/kr/reference/websocket-guide):
/// `[{"ticket":..},{"codes":[..],"type":..},{"format":"DEFAULT"}]`, members in
/// the key order that `serde_json` writes.
pub open spec fn subscribe_text(ticket: Seq<char>, action: UpbitWebsocketAction, codes: Seq<
    Seq<char>,
>) -> Seq<char> {
    "[{\"ticket\":"@ + crate::auth::json_string_literal(ticket) + "},{\"codes\":"@
        + json_string_list(codes) + ",\"type\":"@ + crate::auth::json_string_literal(
        stream_type(action),
    ) + "},{\"format\":"@ + crate::auth::json_string_literal("DEFAULT"@) + "}]"@
}

/// The end of every subscription message: it asks for the DEFAULT format,
/// whatever the ticket, the stream and the codes.
pub proof fn lemma_subscription_asks_default_format(
    ticket: Seq<char>,
    action: UpbitWebsocketAction,
    codes: Seq<Seq<char>>,
)
    ensures
        ({
            let m = subscribe_text(ticket, action, codes);
            let tail = "},{\"format\":\"DEFAULT\"}]"@;
            m.len() >= tail.len() && m.subrange(m.len() - tail.len(), m.len() as int) == tail
        }),
{
    reveal_strlit("DEFAULT");
    reveal_strlit("},{\"format\":");
    reveal_strlit("}]");
    reveal_strlit("},{\"format\":\"DEFAULT\"}]");
    reveal_with_fuel(crate::auth::json_escaped, 8);
    assert(crate::auth::json_escaped("DEFAULT"@) =~= "DEFAULT"@);
    let tail = "},{\"format\":\"DEFAULT\"}]"@;
    let head = "[{\"ticket\":"@ + crate::auth::json_string_literal(ticket) + "},{\"codes\":"@
        + json_string_list(codes) + ",\"type\":"@ + crate::auth::json_string_literal(
        stream_type(action),
    );
    let fmt = "},{\"format\":"@ + crate::auth::json_string_literal("DEFAULT"@) + "}]"@;
    assert(fmt =~= tail);
    let m = subscribe_text(ticket, action, codes);
    assert(m =~= head + fmt);
    assert(m.subrange(m.len() - tail.len(), m.len() as int) =~= tail);
}

fn stream_type_str(action: UpbitWebsocketAction) -> (res: &'static str)
    ensures
        res@ == stream_type(action),
{
    match action {
        UpbitWebsocketAction::Quote => "ticker",
        UpbitWebsocketAction::Orderbook => "orderbook",
    }
}

fn json_list(codes: &Vec<String>) -> (res: String)
    ensures
        res@ == json_string_list(code_views(codes@)),
{
    let ghost items = code_views(codes@);
    let mut body = String::new();
    let mut i: usize = 0;
    while i < codes.len()
        invariant
            i <= codes.len(),
            items == code_views(codes@),
            body@ == crate::text::join_with(quoted_items(items.take(i as int)), ","@),
        decreases codes.len() - i,
    {
        if i != 0 {
            body.append(",");
        }
        let q = json_quote(codes[i].as_str());
        body.append(q.as_str());
        assert(items.take(i + 1).drop_last() =~= items.take(i as int));
        assert(quoted_items(items.take(i + 1)).drop_last() =~= quoted_items(items.take(i as int)));
        i = i + 1;
    }
    assert(items.take(codes.len() as int) =~= items);
    let mut res = String::from_str("[");
    res.append(body.as_str());
    res.append("]");
    res
}

/// The subscription message for `codes` on the given stream with the given ticket.
pub fn subscribe_message(ticket: &str, action: UpbitWebsocketAction, codes: &Vec<String>) -> (res:
    String)
    ensures
        res@ == subscribe_text(ticket@, action, code_views(codes@)),
{
    let mut m = String::from_str("[{\"ticket\":");
    let t = json_quote(ticket);
    m.append(t.as_str());
    m.append("},{\"codes\":");
    let list = json_list(codes);
    m.append(list.as_str());
    m.append(",\"type\":");
    let ty = json_quote(stream_type_str(action));
    m.append(ty.as_str());
    m.append("},{\"format\":");
    let f = json_quote("DEFAULT");
    m.append(f.as_str());
    m.append("}]");
    m
}

/// The subscription message for `codes`, with a fresh random UUID as the ticket.
pub fn new_subscribe_message(action: UpbitWebsocketAction, codes: &Vec<String>) -> (res: String)
    ensures
        exists|ticket: Seq<char>|
            #![trigger subscribe_text(ticket, action, code_views(codes@))]
            crate::auth::uuid_text(ticket) && res@ == subscribe_text(
                ticket,
                action,
                code_views(codes@),
            ),
{
    let ticket = random_uuid();
    let m = subscribe_message(ticket.as_str(), action, codes);
    assert(crate::auth::uuid_text(ticket@) && m@ == subscribe_text(
        ticket@,
        action,
        code_views(codes@),
    ));
    m
}

// ---------------------------------------------------------------- start-up

/// How many times the market list is fetched before falling back.
pub const MARKET_LIST_ATTEMPTS: u32 = 30;

/// Seconds between two fetches of the market list.
pub const MARKET_LIST_RETRY_SECS: u64 = 1;

/// What to do after fetching the market list for the ticker subscription.
#[derive(Debug)]
pub enum StartupStep {
    /// Wait this long, then subscribe to these codes.
    Subscribe { wait_secs: u64, pairs: Vec<String> },
    /// Wait this long, then fetch again.
    Retry { wait_secs: u64 },
}

/// Upper-case texts of a list of codes.
pub open spec fn uppercased(codes: Seq<String>) -> Seq<Seq<char>> {
    codes.map_values(|c: String| crate::text::uppercase(c@))
}

fn uppercase_all(codes: &Vec<String>) -> (res: Vec<String>)
    ensures
        code_views(res@) == uppercased(codes@),
{
    let mut out: Vec<String> = Vec::new();
    let mut i: usize = 0;
    while i < codes.len()
        invariant
            i <= codes.len(),
            code_views(out@) == uppercased(codes@.take(i as int)),
        decreases codes.len() - i,
    {
        let ghost before = out@;
        out.push(to_upper(codes[i].as_str()));
        assert(code_views(out@) =~= code_views(before).push(crate::text::uppercase(codes@[i as int]@)));
        assert(uppercased(codes@.take(i + 1)) =~= uppercased(codes@.take(i as int)).push(
            crate::text::uppercase(codes@[i as int]@),
        ));
        i = i + 1;
    }
    assert(codes@.take(codes.len() as int) =~= codes@);
    out
}

/// The start-up step after fetch number `attempt` (from 0) of the market list,
/// `fetched` being the codes or `None` when the fetch failed: a non-empty list is
/// subscribed at once, upper-cased; otherwise the fetch is retried a second
/// later, and after the last attempt `KRW-BTC` alone is subscribed a second later.
pub fn startup_step(attempt: u32, fetched: Option<Vec<String>>) -> (res: StartupStep)
    ensures
        (fetched matches Some(c) && c.len() > 0) ==> (res matches StartupStep::Subscribe {
            wait_secs,
            pairs,
        } && wait_secs == 0 && code_views(pairs@) == uppercased(fetched->Some_0@)),
        !(fetched matches Some(c) && c.len() > 0) && attempt + 1 < MARKET_LIST_ATTEMPTS ==> (res
            matches StartupStep::Retry { wait_secs } && wait_secs == MARKET_LIST_RETRY_SECS),
        !(fetched matches Some(c) && c.len() > 0) && attempt + 1 >= MARKET_LIST_ATTEMPTS ==> (res
            matches StartupStep::Subscribe { wait_secs, pairs } && wait_secs
            == MARKET_LIST_RETRY_SECS && code_views(pairs@) == seq!["KRW-BTC"@]),
{
    if let Some(codes) = &fetched {
        if codes.len() > 0 {
            let pairs = uppercase_all(codes);
            return StartupStep::Subscribe { wait_secs: 0, pairs };
        }
    }
    if attempt < MARKET_LIST_ATTEMPTS - 1 {
        StartupStep::Retry { wait_secs: MARKET_LIST_RETRY_SECS }
    } else {
        let mut pairs: Vec<String> = Vec::new();
        pairs.push(String::from_str("KRW-BTC"));
        assert(code_views(pairs@) =~= seq!["KRW-BTC"@]);
        StartupStep::Subscribe { wait_secs: MARKET_LIST_RETRY_SECS, pairs }
    }
}

// ---------------------------------------------------------------- frames

/// Calls `std::str::from_utf8` and copies the text; `None` exactly when the
/// bytes are not UTF-8.
#[verifier::external_body]
fn utf8_text(bytes: &[u8]) -> (res: Option<String>)
    ensures
        res is Some <==> valid_utf8(bytes@),
        res matches Some(s) ==> s@ == decode_utf8(bytes@),
{
    match std::str::from_utf8(bytes) {
        Ok(s) => Some(s.to_string()),
        Err(_) => None,
    }
}

/// What happens next on an Upbit connection. `T` is what the stream carries
/// (a ticker or an order book); `Parsed` is the outcome of parsing a message as one.
pub enum UpstreamFrame<T> {
    Text(String),
    /// Upbit often sends its JSON as a binary (UTF-8) frame.
    Binary(Vec<u8>),
    /// The outcome of parsing the text of the last `Parse` action as a `T`.
    Parsed(Option<T>),
    Ping(Vec<u8>),
    Pong,
    Close,
    /// Reading failed.
    Error,
    /// Any other frame.
    Other,
    /// The stream ended.
    Ended,
    /// The ping interval elapsed.
    PingDue,
}

/// What the connection does about it.
pub enum UpstreamAction<T> {
    /// Parse this text as a `T` and report the outcome as `Parsed`.
    Parse(String),
    /// Hand this value on to the receiver.
    Deliver(T),
    /// Answer with a pong carrying this payload.
    SendPong(Vec<u8>),
    /// Send an empty ping.
    SendPing,
    /// Nothing; read on.
    Continue,
    /// The session is over.
    Finish,
}

/// Decides what to do with one frame of an Upbit connection: the text of a text
/// frame, and of a binary frame that is UTF-8, is parsed; only a message that
/// parses (as a ticker or an order book) is handed on, anything else (a
/// subscription answer, an error message) is dropped; pings are answered with
/// their payload; a close, a read error or the end of the stream finishes the
/// session.
pub fn upstream_action<T>(f: UpstreamFrame<T>) -> (res: UpstreamAction<T>)
    ensures
        match f {
            UpstreamFrame::Text(t) => res == UpstreamAction::<T>::Parse(t),
            UpstreamFrame::Binary(b) => if valid_utf8(b@) {
                res matches UpstreamAction::Parse(s) && s@ == decode_utf8(b@)
            } else {
                res is Continue
            },
            UpstreamFrame::Parsed(Some(v)) => res == UpstreamAction::Deliver(v),
            UpstreamFrame::Parsed(None) => res is Continue,
            UpstreamFrame::Ping(p) => res == UpstreamAction::<T>::SendPong(p),
            UpstreamFrame::Pong => res is Continue,
            UpstreamFrame::Other => res is Continue,
            UpstreamFrame::PingDue => res is SendPing,
            UpstreamFrame::Close => res is Finish,
            UpstreamFrame::Error => res is Finish,
            UpstreamFrame::Ended => res is Finish,
        },
{
    match f {
        UpstreamFrame::Text(t) => UpstreamAction::Parse(t),
        UpstreamFrame::Binary(b) => match utf8_text(b.as_slice()) {
            Some(s) => UpstreamAction::Parse(s),
            None => UpstreamAction::Continue,
        },
        UpstreamFrame::Parsed(Some(v)) => UpstreamAction::Deliver(v),
        UpstreamFrame::Parsed(None) => UpstreamAction::Continue,
        UpstreamFrame::Ping(p) => UpstreamAction::SendPong(p),
        UpstreamFrame::Pong => UpstreamAction::Continue,
        UpstreamFrame::Other => UpstreamAction::Continue,
        UpstreamFrame::PingDue => UpstreamAction::SendPing,
        UpstreamFrame::Close => UpstreamAction::Finish,
        UpstreamFrame::Error => UpstreamAction::Finish,
        UpstreamFrame::Ended => UpstreamAction::Finish,
    }
}

// ---------------------------------------------------------------- reconnection

/// The wait after a session: back to the base after a clean end, doubled (up
/// to the maximum) after a failure.
pub open spec fn next_backoff(secs: int, session_ok: bool) -> int {
    if session_ok {
        RECONNECT_BASE_SECS as int
    } else if 2 * secs < RECONNECT_MAX_SECS {
        2 * secs
    } else {
        RECONNECT_MAX_SECS as int
    }
}

/// What the reconnecting loop does after a session.
#[derive(Debug, Clone, Copy, PartialEq, Eq, Structural)]
pub enum ReconnectStep {
    /// Nobody listens any more: stop.
    Stop,
    /// Wait this many seconds, then connect again.
    Retry { wait_secs: u64 },
}

/// The back-off of the reconnecting loop, in seconds.
#[derive(Debug, Clone, Copy, PartialEq, Eq, Structural)]
pub struct ReconnectBackoff {
    pub secs: u64,
}

impl ReconnectBackoff {
    /// The back-off before any failure.
    pub fn new() -> (res: Self)
        ensures
            res.secs == RECONNECT_BASE_SECS,
    {
        ReconnectBackoff { secs: RECONNECT_BASE_SECS }
    }

    /// Whether to connect (again): only while someone listens.
    pub fn should_connect(&self, receiver_closed: bool) -> (res: bool)
        ensures
            res == !receiver_closed,
    {
        !receiver_closed
    }

    /// After a session ended (cleanly or with an error): a clean end resets the
    /// back-off; unless nobody listens any more, the loop waits the back-off
    /// (reset or current) and, after a failure, doubles it up to the maximum.
    pub fn after_session(&mut self, session_ok: bool, receiver_closed: bool) -> (step: ReconnectStep)
        ensures
            session_ok ==> final(self).secs == RECONNECT_BASE_SECS,
            !session_ok && receiver_closed ==> final(self).secs == old(self).secs,
            !session_ok && !receiver_closed ==> final(self).secs == next_backoff(
                old(self).secs as int,
                false,
            ),
            receiver_closed ==> (step is Stop),
            !receiver_closed ==> (step == ReconnectStep::Retry {
                wait_secs: if session_ok {
                    RECONNECT_BASE_SECS
                } else {
                    old(self).secs
                },
            }),
    {
        if session_ok {
            self.secs = RECONNECT_BASE_SECS;
        }
        if receiver_closed {
            return ReconnectStep::Stop;
        }
        let wait = self.secs;
        if !session_ok {
            self.secs = if self.secs >= RECONNECT_MAX_SECS / 2 {
                RECONNECT_MAX_SECS
            } else {
                self.secs * 2
            };
        }
        ReconnectStep::Retry { wait_secs: wait }
    }
}

/// The back-off stays between the base and the maximum.
pub proof fn lemma_backoff_bounded(secs: int, session_ok: bool)
    requires
        RECONNECT_BASE_SECS <= secs <= RECONNECT_MAX_SECS,
    ensures
        RECONNECT_BASE_SECS <= next_backoff(secs, session_ok) <= RECONNECT_MAX_SECS,
{
}

/// `2^n`.
pub open spec fn doubled(n: nat) -> int
    decreases n,
{
    if n == 0 {
        1
    } else {
        2 * doubled((n - 1) as nat)
    }
}

proof fn lemma_doubled_positive(n: nat)
    ensures
        doubled(n) >= 1,
    decreases n,
{
    if n > 0 {
        lemma_doubled_positive((n - 1) as nat);
    }
}

/// `x` capped at the longest wait.
pub open spec fn capped(x: int) -> int {
    if x < RECONNECT_MAX_SECS {
        x
    } else {
        RECONNECT_MAX_SECS as int
    }
}

/// The back-off after sessions that ended as `results` say (`true` for a clean
/// end, `false` for an error), from the start, while someone listens.
pub open spec fn backoff_after(results: Seq<bool>) -> int
    decreases results.len(),
{
    if results.len() == 0 {
        RECONNECT_BASE_SECS as int
    } else {
        next_backoff(backoff_after(results.drop_last()), results.last())
    }
}

/// How many sessions at the end of `results` failed in a row.
pub open spec fn trailing_failures(results: Seq<bool>) -> nat
    decreases results.len(),
{
    if results.len() == 0 || results.last() {
        0
    } else {
        1 + trailing_failures(results.drop_last())
    }
}

/// The wait after session `i` of `results` (as `after_session` gives it while
/// someone listens): the base after a clean end, else the back-off before it.
pub open spec fn wait_after_session(results: Seq<bool>, i: int) -> int {
    if results[i] {
        RECONNECT_BASE_SECS as int
    } else {
        backoff_after(results.take(i))
    }
}

/// The back-off after any run of sessions is `2^k` seconds, capped at the
/// maximum, where `k` counts the failures since the last clean end.
pub proof fn lemma_backoff_after_run(results: Seq<bool>)
    ensures
        backoff_after(results) == capped(doubled(trailing_failures(results))),
    decreases results.len(),
{
    if results.len() > 0 {
        lemma_backoff_after_run(results.drop_last());
        let f = trailing_failures(results.drop_last());
        lemma_doubled_positive(f);
        assert(doubled(f + 1) == 2 * doubled(f));
    }
}

/// The wait after each session: one second after a clean end; after a failure
/// that ends a run of `k` failures in a row, `2^(k-1)` seconds capped at 60 —
/// exponential back-off from one second, reset by every clean session.
pub proof fn lemma_wait_after_session(results: Seq<bool>, i: int)
    requires
        0 <= i < results.len(),
    ensures
        results[i] ==> wait_after_session(results, i) == RECONNECT_BASE_SECS,
        !results[i] ==> trailing_failures(results.take(i + 1)) >= 1 && wait_after_session(
            results,
            i,
        ) == capped(doubled((trailing_failures(results.take(i + 1)) - 1) as nat)),
{
    lemma_backoff_after_run(results.take(i));
    assert(results.take(i + 1).drop_last() =~= results.take(i));
}

} // verus!
