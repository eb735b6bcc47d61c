//! The daemon's socket: trying sockets in turn, one request and its answer, the
//! stream of events, and the hints that want no answer.
use vstd::prelude::*;
use vstd::string::*;
use crate::cli::{Command, EndpointRef, NodeRef};
use crate::error::{error, ErrorKind, ErrorView, MatError};
use crate::json::{
    json_parsed,
    json_text,
    lemma_lookup_push,
    lookup,
    parse,
    parse_view,
    render,
    Json,
    JsonView,
};
use crate::text;

verus! {

/// How a failed attempt is listed.
pub open spec fn attempt(socket: Seq<char>, detail: Seq<char>) -> Seq<char> {
    socket + " ("@ + detail + ")"@
}

/// The failed attempts on the first of some sockets.
pub open spec fn attempts(sockets: Seq<String>, details: Seq<String>) -> Seq<Seq<char>> {
    Seq::new(details.len(), |i: int| attempt(sockets[i]@, details[i]@))
}

/// What trying sockets in turn does next.
#[derive(Debug, PartialEq, Eq)]
pub enum Connect {
    /// Try the socket at this place.
    Try(usize),
    /// No socket answered.
    Fail(String),
}

/// Goes on trying sockets: the next one behind those that failed, or the list
/// of all failures.
pub fn connect_candidates(sockets: &Vec<String>, details: &Vec<String>) -> (c: Connect)
    requires
        details.len() <= sockets.len(),
    ensures
        details.len() < sockets.len() ==> c == Connect::Try(details.len()),
        details.len() == sockets.len() ==> (c matches Connect::Fail(s) && s@
            == "could not connect to matd at "@ + text::joined(
            attempts(sockets@, details@),
            ", "@,
        )),
{
    if details.len() < sockets.len() {
        return Connect::Try(details.len());
    }
    let mut list: Vec<String> = Vec::new();
    let mut i: usize = 0;
    while i < details.len()
        invariant
            i <= details.len(),
            details.len() == sockets.len(),
            list.len() == i,
            forall|k: int|
                0 <= k < i ==> (#[trigger] list@[k])@ == attempt(sockets@[k]@, details@[k]@),
        decreases details.len() - i,
    {
        list.push(sockets[i].clone().concat(" (").concat(&details[i]).concat(")"));
        i += 1;
    }
    assert(text::texts(list@) =~= attempts(sockets@, details@));
    Connect::Fail("could not connect to matd at ".to_owned().concat(&text::join(&list, ", ")))
}

/// The line that carries a request.
pub fn request_line(op: &Json) -> (s: String)
    ensures
        s@ == json_text(op@) + "\n"@,
{
    render(op).concat("\n")
}

/// How a request and its answer ended.
#[derive(Debug, PartialEq, Eq)]
pub enum Exchange {
    SendFailed(String),
    /// The limit of the wait could not be set.
    LimitFailed(String),
    /// No answer came in time.
    ReadTimedOut(String),
    ReadFailed(String),
    /// The daemon went away without an answer.
    Closed,
    /// A line came.
    Line(String),
}

/// What an answer that is no JSON is called.
pub open spec fn not_json(detail: Seq<char>, line: Seq<char>) -> ErrorView {
    error(
        ErrorKind::ParseError,
        "matd response was not JSON: "@ + detail + "; body="@ + line,
    )
}

/// The answer in a line that parsed, or the failure of one that did not.
pub fn response(parsed: Result<Json, String>, line: &str) -> (r: Result<Json, MatError>)
    ensures
        parsed matches Ok(v) ==> r == Ok::<Json, MatError>(v),
        parsed matches Err(detail) ==> (r matches Err(e) && e@ == not_json(detail@, line@)),
{
    match parsed {
        Ok(v) => Ok(v),
        Err(detail) => Err(
            MatError::parse_error(
                "matd response was not JSON: ".to_owned().concat(&detail).concat(
                    "; body=",
                ).concat(line),
            ),
        ),
    }
}

/// What the end of an exchange says.
pub open spec fn exchanged(x: Exchange) -> Result<JsonView, ErrorView> {
    match x {
        Exchange::SendFailed(d) => Err(
            error(ErrorKind::MatdUnavailable, "failed to send request to matd: "@ + d@),
        ),
        Exchange::LimitFailed(d) => Err(
            error(ErrorKind::Other, "failed to set read timeout: "@ + d@),
        ),
        Exchange::ReadTimedOut(d) => Err(
            error(
                ErrorKind::Timeout,
                "no response from matd within the op budget: "@ + d@
                    + "; the request may have been executed"@,
            ),
        ),
        Exchange::ReadFailed(d) => Err(
            error(
                ErrorKind::MatdUnavailable,
                "failed to read response from matd: "@ + d@
                    + "; the request may have been executed"@,
            ),
        ),
        Exchange::Closed => Err(
            error(
                ErrorKind::MatdUnavailable,
                "matd closed the connection without responding; the request may have been executed"@,
            ),
        ),
        Exchange::Line(line) => match json_parsed(line@) {
            Ok(v) => Ok(v),
            Err(detail) => Err(not_json(detail, line@)),
        },
    }
}

/// Ends an exchange: the daemon's answer, or the failure. A daemon that went
/// away is unavailable; one that sent no JSON is misunderstood.
pub fn exchange_on_stream(x: Exchange) -> (r: Result<Json, MatError>)
    ensures
        match r {
            Ok(v) => exchanged(x) == Ok::<JsonView, ErrorView>(v@),
            Err(e) => exchanged(x) == Err::<JsonView, ErrorView>(e@),
        },
{
    match x {
        Exchange::SendFailed(d) => Err(
            MatError::new(
                ErrorKind::MatdUnavailable,
                "failed to send request to matd: ".to_owned().concat(&d),
            ),
        ),
        Exchange::LimitFailed(d) => Err(
            MatError::new(
                ErrorKind::Other,
                "failed to set read timeout: ".to_owned().concat(&d),
            ),
        ),
        Exchange::ReadTimedOut(d) => Err(
            MatError::new(
                ErrorKind::Timeout,
                "no response from matd within the op budget: ".to_owned().concat(&d).concat(
                    "; the request may have been executed",
                ),
            ),
        ),
        Exchange::ReadFailed(d) => Err(
            MatError::new(
                ErrorKind::MatdUnavailable,
                "failed to read response from matd: ".to_owned().concat(&d).concat(
                    "; the request may have been executed",
                ),
            ),
        ),
        Exchange::Closed => Err(
            MatError::fixed(
                ErrorKind::MatdUnavailable,
                "matd closed the connection without responding; the request may have been executed",
            ),
        ),
        Exchange::Line(line) => response(parse(line.as_str()), line.as_str()),
    }
}

/// The kind that an error object names; any other word is the unnamed kind.
pub open spec fn named_kind(err: JsonView) -> ErrorKind {
    match err.get("kind"@) {
        Some(JsonView::Str(s)) => kind_named(s),
        _ => ErrorKind::Other,
    }
}

/// The kind of a name.
pub open spec fn kind_named(s: Seq<char>) -> ErrorKind {
    if exists|k: ErrorKind| #[trigger] k.name() == s {
        choose|k: ErrorKind| #[trigger] k.name() == s
    } else {
        ErrorKind::Other
    }
}

fn read_kind(err: &Json) -> (k: ErrorKind)
    ensures
        k == named_kind(err@),
{
    if let Some(v) = err.get("kind") {
        if let Some(s) = v.as_str() {
            return match ErrorKind::from_name(s.as_str()) {
                Some(k) => {
                    proof {
                        let c = kind_named(s@);
                        assert(k.name() == s@);
                        crate::error::law_kind_names_are_distinct(k, c);
                    }
                    k
                },
                None => ErrorKind::Other,
            };
        }
    }
    ErrorKind::Other
}

/// Where an answer goes.
#[derive(Debug, Clone, Copy, PartialEq, Eq, Structural)]
pub enum Output {
    /// It is a result.
    Stdout,
    /// It is an error of this kind.
    Stderr(ErrorKind),
}

/// Where an answer goes: one with an error is an error.
pub open spec fn output_of(v: JsonView) -> Output {
    match v.get("error"@) {
        Some(err) => Output::Stderr(named_kind(err)),
        None => Output::Stdout,
    }
}

/// Decides where an answer goes.
pub fn emit_response(v: &Json) -> (o: Output)
    ensures
        o == output_of(v@),
{
    match v.get("error") {
        Some(err) => Output::Stderr(read_kind(err)),
        None => Output::Stdout,
    }
}

/// Fields with a number put behind them where there is one.
pub open spec fn with_number(
    fields: Seq<(Seq<char>, JsonView)>,
    key: Seq<char>,
    n: Option<u64>,
) -> Seq<(Seq<char>, JsonView)> {
    match n {
        Some(n) => fields.push((key, JsonView::UInt(n))),
        None => fields,
    }
}

/// A number of sixteen bits, wider.
pub open spec fn wide(n: Option<u16>) -> Option<u64> {
    match n {
        Some(n) => Some(n as u64),
        None => None,
    }
}

/// The request to listen. A filter that is not given is not sent.
pub open spec fn listen_request(
    node: Option<u64>,
    endpoint: Option<u16>,
    cluster: Option<String>,
    attribute: Option<String>,
    event: Option<String>,
) -> JsonView {
    let base = Seq::<(Seq<char>, JsonView)>::empty().push(("op"@, JsonView::Str("listen"@)));
    let place = with_number(with_number(base, "node_id"@, node), "endpoint"@, wide(endpoint));
    JsonView::Object(
        crate::body::with_text(
            crate::body::with_text(
                crate::body::with_text(place, "cluster"@, cluster),
                "attribute"@,
                attribute,
            ),
            "event"@,
            event,
        ),
    )
}

fn put_number(j: Json, key: &str, n: Option<u64>) -> (r: Json)
    requires
        j@ is Object,
    ensures
        r@ == JsonView::Object(with_number(j@->Object_0, key@, n)),
{
    match n {
        Some(n) => j.with(key, Json::UInt(n)),
        None => j,
    }
}

/// The request to listen.
pub fn listen_request_json(
    node: Option<u64>,
    endpoint: Option<u16>,
    cluster: &Option<String>,
    attribute: &Option<String>,
    event: &Option<String>,
) -> (j: Json)
    ensures
        j@ == listen_request(node, endpoint, *cluster, *attribute, *event),
{
    let ep = match endpoint {
        Some(n) => Some(n as u64),
        None => None,
    };
    let base = Json::object().with("op", Json::text("listen"));
    let place = put_number(put_number(base, "node_id", node), "endpoint", ep);
    let j = crate::body::put_text(place, "cluster", cluster);
    let j = crate::body::put_text(j, "attribute", attribute);
    crate::body::put_text(j, "event", event)
}

/// What to listen for, and for how long.
#[derive(Debug, PartialEq, Eq)]
pub struct ListenParams {
    pub node: Option<u64>,
    pub endpoint: Option<u16>,
    pub cluster: Option<String>,
    pub attribute: Option<String>,
    pub event: Option<String>,
    /// The number of events to wait for; zero for no end.
    pub count: u32,
    /// The time to wait; zero for no end.
    pub timeout_ms: u64,
    /// Whether to go on when the daemon is lost.
    pub reconnect: bool,
}

/// The request for what is listened for.
pub fn dispatch_listen(p: &ListenParams) -> (j: Json)
    ensures
        j@ == listen_request(p.node, p.endpoint, p.cluster, p.attribute, p.event),
{
    listen_request_json(p.node, p.endpoint, &p.cluster, &p.attribute, &p.event)
}

/// The number of a node, where one is given.
pub open spec fn given_node(node: Option<NodeRef>) -> Result<Option<u64>, ErrorView> {
    match node {
        None => Ok(None),
        Some(n) => match n.number() {
            Ok(id) => Ok(Some(id)),
            Err(e) => Err(e),
        },
    }
}

/// The number of an endpoint, where one is given.
pub open spec fn given_endpoint(endpoint: Option<EndpointRef>) -> Result<Option<u16>, ErrorView> {
    match endpoint {
        None => Ok(None),
        Some(p) => match p.number() {
            Ok(id) => Ok(Some(id)),
            Err(e) => Err(e),
        },
    }
}

/// What a command listens for. Another command, or an alias that was left over,
/// is an internal failure.
pub fn listen_params(command: Command) -> (r: Result<ListenParams, MatError>)
    ensures
        match command {
            Command::Listen {
                node_id,
                endpoint,
                cluster,
                attribute,
                event,
                count,
                timeout_ms,
                reconnect,
            } => match (given_node(node_id), given_endpoint(endpoint)) {
                (Err(e), _) => r matches Err(f) && f@ == e,
                (_, Err(e)) => r matches Err(f) && f@ == e,
                (Ok(n), Ok(p)) => r == Ok::<ListenParams, MatError>(
                    ListenParams {
                        node: n,
                        endpoint: p,
                        cluster,
                        attribute,
                        event,
                        count,
                        timeout_ms,
                        reconnect,
                    },
                ),
            },
            _ => r matches Err(f) && f@ == error(
                ErrorKind::ParseError,
                "internal: dispatch_listen called with non-Listen command (dispatch invariant violated)"@,
            ),
        },
{
    match command {
        Command::Listen {
            node_id,
            endpoint,
            cluster,
            attribute,
            event,
            count,
            timeout_ms,
            reconnect,
        } => {
            let node = match node_id {
                None => None,
                Some(n) => match n.id() {
                    Ok(id) => Some(id),
                    Err(e) => {
                        return Err(e);
                    },
                },
            };
            let place = match endpoint {
                None => None,
                Some(p) => match p.id() {
                    Ok(id) => Some(id),
                    Err(e) => {
                        return Err(e);
                    },
                },
            };
            Ok(
                ListenParams {
                    node,
                    endpoint: place,
                    cluster,
                    attribute,
                    event,
                    count,
                    timeout_ms,
                    reconnect,
                },
            )
        },
        _ => Err(
            MatError::fixed(
                ErrorKind::ParseError,
                "internal: dispatch_listen called with non-Listen command (dispatch invariant violated)",
            ),
        ),
    }
}

/// When listening ends, from the time of its beginning, both in milliseconds;
/// never for a limit of zero.
pub open spec fn end_of(timeout_ms: u64, now_ms: u64) -> Option<u128> {
    if timeout_ms > 0 {
        Some((now_ms + timeout_ms) as u128)
    } else {
        None
    }
}

/// When listening ends, from the time of its beginning, both in milliseconds;
/// never for a limit of zero.
pub fn listen_deadline(timeout_ms: u64, now_ms: u64) -> (d: Option<u128>)
    ensures
        d == end_of(timeout_ms, now_ms),
{
    if timeout_ms > 0 {
        Some(now_ms as u128 + timeout_ms as u128)
    } else {
        None
    }
}

/// What a line of the stream means.
#[derive(Debug, PartialEq, Eq)]
pub enum StreamStep {
    /// The daemon listens; nothing is printed.
    Ack,
    /// Print the event; with the count of events so far, and whether it is the
    /// last.
    Event { received: u32, last: bool },
    /// The daemon refuses, or has fallen behind.
    Refused(ErrorKind),
    /// The connection is lost, and why.
    Lost(String),
}

/// What a step of the stream says.
pub enum StreamView {
    Ack,
    Event { received: int, last: bool },
    Refused(ErrorKind),
    Lost(Seq<char>),
}

impl View for StreamStep {
    type V = StreamView;

    open spec fn view(&self) -> StreamView {
        match *self {
            StreamStep::Ack => StreamView::Ack,
            StreamStep::Event { received, last } => StreamView::Event {
                received: received as int,
                last,
            },
            StreamStep::Refused(k) => StreamView::Refused(k),
            StreamStep::Lost(s) => StreamView::Lost(s@),
        }
    }
}

/// What a line of the stream means: the first one acknowledges, an error ends
/// it, and every other is an event.
pub open spec fn stream_line(
    first: bool,
    received: int,
    count: int,
    parsed: Result<JsonView, Seq<char>>,
    line: Seq<char>,
) -> StreamView {
    match parsed {
        Err(detail) => StreamView::Lost(
            "matd sent non-JSON line: "@ + detail + "; body="@ + line,
        ),
        Ok(v) => match v.get("error"@) {
            Some(err) => StreamView::Refused(named_kind(err)),
            None => if !first {
                StreamView::Event {
                    received: received + 1,
                    last: count > 0 && received + 1 >= count,
                }
            } else if v.get("listening"@) is Some {
                StreamView::Ack
            } else {
                StreamView::Lost("matd listen ack malformed: "@ + json_text(v))
            },
        },
    }
}

/// Takes a line of the stream that was parsed.
pub fn stream_parsed(
    first: bool,
    received: u32,
    count: u32,
    parsed: &Result<Json, String>,
    line: &str,
) -> (s: StreamStep)
    requires
        received < u32::MAX,
    ensures
        s@ == stream_line(first, received as int, count as int, parse_view(*parsed), line@),
{
    let v = match parsed {
        Err(detail) => {
            return StreamStep::Lost(
                "matd sent non-JSON line: ".to_owned().concat(detail).concat("; body=").concat(
                    line,
                ),
            );
        },
        Ok(v) => v,
    };
    if let Some(err) = v.get("error") {
        return StreamStep::Refused(read_kind(err));
    }
    if first {
        return match v.get("listening") {
            Some(_) => StreamStep::Ack,
            None => StreamStep::Lost(
                "matd listen ack malformed: ".to_owned().concat(&render(v)),
            ),
        };
    }
    StreamStep::Event { received: received + 1, last: count > 0 && received + 1 >= count }
}

/// Takes a line of the stream.
pub fn stream_events(first: bool, received: u32, count: u32, line: &str) -> (s: StreamStep)
    requires
        received < u32::MAX,
    ensures
        s@ == stream_line(first, received as int, count as int, json_parsed(line@), line@),
{
    stream_parsed(first, received, count, &parse(line), line)
}

/// The end of a stream that the daemon closed.
pub fn stream_closed() -> (s: String)
    ensures
        s@ == "matd closed the event stream"@,
{
    "matd closed the event stream".to_owned()
}

/// The end of a stream that could not be read.
pub fn stream_unreadable(detail: &str) -> (s: String)
    ensures
        s@ == "failed to read from matd: "@ + detail@,
{
    "failed to read from matd: ".to_owned().concat(detail)
}

/// Listening ends as soon as as many events came as were asked for, and not
/// before.
pub proof fn law_listening_ends_at_the_count(received: int, count: int, v: JsonView, line: Seq<char>)
    requires
        0 <= received < count,
        v.get("error"@) is None,
    ensures
        stream_line(false, received, count, Ok(v), line) == (StreamView::Event {
            received: received + 1,
            last: received + 1 == count,
        }),
{
}

/// Without a count listening never ends by itself.
pub proof fn law_listening_without_a_count_goes_on(received: int, v: JsonView, line: Seq<char>)
    requires
        v.get("error"@) is None,
    ensures
        stream_line(false, received, 0, Ok(v), line) == (StreamView::Event {
            received: received + 1,
            last: false,
        }),
{
}

/// The failure when time ran out; none where an event had come.
pub fn finish_on_timeout(received: u32) -> (r: Result<(), MatError>)
    ensures
        r is Ok <==> received > 0,
        r matches Err(e) ==> e@ == error(
            ErrorKind::Timeout,
            "no events received within --timeout-ms"@,
        ),
{
    if received == 0 {
        Err(MatError::fixed(ErrorKind::Timeout, "no events received within --timeout-ms"))
    } else {
        Ok(())
    }
}

/// The failure to begin listening.
pub fn listen_unavailable(detail: &str) -> (e: MatError)
    ensures
        e@ == error(
            ErrorKind::MatdUnavailable,
            detail@ + "; `mat listen` requires a running matd"@,
        ),
{
    MatError::new(
        ErrorKind::MatdUnavailable,
        detail.to_owned().concat("; `mat listen` requires a running matd"),
    )
}

/// The first pause before a new connection, in milliseconds.
pub const BACKOFF_FIRST_MS: u64 = 1_000;

/// The longest pause before a new connection, in milliseconds.
pub const BACKOFF_LIMIT_MS: u64 = 30_000;

/// The pause behind a pause.
pub open spec fn longer(backoff: int) -> int {
    if 2 * backoff <= BACKOFF_LIMIT_MS {
        2 * backoff
    } else {
        BACKOFF_LIMIT_MS as int
    }
}

/// What to do when the daemon is lost.
#[derive(Debug, Clone, Copy, PartialEq, Eq, Structural)]
pub enum Reconnect {
    /// Time ran out.
    Finish,
    /// Wait this long, and longer the next time.
    Wait { ms: u64, next: u64 },
}

/// Decides what to do when the daemon is lost: a pause that no deadline cuts
/// off, doubled each time up to the limit. `remaining` is the time that is left,
/// where there is a limit.
pub fn run_listen_reconnecting(backoff: u64, remaining: Option<u64>) -> (r: Reconnect)
    requires
        backoff <= BACKOFF_LIMIT_MS,
    ensures
        remaining == Some(0u64) <==> r == Reconnect::Finish,
        r matches Reconnect::Wait { ms, next } ==> next == longer(backoff as int) && (match remaining {
            Some(left) => ms == if backoff <= left {
                backoff
            } else {
                left
            },
            None => ms == backoff,
        }),
{
    let ms: u64 = match remaining {
        Some(left) => {
            if left == 0 {
                return Reconnect::Finish;
            }
            if backoff <= left {
                backoff
            } else {
                left
            }
        },
        None => backoff,
    };
    let next: u64 = if 2 * backoff <= BACKOFF_LIMIT_MS {
        2 * backoff
    } else {
        BACKOFF_LIMIT_MS
    };
    Reconnect::Wait { ms, next }
}

/// The pause behind some lost connections in a row.
pub open spec fn backoff_after(lost: nat) -> int
    decreases lost,
{
    if lost == 0 {
        BACKOFF_FIRST_MS as int
    } else {
        longer(backoff_after((lost - 1) as nat))
    }
}

/// The pauses grow from the first to the limit, where they stay: one, two,
/// four, eight, sixteen and then thirty seconds.
pub proof fn law_backoff_grows_to_the_limit(lost: nat)
    ensures
        BACKOFF_FIRST_MS <= backoff_after(lost) <= BACKOFF_LIMIT_MS,
        backoff_after(lost) <= backoff_after(lost + 1),
        lost >= 5 ==> backoff_after(lost) == BACKOFF_LIMIT_MS,
        backoff_after(1) == 2_000,
        backoff_after(2) == 4_000,
        backoff_after(3) == 8_000,
        backoff_after(4) == 16_000,
    decreases lost,
{
    reveal_with_fuel(backoff_after, 6);
    if lost > 0 {
        law_backoff_grows_to_the_limit((lost - 1) as nat);
    }
}

/// Listening over one connection after another.
#[derive(Debug, Clone, Copy, PartialEq, Eq, Structural)]
pub struct Relisten {
    /// The pause before the next connection, in milliseconds.
    pub backoff: u64,
    /// When listening ends, in milliseconds, waits included.
    pub deadline: Option<u128>,
}

/// What happened while listening.
#[derive(Debug, Clone, Copy, PartialEq, Eq, Structural)]
pub enum ListenEvent {
    /// The daemon was reached.
    Connected,
    /// It was not, or the connection was lost, at this time.
    Lost { now_ms: u64 },
}

/// What to do while listening.
#[derive(Debug, Clone, Copy, PartialEq, Eq, Structural)]
pub enum ListenAction {
    /// Take events from the connection.
    Stream,
    /// Wait, then try to reach the daemon.
    Wait { ms: u64 },
    /// Time ran out.
    Finish,
}

/// Whether the end of listening has come.
pub open spec fn is_over(deadline: Option<u128>, now_ms: u64) -> bool {
    deadline matches Some(d) && d <= now_ms
}

/// How long to wait for the next line of the stream.
#[derive(Debug, Clone, Copy, PartialEq, Eq, Structural)]
pub enum ReadWait {
    /// Until it comes.
    NoLimit,
    /// No more than this, in milliseconds.
    Limit { ms: u128 },
    /// Not at all: time ran out.
    Finish,
}

/// How long to wait for the next line of the stream: without an end there is no
/// limit, behind the end nothing is read any more, and before it the wait lasts
/// exactly until the end.
pub fn read_wait(deadline: Option<u128>, now_ms: u64) -> (w: ReadWait)
    ensures
        w == ReadWait::NoLimit <==> deadline is None,
        w == ReadWait::Finish <==> is_over(deadline, now_ms),
        deadline matches Some(d) ==> !is_over(deadline, now_ms) ==> w == (ReadWait::Limit {
            ms: (d - now_ms) as u128,
        }) && d - now_ms > 0,
{
    match deadline {
        None => ReadWait::NoLimit,
        Some(d) => if d <= now_ms as u128 {
            ReadWait::Finish
        } else {
            ReadWait::Limit { ms: d - now_ms as u128 }
        },
    }
}

/// What follows while listening: a connection sets the pause back to the first
/// one; a loss is waited out, but not beyond the end, and makes the next pause
/// longer. The end stays the same.
pub open spec fn relisten_step(s: Relisten, ev: ListenEvent) -> (Relisten, ListenAction) {
    match ev {
        ListenEvent::Connected => (
            Relisten { backoff: BACKOFF_FIRST_MS, deadline: s.deadline },
            ListenAction::Stream,
        ),
        ListenEvent::Lost { now_ms } => if is_over(s.deadline, now_ms) {
            (s, ListenAction::Finish)
        } else {
            (
                Relisten { backoff: longer(s.backoff as int) as u64, deadline: s.deadline },
                ListenAction::Wait {
                    ms: match s.deadline {
                        Some(d) => if s.backoff <= d - now_ms {
                            s.backoff
                        } else {
                            (d - now_ms) as u64
                        },
                        None => s.backoff,
                    },
                },
            )
        },
    }
}

impl Relisten {
    /// A pause is never longer than the limit.
    pub open spec fn wf(self) -> bool {
        self.backoff <= BACKOFF_LIMIT_MS
    }

    /// Begins to listen.
    pub fn new(timeout_ms: u64, now_ms: u64) -> (s: Relisten)
        ensures
            s.wf(),
            s == (Relisten { backoff: BACKOFF_FIRST_MS, deadline: end_of(timeout_ms, now_ms) }),
    {
        Relisten { backoff: BACKOFF_FIRST_MS, deadline: listen_deadline(timeout_ms, now_ms) }
    }

    /// Goes on when something happened.
    pub fn step(&mut self, ev: ListenEvent) -> (a: ListenAction)
        requires
            old(self).wf(),
        ensures
            final(self).wf(),
            (*final(self), a) == relisten_step(*old(self), ev),
    {
        match ev {
            ListenEvent::Connected => {
                self.backoff = BACKOFF_FIRST_MS;
                ListenAction::Stream
            },
            ListenEvent::Lost { now_ms } => {
                let remaining: Option<u64> = match self.deadline {
                    None => None,
                    Some(d) => if d <= now_ms as u128 {
                        Some(0)
                    } else if d - now_ms as u128 > u64::MAX as u128 {
                        Some(u64::MAX)
                    } else {
                        Some((d - now_ms as u128) as u64)
                    },
                };
                match run_listen_reconnecting(self.backoff, remaining) {
                    Reconnect::Finish => ListenAction::Finish,
                    Reconnect::Wait { ms, next } => {
                        self.backoff = next;
                        ListenAction::Wait { ms }
                    },
                }
            },
        }
    }
}

/// Where listening stands behind some events.
pub open spec fn relisten_run(s: Relisten, events: Seq<ListenEvent>) -> Relisten
    decreases events.len(),
{
    if events.len() == 0 {
        s
    } else {
        relisten_step(relisten_run(s, events.drop_last()), events.last()).0
    }
}

/// How many connections were lost since the daemon was last reached.
pub open spec fn lost_in_a_row(events: Seq<ListenEvent>) -> nat
    decreases events.len(),
{
    if events.len() == 0 || events.last() is Connected {
        0
    } else {
        lost_in_a_row(events.drop_last()) + 1
    }
}

/// The pause counts only what was lost since the daemon was last reached, from
/// which it starts anew; and listening has one end, which no connection moves.
pub proof fn law_pause_starts_anew_after_a_connection(
    timeout_ms: u64,
    start_ms: u64,
    events: Seq<ListenEvent>,
)
    requires
        forall|i: int|
            0 <= i < events.len() ==> ((#[trigger] events[i]) matches ListenEvent::Lost { now_ms }
                ==> !is_over(end_of(timeout_ms, start_ms), now_ms)),
    ensures
        relisten_run(
            Relisten { backoff: BACKOFF_FIRST_MS, deadline: end_of(timeout_ms, start_ms) },
            events,
        ) == (Relisten {
            backoff: backoff_after(lost_in_a_row(events)) as u64,
            deadline: end_of(timeout_ms, start_ms),
        }),
    decreases events.len(),
{
    if events.len() > 0 {
        let front = events.drop_last();
        assert forall|i: int| 0 <= i < front.len() implies ((#[trigger] front[i]) matches ListenEvent::Lost {
            now_ms,
        } ==> !is_over(end_of(timeout_ms, start_ms), now_ms)) by {
            assert(front[i] == events[i]);
        }
        law_pause_starts_anew_after_a_connection(timeout_ms, start_ms, front);
        law_backoff_grows_to_the_limit(lost_in_a_row(front));
        assert(events[events.len() - 1] == events.last());
    }
}

/// How long an answer to the hint that a node was touched is waited for, in
/// milliseconds. It is not used.
pub const TOUCHED_WAIT_MS: u64 = 300;

/// How long the answer to the hint to read the credentials again is waited for,
/// in milliseconds. The daemon reads its store and signs before it answers.
pub const RELOAD_WAIT_MS: u64 = 1_500;

/// What a daemon said to the hint to read its credentials again.
#[derive(Debug, Clone, Copy, PartialEq, Eq, Structural)]
pub enum MatdReload {
    Reloaded,
    NotRunning,
    Failed,
}

impl MatdReload {
    /// The word for it.
    pub open spec fn word(self) -> Seq<char> {
        match self {
            MatdReload::Reloaded => "reloaded"@,
            MatdReload::NotRunning => "not_running"@,
            MatdReload::Failed => "failed"@,
        }
    }

    /// The word for it.
    pub fn as_str(self) -> (s: &'static str)
        ensures
            s@ == self.word(),
    {
        match self {
            MatdReload::Reloaded => "reloaded",
            MatdReload::NotRunning => "not_running",
            MatdReload::Failed => "failed",
        }
    }
}

/// What an answer to the hint means.
#[derive(Debug, Clone, Copy, PartialEq, Eq, Structural)]
pub enum ReloadAck {
    Reloaded,
    /// The daemon read its credentials and found the same key: it may serve
    /// another store or fabric.
    ReloadedIpkUnchanged,
    NoAck,
}

/// What an answer to the hint means.
pub open spec fn ack_of(parsed: Result<JsonView, Seq<char>>) -> ReloadAck {
    match parsed {
        Err(_) => ReloadAck::NoAck,
        Ok(v) => if !(v.get("reloaded"@) == Some(JsonView::Bool(true))) {
            ReloadAck::NoAck
        } else if crate::json::str_field(v, "ipk"@) == Some("unchanged"@) {
            ReloadAck::ReloadedIpkUnchanged
        } else {
            ReloadAck::Reloaded
        },
    }
}

/// What an answer to the hint that was parsed means.
pub fn reload_ack(parsed: &Result<Json, String>) -> (a: ReloadAck)
    ensures
        a == ack_of(parse_view(*parsed)),
{
    let v = match parsed {
        Err(_) => {
            return ReloadAck::NoAck;
        },
        Ok(v) => v,
    };
    match v.get("reloaded") {
        Some(b) => match b.as_bool() {
            Some(true) => {},
            _ => {
                return ReloadAck::NoAck;
            },
        },
        None => {
            return ReloadAck::NoAck;
        },
    }
    if let Some(i) = v.get("ipk") {
        if let Some(s) = i.as_str() {
            if text::same(s.as_str(), "unchanged") {
                return ReloadAck::ReloadedIpkUnchanged;
            }
        }
    }
    ReloadAck::Reloaded
}

/// What an answer to the hint means.
pub fn classify_reload_ack(line: &str) -> (a: ReloadAck)
    ensures
        a == ack_of(json_parsed(line@)),
{
    reload_ack(&parse(line))
}

/// How the hint went.
#[derive(Debug, PartialEq, Eq)]
pub enum HintReply {
    /// No socket answered.
    NoDaemon,
    /// It could not be sent.
    SendFailed,
    /// No answer came in time.
    Silent,
    Line(String),
}

/// How the hint went, in one of three words.
pub fn hint_reload_at(reply: HintReply) -> (r: MatdReload)
    ensures
        r == match reply {
            HintReply::NoDaemon => MatdReload::NotRunning,
            HintReply::SendFailed => MatdReload::Failed,
            HintReply::Silent => MatdReload::Failed,
            HintReply::Line(line) => if ack_of(json_parsed(line@)) == ReloadAck::NoAck {
                MatdReload::Failed
            } else {
                MatdReload::Reloaded
            },
        },
{
    match reply {
        HintReply::NoDaemon => MatdReload::NotRunning,
        HintReply::SendFailed => MatdReload::Failed,
        HintReply::Silent => MatdReload::Failed,
        HintReply::Line(line) => match classify_reload_ack(line.as_str()) {
            ReloadAck::NoAck => MatdReload::Failed,
            _ => MatdReload::Reloaded,
        },
    }
}

/// The hint to read the credentials again.
pub fn reload_op() -> (j: Json)
    ensures
        j@ == JsonView::Object(
            Seq::<(Seq<char>, JsonView)>::empty().push(("op"@, JsonView::Str("reload"@))),
        ),
{
    Json::object().with("op", Json::text("reload"))
}

/// The hint that a node was touched.
pub fn node_touched_op(node_id: u64) -> (j: Json)
    ensures
        j@ == JsonView::Object(
            Seq::<(Seq<char>, JsonView)>::empty().push(
                ("op"@, JsonView::Str("node_touched"@)),
            ).push(("node_id"@, JsonView::UInt(node_id))),
        ),
        j@.get("op"@) == Some(JsonView::Str("node_touched"@)),
        j@.get("node_id"@) == Some(JsonView::UInt(node_id)),
{
    let j = Json::object().with("op", Json::text("node_touched")).with(
        "node_id",
        Json::UInt(node_id),
    );
    proof {
        reveal_strlit("op");
        reveal_strlit("node_id");
        let f = j@->Object_0;
        assert(f[0].0 == "op"@);
        assert(f[1].0 == "node_id"@);
        crate::json::law_first_field_is_found(f, "op"@, 0);
        crate::json::law_first_field_is_found(f, "node_id"@, 1);
    }
    j
}

proof fn lemma_with_text(
    fields: Seq<(Seq<char>, JsonView)>,
    key: Seq<char>,
    value: Option<String>,
    other: Seq<char>,
)
    requires
        lookup(fields, key) is None,
    ensures
        lookup(crate::body::with_text(fields, key, value), other) == if other == key {
            match value {
                Some(s) => Some(JsonView::Str(s@)),
                None => None,
            }
        } else {
            lookup(fields, other)
        },
{
    if let Some(s) = value {
        lemma_lookup_push(fields, key, JsonView::Str(s@), other);
    }
}

proof fn lemma_with_number(
    fields: Seq<(Seq<char>, JsonView)>,
    key: Seq<char>,
    n: Option<u64>,
    other: Seq<char>,
)
    requires
        lookup(fields, key) is None,
    ensures
        lookup(with_number(fields, key, n), other) == if other == key {
            match n {
                Some(n) => Some(JsonView::UInt(n)),
                None => None,
            }
        } else {
            lookup(fields, other)
        },
{
    if let Some(n) = n {
        lemma_lookup_push(fields, key, JsonView::UInt(n), other);
    }
}

/// The request to listen holds each limit under its name where one was given,
/// and nothing under the name of one that was not.
pub proof fn law_listen_request_by_name(
    node: Option<u64>,
    endpoint: Option<u16>,
    cluster: Option<String>,
    attribute: Option<String>,
    event: Option<String>,
)
    ensures
        listen_request(node, endpoint, cluster, attribute, event).get("op"@) == Some(
            JsonView::Str("listen"@),
        ),
        listen_request(node, endpoint, cluster, attribute, event).get("node_id"@) == match node {
            Some(n) => Some(JsonView::UInt(n)),
            None => None,
        },
        listen_request(node, endpoint, cluster, attribute, event).get("endpoint"@)
            == match endpoint {
            Some(n) => Some(JsonView::UInt(n as u64)),
            None => None,
        },
        listen_request(node, endpoint, cluster, attribute, event).get("cluster"@) == match cluster {
            Some(s) => Some(JsonView::Str(s@)),
            None => None,
        },
        listen_request(node, endpoint, cluster, attribute, event).get("attribute"@)
            == match attribute {
            Some(s) => Some(JsonView::Str(s@)),
            None => None,
        },
        listen_request(node, endpoint, cluster, attribute, event).get("event"@) == match event {
            Some(s) => Some(JsonView::Str(s@)),
            None => None,
        },
{
    reveal_strlit("op");
    reveal_strlit("node_id");
    reveal_strlit("endpoint");
    reveal_strlit("cluster");
    reveal_strlit("attribute");
    reveal_strlit("event");
    assert("node_id"@[0] != "cluster"@[0]);
    assert("op"@.len() == 2);
    assert("node_id"@.len() == 7);
    assert("endpoint"@.len() == 8);
    assert("cluster"@.len() == 7);
    assert("attribute"@.len() == 9);
    assert("event"@.len() == 5);
    assert("op"@ != "node_id"@);
    assert("op"@ != "endpoint"@);
    assert("op"@ != "cluster"@);
    assert("op"@ != "attribute"@);
    assert("op"@ != "event"@);
    assert("node_id"@ != "endpoint"@);
    assert("node_id"@ != "cluster"@);
    assert("node_id"@ != "attribute"@);
    assert("node_id"@ != "event"@);
    assert("endpoint"@ != "cluster"@);
    assert("endpoint"@ != "attribute"@);
    assert("endpoint"@ != "event"@);
    assert("cluster"@ != "attribute"@);
    assert("cluster"@ != "event"@);
    assert("attribute"@ != "event"@);
    let a = Seq::<(Seq<char>, JsonView)>::empty().push(("op"@, JsonView::Str("listen"@)));
    let b = with_number(a, "node_id"@, node);
    let c = with_number(b, "endpoint"@, wide(endpoint));
    let d = crate::body::with_text(c, "cluster"@, cluster);
    let e = crate::body::with_text(d, "attribute"@, attribute);
    let empty = Seq::<(Seq<char>, JsonView)>::empty();
    assert forall|key: Seq<char>| #[trigger] lookup(a, key) == if key == "op"@ {
        Some(JsonView::Str("listen"@))
    } else {
        None
    } by {
        lemma_lookup_push(empty, "op"@, JsonView::Str("listen"@), key);
    }
    assert forall|key: Seq<char>| #[trigger] lookup(b, key) == if key == "node_id"@ {
        match node {
            Some(n) => Some(JsonView::UInt(n)),
            None => None,
        }
    } else {
        lookup(a, key)
    } by {
        lemma_with_number(a, "node_id"@, node, key);
    }
    assert forall|key: Seq<char>| #[trigger] lookup(c, key) == if key == "endpoint"@ {
        match endpoint {
            Some(n) => Some(JsonView::UInt(n as u64)),
            None => None,
        }
    } else {
        lookup(b, key)
    } by {
        lemma_with_number(b, "endpoint"@, wide(endpoint), key);
    }
    assert forall|key: Seq<char>| #[trigger] lookup(d, key) == if key == "cluster"@ {
        match cluster {
            Some(s) => Some(JsonView::Str(s@)),
            None => None,
        }
    } else {
        lookup(c, key)
    } by {
        lemma_with_text(c, "cluster"@, cluster, key);
    }
    assert forall|key: Seq<char>| #[trigger] lookup(e, key) == if key == "attribute"@ {
        match attribute {
            Some(s) => Some(JsonView::Str(s@)),
            None => None,
        }
    } else {
        lookup(d, key)
    } by {
        lemma_with_text(d, "attribute"@, attribute, key);
    }
    lemma_with_text(e, "event"@, event, "op"@);
    lemma_with_text(e, "event"@, event, "node_id"@);
    lemma_with_text(e, "event"@, event, "endpoint"@);
    lemma_with_text(e, "event"@, event, "cluster"@);
    lemma_with_text(e, "event"@, event, "attribute"@);
    lemma_with_text(e, "event"@, event, "event"@);
}

/// The name of a kind stands for that kind, and a word that names none for
/// none in particular.
pub proof fn law_kind_is_known_by_its_name(k: ErrorKind, s: Seq<char>)
    ensures
        kind_named(k.name()) == k,
        (forall|j: ErrorKind| #[trigger] j.name() != s) ==> kind_named(s) == ErrorKind::Other,
{
    assert(k.name() == k.name());
    let j = kind_named(k.name());
    crate::error::law_kind_names_are_distinct(j, k);
}

/// An answer goes out as an error if and only if it holds one, and then with
/// the kind that it names.
pub proof fn law_answer_with_an_error_is_one(v: JsonView, k: ErrorKind)
    ensures
        output_of(v) == Output::Stdout <==> v.get("error"@) is None,
        v.get("error"@) matches Some(e) ==> (e.get("kind"@) == Some(JsonView::Str(k.name()))
            ==> output_of(v) == Output::Stderr(k)),
{
    law_kind_is_known_by_its_name(k, k.name());
}

/// A failed exchange says how far it came: a request that was not sent, a limit
/// that could not be set, and an answer that did not come, with the warning that
/// the request may have been carried out.
pub proof fn law_failed_exchange_says_how_far_it_came(d: String)
    ensures
        exchanged(Exchange::SendFailed(d)) matches Err(e) && e.kind == ErrorKind::MatdUnavailable
            && text::occurs(e.detail, d@),
        exchanged(Exchange::LimitFailed(d)) matches Err(e) && e.kind == ErrorKind::Other
            && text::occurs(e.detail, d@),
        exchanged(Exchange::ReadTimedOut(d)) matches Err(e) && e.kind == ErrorKind::Timeout
            && text::occurs(e.detail, "; the request may have been executed"@),
        exchanged(Exchange::ReadFailed(d)) matches Err(e) && e.kind == ErrorKind::MatdUnavailable
            && text::occurs(e.detail, "; the request may have been executed"@),
        exchanged(Exchange::Closed) matches Err(e) && e.kind == ErrorKind::MatdUnavailable,
        exchanged(Exchange::Line(d)) matches Ok(v) ==> json_parsed(d@) == Ok::<
            JsonView,
            Seq<char>,
        >(v),
        json_parsed(d@) matches Ok(v) ==> exchanged(Exchange::Line(d)) == Ok::<
            JsonView,
            ErrorView,
        >(v),
        json_parsed(d@) is Err ==> (exchanged(Exchange::Line(d)) matches Err(e) && e.kind
            == ErrorKind::ParseError),
{
    let sent = exchanged(Exchange::SendFailed(d))->Err_0.detail;
    let n: int = sent.len() - d@.len();
    assert(sent.subrange(n, n + d@.len()) =~= d@);
    assert(text::occurs_at(sent, d@, n));
    let limit = exchanged(Exchange::LimitFailed(d))->Err_0.detail;
    let m: int = limit.len() - d@.len();
    assert(limit.subrange(m, m + d@.len()) =~= d@);
    assert(text::occurs_at(limit, d@, m));
    let tail = "; the request may have been executed"@;
    let late = exchanged(Exchange::ReadTimedOut(d))->Err_0.detail;
    let k: int = late.len() - tail.len();
    assert(late.subrange(k, k + tail.len()) =~= tail);
    assert(text::occurs_at(late, tail, k));
    let torn = exchanged(Exchange::ReadFailed(d))->Err_0.detail;
    let j: int = torn.len() - tail.len();
    assert(torn.subrange(j, j + tail.len()) =~= tail);
    assert(text::occurs_at(torn, tail, j));
}

/// The first line of a stream must be the acknowledgement; a refusal is one on
/// any line, with the kind that it names; and what is no JSON loses the stream.
pub proof fn law_stream_begins_with_an_acknowledgement(
    first: bool,
    received: int,
    count: int,
    v: JsonView,
    line: Seq<char>,
    detail: Seq<char>,
    k: ErrorKind,
)
    ensures
        v.get("error"@) is None && v.get("listening"@) is Some ==> stream_line(
            true,
            received,
            count,
            Ok(v),
            line,
        ) == StreamView::Ack,
        v.get("error"@) is None && v.get("listening"@) is None ==> stream_line(
            true,
            received,
            count,
            Ok(v),
            line,
        ) is Lost,
        v.get("error"@) matches Some(e) ==> (e.get("kind"@) == Some(JsonView::Str(k.name()))
            ==> stream_line(first, received, count, Ok(v), line) == StreamView::Refused(k)),
        stream_line(first, received, count, Err(detail), line) is Lost,
{
    law_kind_is_known_by_its_name(k, k.name());
}

/// A time limit ends that long after the start; no limit never does.
pub proof fn law_limit_ends_after_its_time(timeout_ms: u64, now_ms: u64, later_ms: u64)
    ensures
        timeout_ms == 0 ==> end_of(timeout_ms, now_ms) is None,
        timeout_ms > 0 ==> (end_of(timeout_ms, now_ms) matches Some(d) && d == now_ms + timeout_ms),
        is_over(end_of(timeout_ms, now_ms), later_ms) <==> timeout_ms > 0 && later_ms >= now_ms
            + timeout_ms,
{
}

/// A pause is the one that is due, cut off where the limit ends, and never
/// reaches beyond it; the stream is given up if and only if the limit is over.
pub proof fn law_pause_ends_with_the_limit(s: Relisten, now_ms: u64)
    ensures
        relisten_step(s, ListenEvent::Lost { now_ms }).1 is Finish <==> is_over(
            s.deadline,
            now_ms,
        ),
        relisten_step(s, ListenEvent::Lost { now_ms }).1 matches ListenAction::Wait { ms } ==> ms
            <= s.backoff && (s.deadline matches Some(d) ==> now_ms + ms <= d && (ms == s.backoff
            || now_ms + ms == d)) && (s.deadline is None ==> ms == s.backoff),
        relisten_step(s, ListenEvent::Connected).1 is Stream,
        relisten_step(s, ListenEvent::Lost { now_ms }).0.deadline == s.deadline,
        relisten_step(s, ListenEvent::Connected).0.deadline == s.deadline,
{
}

/// A reload is acknowledged by the word for it; whether the identity key changed
/// is said beside it.
pub proof fn law_reload_is_acknowledged_by_its_word(v: JsonView, detail: Seq<char>)
    ensures
        ack_of(Err(detail)) == ReloadAck::NoAck,
        ack_of(Ok(v)) == ReloadAck::NoAck <==> v.get("reloaded"@) != Some(JsonView::Bool(true)),
        ack_of(Ok(v)) == ReloadAck::ReloadedIpkUnchanged <==> v.get("reloaded"@) == Some(
            JsonView::Bool(true),
        ) && v.get("ipk"@) == Some(JsonView::Str("unchanged"@)),
{
}

/// Every socket that was tried is told with what came of it.
pub proof fn law_every_attempt_is_told(sockets: Seq<String>, details: Seq<String>, i: int)
    requires
        0 <= i < details.len() <= sockets.len(),
    ensures
        attempts(sockets, details).len() == details.len(),
        attempts(sockets, details)[i].take(sockets[i]@.len() as int) == sockets[i]@,
        text::occurs(attempts(sockets, details)[i], details[i]@),
{
    let a = attempts(sockets, details)[i];
    assert(a.take(sockets[i]@.len() as int) =~= sockets[i]@);
    let k: int = (sockets[i]@.len() + " ("@.len()) as int;
    assert(a.subrange(k, k + details[i]@.len()) =~= details[i]@);
    assert(text::occurs_at(a, details[i]@, k));
}

/// An error that names no kind is of none in particular.
pub proof fn law_nameless_error_is_of_no_kind(err: JsonView)
    ensures
        !(err.get("kind"@) matches Some(JsonView::Str(_))) ==> named_kind(err) == ErrorKind::Other,
        err.get("kind"@) matches Some(JsonView::Str(s)) ==> named_kind(err) == kind_named(s),
{
}

/// The words for what became of a reload.
pub proof fn law_reload_words(r: MatdReload)
    ensures
        r.word() == match r {
            MatdReload::Reloaded => "reloaded"@,
            MatdReload::NotRunning => "not_running"@,
            MatdReload::Failed => "failed"@,
        },
{
}

/// The node and the endpoint to listen to are the numbers that were given.
pub proof fn law_listening_limits_are_the_given_numbers(n: u64, ep: u16)
    ensures
        given_node(Some(NodeRef::Id(n))) == Ok::<Option<u64>, ErrorView>(Some(n)),
        given_node(None) == Ok::<Option<u64>, ErrorView>(None),
        given_endpoint(Some(EndpointRef::Id(ep))) == Ok::<Option<u16>, ErrorView>(Some(ep)),
        given_endpoint(None) == Ok::<Option<u16>, ErrorView>(None),
{
}

/// How long a hint waits for its answer.
pub proof fn law_hints_wait_shortly()
    ensures
        TOUCHED_WAIT_MS == 300,
        RELOAD_WAIT_MS == 1_500,
        BACKOFF_FIRST_MS == 1_000,
        BACKOFF_LIMIT_MS == 30_000,
{
}

} // verus!
