//! One session with a node: how it is made, what each request becomes on it,
//! and how its answers are read.
use vstd::prelude::*;
use vstd::string::*;
use crate::engine::{
    SubscriptionInfo,
    SUBSCRIBE_KEEP_SUBSCRIPTIONS,
    SUBSCRIBE_MAX_INTERVAL_CEILING_S,
    SUBSCRIBE_MIN_INTERVAL_FLOOR_S,
    TIMED_REQUEST_MS,
};
use crate::errmap::{
    establish_error,
    map_establish_err,
    map_resolve_err,
    map_session_err,
    resolve_error,
    session_error,
    DnssdFailure,
    EstablishFailure,
    EstablishRole,
    SessionFailure,
};
use crate::error::{error, ErrorKind, ErrorView, MatError};

verus! {

/// Where making a session stands.
#[derive(Debug, PartialEq, Eq)]
pub enum EstablishAction {
    /// Look the node up on the network.
    Resolve,
    /// Open a session at the addresses that were found.
    Open,
    Ready,
    Fail(MatError),
}

/// What happened while a session was made.
#[derive(Debug, PartialEq, Eq)]
pub enum EstablishEvent {
    Resolved(Result<(), DnssdFailure>),
    Opened(Result<(), EstablishFailure>),
}

/// What a step of making a session says.
pub enum EstablishView {
    Resolve,
    Open,
    Ready,
    Fail(ErrorView),
}

impl View for EstablishAction {
    type V = EstablishView;

    open spec fn view(&self) -> EstablishView {
        match *self {
            EstablishAction::Resolve => EstablishView::Resolve,
            EstablishAction::Open => EstablishView::Open,
            EstablishAction::Ready => EstablishView::Ready,
            EstablishAction::Fail(e) => EstablishView::Fail(e@),
        }
    }
}

/// What follows while a session is made. The role tells the failures of an
/// operation's session from those of a subscription's.
pub open spec fn establish_step(
    node_id: u64,
    role: EstablishRole,
    ev: EstablishEvent,
) -> EstablishView {
    match ev {
        EstablishEvent::Resolved(Ok(_)) => EstablishView::Open,
        EstablishEvent::Resolved(Err(e)) => EstablishView::Fail(resolve_error(node_id, e)),
        EstablishEvent::Opened(Ok(_)) => EstablishView::Ready,
        EstablishEvent::Opened(Err(e)) => EstablishView::Fail(establish_error(node_id, role, e)),
    }
}

/// Goes on making a session.
pub fn establish_raw(node_id: u64, role: EstablishRole, ev: EstablishEvent) -> (a: EstablishAction)
    ensures
        a@ == establish_step(node_id, role, ev),
{
    match ev {
        EstablishEvent::Resolved(Ok(())) => EstablishAction::Open,
        EstablishEvent::Resolved(Err(e)) => EstablishAction::Fail(map_resolve_err(node_id, e)),
        EstablishEvent::Opened(Ok(())) => EstablishAction::Ready,
        EstablishEvent::Opened(Err(e)) => EstablishAction::Fail(
            map_establish_err(node_id, role, e),
        ),
    }
}

/// The failure of a way to make sessions that makes none for subscriptions.
pub fn subscription_unsupported() -> (e: MatError)
    ensures
        e@ == error(ErrorKind::Other, "subscription not supported by this establisher"@),
{
    MatError::fixed(ErrorKind::Other, "subscription not supported by this establisher")
}

/// The failure of a way to make sessions that keeps no credentials.
pub fn reload_unsupported() -> (e: MatError)
    ensures
        e@ == error(ErrorKind::Other, "credential reload not supported by this establisher"@),
{
    MatError::fixed(ErrorKind::Other, "credential reload not supported by this establisher")
}

/// What an attribute was read as: a truth value, or the text of anything else.
#[derive(Debug, PartialEq, Eq)]
pub enum ImAnswer {
    Bool(bool),
    Other(String),
}

/// Reads the answer to a question for on or off.
pub fn read_onoff(answer: Result<ImAnswer, SessionFailure>) -> (r: Result<bool, MatError>)
    ensures
        match answer {
            Ok(ImAnswer::Bool(b)) => r == Ok::<bool, MatError>(b),
            Ok(ImAnswer::Other(t)) => r matches Err(e) && e@ == error(
                ErrorKind::ParseError,
                "native: on-off not a bool: "@ + t@,
            ),
            Err(f) => r matches Err(e) && e@ == session_error(f),
        },
{
    match answer {
        Ok(ImAnswer::Bool(b)) => Ok(b),
        Ok(ImAnswer::Other(t)) => Err(
            MatError::parse_error("native: on-off not a bool: ".to_owned().concat(&t)),
        ),
        Err(f) => Err(map_session_err(f)),
    }
}

/// Reads any other answer: as it came, or with the failure of the session.
pub fn answered<T>(answer: Result<T, SessionFailure>) -> (r: Result<T, MatError>)
    ensures
        match answer {
            Ok(t) => r == Ok::<T, MatError>(t),
            Err(f) => r matches Err(e) && e@ == session_error(f),
        },
{
    match answer {
        Ok(t) => Ok(t),
        Err(f) => Err(map_session_err(f)),
    }
}

/// Reads the fields that a command was answered with; an answer without fields
/// has none.
pub fn answered_fields(answer: Result<Option<Vec<u8>>, SessionFailure>) -> (r: Result<
    Vec<u8>,
    MatError,
>)
    ensures
        match answer {
            Ok(Some(v)) => r == Ok::<Vec<u8>, MatError>(v),
            Ok(None) => r matches Ok(v) && v@.len() == 0,
            Err(f) => r matches Err(e) && e@ == session_error(f),
        },
{
    match answer {
        Ok(Some(v)) => Ok(v),
        Ok(None) => Ok(Vec::new()),
        Err(f) => Err(map_session_err(f)),
    }
}

/// The time that a request is announced with; none where it need not be timed.
pub open spec fn timed_request(timed: bool) -> Option<u16> {
    if timed {
        Some(TIMED_REQUEST_MS)
    } else {
        None
    }
}

/// The time that a request is announced with; none where it need not be timed.
pub fn timed_ms(timed: bool) -> (r: Option<u16>)
    ensures
        r == timed_request(timed),
{
    if timed {
        Some(TIMED_REQUEST_MS)
    } else {
        None
    }
}

/// How a command goes out.
#[derive(Debug, Clone, Copy, PartialEq, Eq, Structural)]
pub enum InvokeRequest {
    /// Alone; a status comes back.
    Plain,
    /// With room for fields in the answer, announced where it is timed.
    ForData(Option<u16>),
}

/// How a command goes out whose answer's fields are not asked for. A timed one
/// takes the way of those that are.
pub fn invoke_request(timed: bool) -> (r: InvokeRequest)
    ensures
        r == if timed {
            InvokeRequest::ForData(Some(TIMED_REQUEST_MS))
        } else {
            InvokeRequest::Plain
        },
{
    if timed {
        InvokeRequest::ForData(timed_ms(true))
    } else {
        InvokeRequest::Plain
    }
}

/// Events that a subscription asks for; what is absent stands for all.
#[derive(Debug, Clone, Copy, PartialEq, Eq, Structural)]
pub struct EventPath {
    pub endpoint: Option<u16>,
    pub cluster: Option<u32>,
    pub event: Option<u32>,
}

/// What a subscription asks for.
#[derive(Debug, PartialEq, Eq)]
pub struct SubscribeSpec {
    pub min_interval_floor_s: u16,
    pub max_interval_ceiling_s: u16,
    pub keep_subscriptions: bool,
    /// The clusters; none for all.
    pub clusters: Vec<u32>,
    pub event_paths: Vec<EventPath>,
    /// The first event that is asked for.
    pub event_min: Option<u64>,
}

/// What a subscription asks for: the intervals and whether earlier ones stay are
/// always the same, the rest is the caller's.
pub fn subscribe_spec(
    clusters: Vec<u32>,
    event_paths: Vec<EventPath>,
    event_min: Option<u64>,
) -> (s: SubscribeSpec)
    ensures
        s == (SubscribeSpec {
            min_interval_floor_s: SUBSCRIBE_MIN_INTERVAL_FLOOR_S,
            max_interval_ceiling_s: SUBSCRIBE_MAX_INTERVAL_CEILING_S,
            keep_subscriptions: SUBSCRIBE_KEEP_SUBSCRIPTIONS,
            clusters,
            event_paths,
            event_min,
        }),
{
    SubscribeSpec {
        min_interval_floor_s: SUBSCRIBE_MIN_INTERVAL_FLOOR_S,
        max_interval_ceiling_s: SUBSCRIBE_MAX_INTERVAL_CEILING_S,
        keep_subscriptions: SUBSCRIBE_KEEP_SUBSCRIPTIONS,
        clusters,
        event_paths,
        event_min,
    }
}

/// Reads what a subscription was granted.
pub fn subscribed(granted: Result<(u32, u16), SessionFailure>) -> (r: Result<
    SubscriptionInfo,
    MatError,
>)
    ensures
        match granted {
            Ok((id, max)) => r == Ok::<SubscriptionInfo, MatError>(
                SubscriptionInfo { subscription_id: id, max_interval_s: max },
            ),
            Err(f) => r matches Err(e) && e@ == session_error(f),
        },
{
    match granted {
        Ok((id, max)) => Ok(SubscriptionInfo { subscription_id: id, max_interval_s: max }),
        Err(f) => Err(map_session_err(f)),
    }
}

/// Reads the wait for the next report. That nothing came in time is no failure.
pub fn next_report_full<T>(waited: Result<T, SessionFailure>) -> (r: Result<Option<T>, MatError>)
    ensures
        match waited {
            Ok(t) => r == Ok::<Option<T>, MatError>(Some(t)),
            Err(f) => if f.class is Silence {
                r == Ok::<Option<T>, MatError>(None)
            } else {
                r matches Err(e) && e@ == session_error(f)
            },
        },
{
    match waited {
        Ok(t) => Ok(Some(t)),
        Err(f) => match f.class {
            crate::errmap::SessionClass::Silence => Ok(None),
            _ => Err(map_session_err(f)),
        },
    }
}

/// A session is opened once the node was found, and is ready once it was
/// opened; a failure of either ends it, as a failure of that node.
pub proof fn law_session_opens_after_the_search(
    node_id: u64,
    role: EstablishRole,
    d: DnssdFailure,
    e: EstablishFailure,
)
    ensures
        establish_step(node_id, role, EstablishEvent::Resolved(Ok(()))) is Open,
        establish_step(node_id, role, EstablishEvent::Opened(Ok(()))) is Ready,
        establish_step(node_id, role, EstablishEvent::Resolved(Err(d))) == EstablishView::Fail(
            resolve_error(node_id, d),
        ),
        establish_step(node_id, role, EstablishEvent::Opened(Err(e))) == EstablishView::Fail(
            establish_error(node_id, role, e),
        ),
{
}

/// A timed request has ten seconds.
pub proof fn law_timed_request_has_its_time(timed: bool)
    ensures
        timed_request(timed) is Some <==> timed,
        timed_request(true) == Some(10_000u16),
{
}

} // verus!
