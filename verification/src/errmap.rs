//! The tables that give a failure of the controller its kind.
//!
//! A failure arrives as its class and the text that describes it. Every route
//! goes through these tables, so a failure has the same kind on each of them.
use vstd::prelude::*;
use vstd::string::*;
use crate::error::{error, ErrorKind, ErrorView, MatError};
use crate::text;

verus! {

/// What a session is established for.
#[derive(Debug, Clone, Copy, PartialEq, Eq, Structural)]
pub enum EstablishRole {
    Op,
    Subscription,
}

impl EstablishRole {
    /// The word for the role.
    pub open spec fn label(self) -> Seq<char> {
        match self {
            EstablishRole::Op => "op"@,
            EstablishRole::Subscription => "subscription"@,
        }
    }

    /// What stands before the text of a failed establishment.
    pub open spec fn fail_prefix(self) -> Seq<char> {
        match self {
            EstablishRole::Op => ""@,
            EstablishRole::Subscription => "subscription "@,
        }
    }

    /// The word for the role.
    pub fn log_label(self) -> (s: &'static str)
        ensures
            s@ == self.label(),
    {
        match self {
            EstablishRole::Op => "op",
            EstablishRole::Subscription => "subscription",
        }
    }
}

/// Why no session was established with any address of a node.
#[derive(Debug, PartialEq, Eq)]
pub enum EstablishFailure {
    /// There was no address to try.
    NoAddresses,
    /// No local socket could be bound.
    Bind(String),
    /// Every address failed; the text lists them.
    AllFailed(String),
}

/// The error for a session that was not established.
pub open spec fn establish_error(node_id: u64, role: EstablishRole, e: EstablishFailure) -> ErrorView {
    match e {
        EstablishFailure::NoAddresses => error(
            ErrorKind::Unreachable,
            "native: no addresses resolved for node "@ + text::dec(node_id as nat),
        ),
        EstablishFailure::Bind(t) => error(
            ErrorKind::Other,
            "native: bind "@ + role.label() + " udp: "@ + t@,
        ),
        EstablishFailure::AllFailed(t) => error(
            ErrorKind::SessionFailed,
            "native: "@ + role.fail_prefix() + t@,
        ),
    }
}

/// Maps a session that was not established.
pub fn map_establish_err(node_id: u64, role: EstablishRole, e: EstablishFailure) -> (r: MatError)
    ensures
        r@ == establish_error(node_id, role, e),
{
    match e {
        EstablishFailure::NoAddresses => MatError::new(
            ErrorKind::Unreachable,
            "native: no addresses resolved for node ".to_owned().concat(&text::decimal(node_id)),
        ),
        EstablishFailure::Bind(t) => MatError::new(
            ErrorKind::Other,
            "native: bind ".to_owned().concat(role.log_label()).concat(" udp: ").concat(&t),
        ),
        EstablishFailure::AllFailed(t) => {
            let prefix: &'static str = match role {
                EstablishRole::Op => "",
                EstablishRole::Subscription => "subscription ",
            };
            MatError::new(ErrorKind::SessionFailed, "native: ".to_owned().concat(prefix).concat(&t))
        },
    }
}

/// The classes of a failed service lookup.
#[derive(Debug, Clone, Copy, PartialEq, Eq, Structural)]
pub enum DnssdClass {
    Timeout,
    Io,
    Malformed,
}

/// A failed service lookup.
#[derive(Debug, PartialEq, Eq)]
pub struct DnssdFailure {
    pub class: DnssdClass,
    pub text: String,
}

/// The kind of a failed lookup of a node.
pub open spec fn resolve_kind(c: DnssdClass) -> ErrorKind {
    match c {
        DnssdClass::Timeout => ErrorKind::Timeout,
        DnssdClass::Io | DnssdClass::Malformed => ErrorKind::Unreachable,
    }
}

/// The failure of a lookup of a node.
pub open spec fn resolve_error(node_id: u64, e: DnssdFailure) -> ErrorView {
    error(
        resolve_kind(e.class),
        "native: mDNS resolve node "@ + text::dec(node_id as nat) + ": "@ + e.text@,
    )
}

/// Maps a failed lookup of a node: an advertisement that did not come in time
/// is a timeout, anything structural is unreachable.
pub fn map_resolve_err(node_id: u64, e: DnssdFailure) -> (r: MatError)
    ensures
        r@ == resolve_error(node_id, e),
{
    let kind = match e.class {
        DnssdClass::Timeout => ErrorKind::Timeout,
        DnssdClass::Io | DnssdClass::Malformed => ErrorKind::Unreachable,
    };
    MatError::new(
        kind,
        "native: mDNS resolve node ".to_owned().concat(&text::decimal(node_id)).concat(": ").concat(
            &e.text,
        ),
    )
}

/// The classes of a failed exchange of the interaction model.
#[derive(Debug, Clone, Copy, PartialEq, Eq, Structural)]
pub enum ImClass {
    StatusResponse,
    AttributeStatus,
    CommandStatus,
    Tlv,
    Malformed,
    UnsupportedValue,
}

/// The classes of a failed session.
#[derive(Debug, Clone, Copy, PartialEq, Eq, Structural)]
pub enum SessionClass {
    Timeout,
    Silence,
    Im(ImClass),
    Io,
    Message,
    Other,
}

/// A failed session.
#[derive(Debug, PartialEq, Eq)]
pub struct SessionFailure {
    pub class: SessionClass,
    pub text: String,
}

/// The kind of a failed session: a refusal means that the request arrived, an
/// answer that cannot be read is a parse error.
pub open spec fn session_kind(c: SessionClass) -> ErrorKind {
    match c {
        SessionClass::Timeout | SessionClass::Silence => ErrorKind::Timeout,
        SessionClass::Im(ImClass::StatusResponse) | SessionClass::Im(ImClass::AttributeStatus)
        | SessionClass::Im(ImClass::CommandStatus) => ErrorKind::DeviceRejected,
        SessionClass::Im(_) | SessionClass::Message => ErrorKind::ParseError,
        SessionClass::Io => ErrorKind::Unreachable,
        SessionClass::Other => ErrorKind::Other,
    }
}

/// The kind of a failed session.
pub fn kind_of_session(c: SessionClass) -> (k: ErrorKind)
    ensures
        k == session_kind(c),
{
    match c {
        SessionClass::Timeout | SessionClass::Silence => ErrorKind::Timeout,
        SessionClass::Im(im) => match im {
            ImClass::StatusResponse | ImClass::AttributeStatus | ImClass::CommandStatus => {
                ErrorKind::DeviceRejected
            },
            ImClass::Tlv | ImClass::Malformed | ImClass::UnsupportedValue => ErrorKind::ParseError,
        },
        SessionClass::Io => ErrorKind::Unreachable,
        SessionClass::Message => ErrorKind::ParseError,
        SessionClass::Other => ErrorKind::Other,
    }
}

/// The failure of a session.
pub open spec fn session_error(e: SessionFailure) -> ErrorView {
    error(session_kind(e.class), "native: "@ + e.text@)
}

/// Maps a failed session.
pub fn map_session_err(e: SessionFailure) -> (r: MatError)
    ensures
        r@ == session_error(e),
{
    MatError::new(kind_of_session(e.class), "native: ".to_owned().concat(&e.text))
}

/// The classes of a failure while a commissioning window is opened.
#[derive(Debug, Clone, Copy, PartialEq, Eq, Structural)]
pub enum WindowClass {
    Session(SessionClass),
    CommandStatus,
    Timeout,
    InvalidArgument,
    Other,
}

/// The kind of a failure while a commissioning window is opened.
pub open spec fn window_kind(c: WindowClass) -> ErrorKind {
    match c {
        WindowClass::Session(s) => session_kind(s),
        WindowClass::CommandStatus => ErrorKind::DeviceRejected,
        WindowClass::Timeout => ErrorKind::Timeout,
        WindowClass::InvalidArgument => ErrorKind::ParseError,
        WindowClass::Other => ErrorKind::Other,
    }
}

/// Maps a failure while a commissioning window is opened. The text of a failed
/// session is the session's own.
pub fn map_commission_err(class: WindowClass, detail: &str) -> (r: MatError)
    ensures
        r@ == error(window_kind(class), "native: "@ + detail@),
{
    let kind = match class {
        WindowClass::Session(s) => kind_of_session(s),
        WindowClass::CommandStatus => ErrorKind::DeviceRejected,
        WindowClass::Timeout => ErrorKind::Timeout,
        WindowClass::InvalidArgument => ErrorKind::ParseError,
        WindowClass::Other => ErrorKind::Other,
    };
    MatError::new(kind, "native: ".to_owned().concat(detail))
}

/// A device rejection is reported only where the device answered with a
/// status: never for silence, a broken socket or an unreadable answer.
pub proof fn law_rejection_means_an_answer(c: SessionClass)
    ensures
        session_kind(c) == ErrorKind::DeviceRejected <==> (c matches SessionClass::Im(i) && (i
            == ImClass::StatusResponse || i == ImClass::AttributeStatus || i
            == ImClass::CommandStatus)),
        session_kind(c) == ErrorKind::Timeout <==> (c == SessionClass::Timeout || c
            == SessionClass::Silence),
{
}

/// A session that cannot be had is unreachable where no address is known and a
/// failed session where every address failed; what failed is named, and so is
/// the node.
pub proof fn law_session_failures_are_told_apart(node_id: u64, role: EstablishRole, t: String)
    ensures
        establish_error(node_id, role, EstablishFailure::NoAddresses).kind
            == ErrorKind::Unreachable,
        establish_error(node_id, role, EstablishFailure::Bind(t)).kind == ErrorKind::Other,
        establish_error(node_id, role, EstablishFailure::AllFailed(t)).kind
            == ErrorKind::SessionFailed,
        text::dec_val(
            establish_error(node_id, role, EstablishFailure::NoAddresses).detail.skip(
                "native: no addresses resolved for node "@.len() as int,
            ),
        ) == Some(node_id as nat),
        text::occurs(
            establish_error(node_id, role, EstablishFailure::AllFailed(t)).detail,
            t@,
        ),
        text::occurs(establish_error(node_id, role, EstablishFailure::Bind(t)).detail, t@),
{
    text::law_decimal_reads_back(node_id as nat);
    let head = "native: no addresses resolved for node "@;
    assert((head + text::dec(node_id as nat)).skip(head.len() as int) =~= text::dec(
        node_id as nat,
    ));
    let all = establish_error(node_id, role, EstablishFailure::AllFailed(t)).detail;
    let k: int = all.len() - t@.len();
    assert(all.subrange(k, k + t@.len()) =~= t@);
    assert(text::occurs_at(all, t@, k));
    let bind = establish_error(node_id, role, EstablishFailure::Bind(t)).detail;
    let b: int = bind.len() - t@.len();
    assert(bind.subrange(b, b + t@.len()) =~= t@);
    assert(text::occurs_at(bind, t@, b));
}

/// A search that ran out of time is a timeout and any other failed search an
/// unreachable node; a session's own words follow its error.
pub proof fn law_lookup_and_session_failures_are_told_apart(
    node_id: u64,
    e: DnssdFailure,
    s: SessionFailure,
)
    ensures
        resolve_error(node_id, e).kind == ErrorKind::Timeout <==> e.class == DnssdClass::Timeout,
        resolve_error(node_id, e).kind == ErrorKind::Unreachable <==> e.class
            != DnssdClass::Timeout,
        text::occurs(resolve_error(node_id, e).detail, e.text@),
        session_error(s).detail.skip("native: "@.len() as int) == s.text@,
        s.class == SessionClass::Io ==> session_error(s).kind == ErrorKind::Unreachable,
        s.class == SessionClass::Message ==> session_error(s).kind == ErrorKind::ParseError,
        s.class == SessionClass::Other ==> session_error(s).kind == ErrorKind::Other,
{
    let all = resolve_error(node_id, e).detail;
    let k: int = all.len() - e.text@.len();
    assert(all.subrange(k, k + e.text@.len()) =~= e.text@);
    assert(text::occurs_at(all, e.text@, k));
    assert(("native: "@ + s.text@).skip("native: "@.len() as int) =~= s.text@);
}

/// A failure to open a window is that of its session, or what the device, the
/// time or the arguments did not allow.
pub proof fn law_window_failures_are_told_apart(c: SessionClass)
    ensures
        window_kind(WindowClass::Session(c)) == session_kind(c),
        window_kind(WindowClass::CommandStatus) == ErrorKind::DeviceRejected,
        window_kind(WindowClass::Timeout) == ErrorKind::Timeout,
        window_kind(WindowClass::InvalidArgument) == ErrorKind::ParseError,
        window_kind(WindowClass::Other) == ErrorKind::Other,
{
}

/// The roles of a session have their names.
pub proof fn law_roles_have_their_names()
    ensures
        EstablishRole::Op.label() == "op"@,
        EstablishRole::Subscription.label() == "subscription"@,
        EstablishRole::Op.fail_prefix() == ""@,
        EstablishRole::Subscription.fail_prefix() == "subscription "@,
{
}

} // verus!
