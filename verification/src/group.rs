//! Sending to a group: what has to be there first, and what a failure means.
//!
//! A groupcast is not acknowledged. Where something it needs is missing it is
//! not sent at all, and the reason is reported.
use vstd::prelude::*;
use vstd::string::*;
use crate::error::{error, ErrorKind, ErrorView, MatError};
use crate::text;

verus! {

/// What became of a groupcast.
#[derive(Debug, PartialEq, Eq)]
pub enum GroupOutcome {
    /// It went out on these interfaces.
    Sent { egress: Vec<String> },
    /// It cannot be sent, for this reason.
    Unavailable(String),
}

/// What became of a jump of the group counter.
#[derive(Debug, PartialEq, Eq)]
pub enum BumpOutcome {
    Bumped { from: u32, to: u32 },
    /// The counter cannot be moved, for this reason.
    Unavailable(String),
}

/// The classes of a groupcast that failed while it was sent.
#[derive(Debug, Clone, Copy, PartialEq, Eq, Structural)]
pub enum GroupSendClass {
    /// The socket refused it.
    Io,
    /// It could not be encrypted.
    Crypto,
}

/// The kind of a groupcast that failed while it was sent.
pub open spec fn send_kind(c: GroupSendClass) -> ErrorKind {
    match c {
        GroupSendClass::Io => ErrorKind::Unreachable,
        GroupSendClass::Crypto => ErrorKind::Other,
    }
}

/// The error of a groupcast that failed while it was sent.
pub open spec fn send_error(group_id: u16, c: GroupSendClass, detail: Seq<char>) -> ErrorView {
    error(
        send_kind(c),
        "groupcast send to group "@ + text::dec(group_id as nat) + ": "@ + detail,
    )
}

/// Maps a groupcast that failed while it was sent: only a socket failure is a
/// failure to reach the group.
pub fn group_send_error(group_id: u16, c: GroupSendClass, detail: &str) -> (e: MatError)
    ensures
        e@ == send_error(group_id, c, detail@),
{
    let kind = match c {
        GroupSendClass::Io => ErrorKind::Unreachable,
        GroupSendClass::Crypto => ErrorKind::Other,
    };
    MatError::new(
        kind,
        "groupcast send to group ".to_owned().concat(&text::decimal(group_id as u64)).concat(": ").concat(
            detail,
        ),
    )
}

/// What a groupcast does next.
#[derive(Debug, PartialEq, Eq)]
pub enum SendAction {
    /// Read the credentials of the group.
    ReadCredentials,
    /// Read the counter that others have reached.
    ReadCounter,
    /// Load the own counter, starting no lower than this.
    LoadCounter(u32),
    /// Set up the sender.
    BuildSender,
    /// Send.
    Transmit,
    Done(GroupOutcome),
    Fail(MatError),
}

/// What came back from an action of a groupcast.
#[derive(Debug, PartialEq, Eq)]
pub enum SendEvent {
    Credentials(Result<(), String>),
    Counter(Result<Option<u32>, String>),
    CounterLoaded(Result<(), String>),
    SenderBuilt(Result<(), String>),
    Transmitted(Result<Vec<String>, (GroupSendClass, String)>),
}

/// What an action of a groupcast says.
pub enum SendView {
    ReadCredentials,
    ReadCounter,
    LoadCounter(u32),
    BuildSender,
    Transmit,
    Sent(Seq<Seq<char>>),
    Unavailable(Seq<char>),
    Fail(ErrorView),
}

impl View for SendAction {
    type V = SendView;

    open spec fn view(&self) -> SendView {
        match *self {
            SendAction::ReadCredentials => SendView::ReadCredentials,
            SendAction::ReadCounter => SendView::ReadCounter,
            SendAction::LoadCounter(n) => SendView::LoadCounter(n),
            SendAction::BuildSender => SendView::BuildSender,
            SendAction::Transmit => SendView::Transmit,
            SendAction::Done(GroupOutcome::Sent { egress }) => SendView::Sent(
                text::texts(egress@),
            ),
            SendAction::Done(GroupOutcome::Unavailable(r)) => SendView::Unavailable(r@),
            SendAction::Fail(e) => SendView::Fail(e@),
        }
    }
}

/// What follows an event of a groupcast. The sender is set up once; the
/// credentials are read for every groupcast.
pub open spec fn send_step(group_id: u16, sender_ready: bool, ev: SendEvent) -> SendView {
    match ev {
        SendEvent::Credentials(Ok(_)) => if sender_ready {
            SendView::Transmit
        } else {
            SendView::ReadCounter
        },
        SendEvent::Credentials(Err(e)) => SendView::Unavailable(
            "group "@ + text::dec(group_id as nat) + " credentials: "@ + e@
                + " (not provisioned? run `mat group provision`)"@,
        ),
        SendEvent::Counter(Ok(Some(n))) => SendView::LoadCounter(n),
        SendEvent::Counter(Ok(None)) => SendView::Unavailable(
            "chip-tool g/gdc missing; refusing to start the group counter low"@,
        ),
        SendEvent::Counter(Err(e)) => SendView::Unavailable("read g/gdc: "@ + e@),
        SendEvent::CounterLoaded(Ok(_)) => SendView::BuildSender,
        SendEvent::CounterLoaded(Err(e)) => SendView::Unavailable("group counter store: "@ + e@),
        SendEvent::SenderBuilt(Ok(_)) => SendView::Transmit,
        SendEvent::SenderBuilt(Err(e)) => SendView::Unavailable("multicast socket setup: "@ + e@),
        SendEvent::Transmitted(Ok(egress)) => SendView::Sent(text::texts(egress@)),
        SendEvent::Transmitted(Err((c, e))) => SendView::Fail(send_error(group_id, c, e@)),
    }
}

fn unavailable(reason: String) -> (a: SendAction)
    ensures
        a@ == SendView::Unavailable(reason@),
{
    SendAction::Done(GroupOutcome::Unavailable(reason))
}

/// Takes what came back from an action of a groupcast and says what follows.
///
/// It begins with the credentials. What cannot be set up makes the group
/// unavailable; only the sending itself can fail.
pub fn send(group_id: u16, sender_ready: bool, ev: SendEvent) -> (a: SendAction)
    ensures
        a@ == send_step(group_id, sender_ready, ev),
{
    match ev {
        SendEvent::Credentials(r) => match r {
            Ok(_) => if sender_ready {
                SendAction::Transmit
            } else {
                SendAction::ReadCounter
            },
            Err(e) => unavailable(
                "group ".to_owned().concat(&text::decimal(group_id as u64)).concat(
                    " credentials: ",
                ).concat(&e).concat(" (not provisioned? run `mat group provision`)"),
            ),
        },
        SendEvent::Counter(r) => match r {
            Ok(Some(n)) => SendAction::LoadCounter(n),
            Ok(None) => unavailable(
                "chip-tool g/gdc missing; refusing to start the group counter low".to_owned(),
            ),
            Err(e) => unavailable("read g/gdc: ".to_owned().concat(&e)),
        },
        SendEvent::CounterLoaded(r) => match r {
            Ok(_) => SendAction::BuildSender,
            Err(e) => unavailable("group counter store: ".to_owned().concat(&e)),
        },
        SendEvent::SenderBuilt(r) => match r {
            Ok(_) => SendAction::Transmit,
            Err(e) => unavailable("multicast socket setup: ".to_owned().concat(&e)),
        },
        SendEvent::Transmitted(r) => match r {
            Ok(egress) => SendAction::Done(GroupOutcome::Sent { egress }),
            Err((c, e)) => SendAction::Fail(group_send_error(group_id, c, &e)),
        },
    }
}

/// Nothing goes out before the credentials were read, and a sender is never
/// set up with a counter that was not loaded.
pub proof fn law_transmit_needs_credentials_and_sender(
    group_id: u16,
    sender_ready: bool,
    ev: SendEvent,
)
    ensures
        send_step(group_id, sender_ready, ev) is Transmit ==> (ev matches SendEvent::Credentials(
            Ok(_),
        ) && sender_ready) || ev matches SendEvent::SenderBuilt(Ok(_)),
        send_step(group_id, sender_ready, ev) is BuildSender <==> ev matches SendEvent::CounterLoaded(
            Ok(_),
        ),
        send_step(group_id, sender_ready, ev) is Fail <==> ev matches SendEvent::Transmitted(Err(_)),
{
}

/// A message to a group is sent step by step: the keys are read, a counter is
/// loaded unless a sender is there, the sender is built, and the message goes
/// out; the way it went is told. What is missing makes the group unavailable,
/// and only the sending itself fails.
pub proof fn law_group_message_goes_step_by_step(
    group_id: u16,
    n: u32,
    egress: Vec<String>,
    c: GroupSendClass,
    t: String,
)
    ensures
        send_step(group_id, true, SendEvent::Credentials(Ok(()))) == SendView::Transmit,
        send_step(group_id, false, SendEvent::Credentials(Ok(()))) == SendView::ReadCounter,
        send_step(group_id, false, SendEvent::Counter(Ok(Some(n)))) == SendView::LoadCounter(n),
        send_step(group_id, false, SendEvent::Counter(Ok(None))) is Unavailable,
        send_step(group_id, false, SendEvent::Counter(Err(t))) is Unavailable,
        send_step(group_id, false, SendEvent::CounterLoaded(Ok(()))) == SendView::BuildSender,
        send_step(group_id, false, SendEvent::CounterLoaded(Err(t))) is Unavailable,
        send_step(group_id, false, SendEvent::SenderBuilt(Ok(()))) == SendView::Transmit,
        send_step(group_id, false, SendEvent::SenderBuilt(Err(t))) is Unavailable,
        send_step(group_id, true, SendEvent::Transmitted(Ok(egress))) == SendView::Sent(
            text::texts(egress@),
        ),
        send_step(group_id, true, SendEvent::Transmitted(Err((c, t)))) matches SendView::Fail(e)
            && e.kind == (if c is Io {
            ErrorKind::Unreachable
        } else {
            ErrorKind::Other
        }) && text::occurs(e.detail, t@),
{
    let d = send_error(group_id, c, t@).detail;
    let k: int = d.len() - t@.len();
    assert(d.subrange(k, k + t@.len()) =~= t@);
    assert(text::occurs_at(d, t@, k));
}

} // verus!
