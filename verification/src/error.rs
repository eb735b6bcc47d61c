//! The error of every operation: a stable kind and a detail text.
use vstd::prelude::*;
use vstd::string::*;
use crate::text;

verus! {

/// The stable classification of a failure.
#[derive(Debug, Clone, Copy, PartialEq, Eq, Structural)]
pub enum ErrorKind {
    /// The peer stayed silent until a deadline.
    Timeout,
    /// The device received the request and refused it.
    DeviceRejected,
    /// No address, or the request never reached the wire.
    Unreachable,
    /// A session could not be established.
    SessionFailed,
    /// Commissioning failed for a reason of its own.
    CommissionFailed,
    /// An answer or an argument cannot be interpreted.
    ParseError,
    /// The credential store is not there.
    StoreMissing,
    /// The credential store is there and cannot be interpreted.
    StoreParse,
    /// A helper program is not installed.
    ChildNotFound,
    /// A helper program could not be run.
    ChildFailed,
    /// The resident daemon is gone.
    MatdUnavailable,
    /// Everything else.
    Other,
}

impl ErrorKind {
    /// The name of the kind on the wire.
    pub open spec fn name(self) -> Seq<char> {
        match self {
            ErrorKind::Timeout => "timeout"@,
            ErrorKind::DeviceRejected => "device_rejected"@,
            ErrorKind::Unreachable => "unreachable"@,
            ErrorKind::SessionFailed => "session_failed"@,
            ErrorKind::CommissionFailed => "commission_failed"@,
            ErrorKind::ParseError => "parse_error"@,
            ErrorKind::StoreMissing => "store_missing"@,
            ErrorKind::StoreParse => "store_parse"@,
            ErrorKind::ChildNotFound => "child_not_found"@,
            ErrorKind::ChildFailed => "child_failed"@,
            ErrorKind::MatdUnavailable => "matd_unavailable"@,
            ErrorKind::Other => "other"@,
        }
    }

    /// The name of the kind on the wire.
    pub fn as_str(self) -> (s: &'static str)
        ensures
            s@ == self.name(),
    {
        match self {
            ErrorKind::Timeout => "timeout",
            ErrorKind::DeviceRejected => "device_rejected",
            ErrorKind::Unreachable => "unreachable",
            ErrorKind::SessionFailed => "session_failed",
            ErrorKind::CommissionFailed => "commission_failed",
            ErrorKind::ParseError => "parse_error",
            ErrorKind::StoreMissing => "store_missing",
            ErrorKind::StoreParse => "store_parse",
            ErrorKind::ChildNotFound => "child_not_found",
            ErrorKind::ChildFailed => "child_failed",
            ErrorKind::MatdUnavailable => "matd_unavailable",
            ErrorKind::Other => "other",
        }
    }

    /// The kind of a name on the wire, where it is one.
    pub fn from_name(name: &str) -> (r: Option<ErrorKind>)
        ensures
            r matches Some(k) ==> k.name() == name@,
            r is None ==> forall|k: ErrorKind| k.name() != name@,
    {
        if text::same(name, "timeout") {
            Some(ErrorKind::Timeout)
        } else if text::same(name, "device_rejected") {
            Some(ErrorKind::DeviceRejected)
        } else if text::same(name, "unreachable") {
            Some(ErrorKind::Unreachable)
        } else if text::same(name, "session_failed") {
            Some(ErrorKind::SessionFailed)
        } else if text::same(name, "commission_failed") {
            Some(ErrorKind::CommissionFailed)
        } else if text::same(name, "parse_error") {
            Some(ErrorKind::ParseError)
        } else if text::same(name, "store_missing") {
            Some(ErrorKind::StoreMissing)
        } else if text::same(name, "store_parse") {
            Some(ErrorKind::StoreParse)
        } else if text::same(name, "child_not_found") {
            Some(ErrorKind::ChildNotFound)
        } else if text::same(name, "child_failed") {
            Some(ErrorKind::ChildFailed)
        } else if text::same(name, "matd_unavailable") {
            Some(ErrorKind::MatdUnavailable)
        } else if text::same(name, "other") {
            Some(ErrorKind::Other)
        } else {
            None
        }
    }
}

/// Two kinds never share a name on the wire.
pub proof fn law_kind_names_are_distinct(a: ErrorKind, b: ErrorKind)
    requires
        a.name() == b.name(),
    ensures
        a == b,
{
    reveal_strlit("timeout");
    reveal_strlit("device_rejected");
    reveal_strlit("unreachable");
    reveal_strlit("session_failed");
    reveal_strlit("commission_failed");
    reveal_strlit("parse_error");
    reveal_strlit("store_missing");
    reveal_strlit("store_parse");
    reveal_strlit("child_not_found");
    reveal_strlit("child_failed");
    reveal_strlit("matd_unavailable");
    reveal_strlit("other");
    let (x, y) = (a.name(), b.name());
    assert(x.len() == y.len() && x[0] == y[0]);
    assert("timeout"@.len() == 7 && "device_rejected"@.len() == 15 && "unreachable"@.len() == 11);
    assert("session_failed"@.len() == 14 && "commission_failed"@.len() == 17);
    assert("parse_error"@.len() == 11 && "store_missing"@.len() == 13);
    assert("store_parse"@.len() == 11 && "child_not_found"@.len() == 15);
    assert("child_failed"@.len() == 12 && "matd_unavailable"@.len() == 16 && "other"@.len() == 5);
    assert("unreachable"@[0] == 'u' && "parse_error"@[0] == 'p' && "store_parse"@[0] == 's');
    assert("device_rejected"@[0] == 'd' && "child_not_found"@[0] == 'c');
}

/// What an error says: its kind and its detail text.
#[verifier::ext_equal]
pub struct ErrorView {
    pub kind: ErrorKind,
    pub detail: Seq<char>,
}

/// A failure of an operation.
#[derive(Debug, PartialEq, Eq)]
pub struct MatError {
    pub kind: ErrorKind,
    pub detail: String,
}

impl Clone for MatError {
    fn clone(&self) -> (e: MatError)
        ensures
            e == *self,
    {
        MatError { kind: self.kind, detail: self.detail.clone() }
    }
}

impl View for MatError {
    type V = ErrorView;

    open spec fn view(&self) -> ErrorView {
        ErrorView { kind: self.kind, detail: self.detail@ }
    }
}

/// The error of a kind with a detail text.
pub open spec fn error(kind: ErrorKind, detail: Seq<char>) -> ErrorView {
    ErrorView { kind, detail }
}

/// The error of the same kind with a text put before its detail.
pub open spec fn prefixed(e: ErrorView, prefix: Seq<char>) -> ErrorView {
    ErrorView { kind: e.kind, detail: prefix + e.detail }
}

impl MatError {
    /// The error of a kind with a detail text.
    pub fn new(kind: ErrorKind, detail: String) -> (e: MatError)
        ensures
            e@ == error(kind, detail@),
            e.kind == kind,
            e.detail == detail,
    {
        MatError { kind, detail }
    }

    /// The error of a kind with a fixed detail text.
    pub fn fixed(kind: ErrorKind, detail: &str) -> (e: MatError)
        ensures
            e@ == error(kind, detail@),
    {
        MatError { kind, detail: detail.to_owned() }
    }

    /// An answer or an argument that cannot be interpreted.
    pub fn parse_error(detail: String) -> (e: MatError)
        ensures
            e@ == error(ErrorKind::ParseError, detail@),
    {
        MatError { kind: ErrorKind::ParseError, detail }
    }

    /// The same kind, with a text put before the detail.
    pub fn prefix(self, prefix: &str) -> (e: MatError)
        ensures
            e@ == prefixed(self@, prefix@),
    {
        MatError { kind: self.kind, detail: prefix.to_owned().concat(&self.detail) }
    }

    /// A name that the tables do not know.
    pub fn unresolved_op() -> (e: MatError)
        ensures
            e@ == unresolved_op(),
    {
        MatError::fixed(
            ErrorKind::ParseError,
            "cannot resolve the cluster, attribute or command name (numeric IDs are accepted)",
        )
    }

    /// An engine without the material for groups.
    pub fn group_ctx_unconfigured() -> (e: MatError)
        ensures
            e@ == group_ctx_unconfigured(),
    {
        MatError::fixed(ErrorKind::Other, "group context is not configured (internal)")
    }

    /// A group that cannot be sent to from this store.
    pub fn group_unavailable(reason: &str) -> (e: MatError)
        ensures
            e@ == group_unavailable(reason@),
    {
        MatError::new(ErrorKind::StoreParse, "group unavailable: ".to_owned().concat(reason))
    }
}

/// The error for a name that the tables do not know.
pub open spec fn unresolved_op() -> ErrorView {
    error(
        ErrorKind::ParseError,
        "cannot resolve the cluster, attribute or command name (numeric IDs are accepted)"@,
    )
}

/// The error for an engine without the material for groups.
pub open spec fn group_ctx_unconfigured() -> ErrorView {
    error(ErrorKind::Other, "group context is not configured (internal)"@)
}

/// The error for a group that cannot be sent to from this store.
pub open spec fn group_unavailable(reason: Seq<char>) -> ErrorView {
    error(ErrorKind::StoreParse, "group unavailable: "@ + reason)
}

/// What a result says: its value, or the view of its error.
pub open spec fn outcome<T>(r: Result<T, MatError>) -> Result<T, ErrorView> {
    match r {
        Ok(t) => Ok(t),
        Err(e) => Err(e@),
    }
}

/// The first failure of some checks.
pub open spec fn first_error(checks: Seq<Result<(), MatError>>) -> Option<ErrorView>
    decreases checks.len(),
{
    if checks.len() == 0 {
        None
    } else {
        match first_error(checks.drop_last()) {
            Some(e) => Some(e),
            None => match checks.last() {
                Ok(_) => None,
                Err(e) => Some(e@),
            },
        }
    }
}

/// What was found first stays so.
proof fn lemma_first_error_stays(checks: Seq<Result<(), MatError>>, i: int)
    requires
        0 <= i <= checks.len(),
        first_error(checks.take(i)) is Some,
    ensures
        first_error(checks) == first_error(checks.take(i)),
    decreases checks.len() - i,
{
    if i < checks.len() {
        assert(checks.take(i + 1).drop_last() =~= checks.take(i));
        lemma_first_error_stays(checks, i + 1);
    } else {
        assert(checks.take(i) =~= checks);
    }
}

/// Whether every check went well; else the first failure.
pub fn all_checked(checks: &Vec<Result<(), MatError>>) -> (r: Result<(), MatError>)
    ensures
        r is Ok <==> first_error(checks@) is None,
        r matches Err(e) ==> first_error(checks@) == Some(e@),
{
    let mut i: usize = 0;
    while i < checks.len()
        invariant
            i <= checks.len(),
            first_error(checks@.take(i as int)) is None,
        decreases checks.len() - i,
    {
        assert(checks@.take(i + 1).drop_last() =~= checks@.take(i as int));
        if let Err(e) = &checks[i] {
            proof {
                lemma_first_error_stays(checks@, i + 1);
            }
            return Err(e.clone());
        }
        i += 1;
    }
    assert(checks@.take(i as int) =~= checks@);
    Ok(())
}

/// The error of some checks is that of the first one that failed.
pub proof fn law_first_failure_is_reported(checks: Seq<Result<(), MatError>>, i: int)
    requires
        0 <= i < checks.len(),
        checks[i] is Err,
        forall|k: int| 0 <= k < i ==> #[trigger] checks[k] is Ok,
    ensures
        first_error(checks) == Some(checks[i]->Err_0@),
    decreases checks.len(),
{
    let front = checks.drop_last();
    if i < front.len() {
        assert(front[i] == checks[i]);
        assert forall|k: int| 0 <= k < i implies #[trigger] front[k] is Ok by {
            assert(checks[k] is Ok);
        }
        law_first_failure_is_reported(front, i);
    } else {
        law_no_failure_is_no_error(front);
    }
}

/// Checks that all passed give no error.
pub proof fn law_no_failure_is_no_error(checks: Seq<Result<(), MatError>>)
    ensures
        first_error(checks) is None <==> (forall|k: int|
            0 <= k < checks.len() ==> #[trigger] checks[k] is Ok),
    decreases checks.len(),
{
    if checks.len() > 0 {
        let front = checks.drop_last();
        law_no_failure_is_no_error(front);
        if first_error(checks) is None {
            assert forall|k: int| 0 <= k < checks.len() implies #[trigger] checks[k] is Ok by {
                if k < front.len() {
                    assert(front[k] is Ok);
                }
            }
        } else if first_error(front) is Some {
            let k = choose|k: int| 0 <= k < front.len() && !(#[trigger] front[k] is Ok);
            assert(!(checks[k] is Ok));
        } else {
            assert(!(checks[checks.len() - 1] is Ok));
        }
    }
}

/// A prefix keeps the kind of an error and its detail behind the prefix.
pub proof fn law_prefix_keeps_the_error(e: ErrorView, prefix: Seq<char>)
    ensures
        prefixed(e, prefix).kind == e.kind,
        prefixed(e, prefix).detail.take(prefix.len() as int) == prefix,
        prefixed(e, prefix).detail.skip(prefix.len() as int) == e.detail,
{
}

/// An error is seen as what it holds.
pub proof fn law_errors_are_seen_as_they_are(e: MatError)
    ensures
        e@.kind == e.kind,
        e@.detail == e.detail@,
{
}

/// A name that cannot be resolved is a mistake of the caller, a group that
/// cannot be used one of the store, and a missing setup one of the program.
pub proof fn law_common_errors_are_told_apart(reason: Seq<char>)
    ensures
        unresolved_op().kind == ErrorKind::ParseError,
        group_ctx_unconfigured().kind == ErrorKind::Other,
        group_unavailable(reason).kind == ErrorKind::StoreParse,
        group_unavailable(reason).detail.skip("group unavailable: "@.len() as int) == reason,
{
    assert(("group unavailable: "@ + reason).skip("group unavailable: "@.len() as int) =~= reason);
}

/// The names of the kinds.
pub proof fn law_kinds_have_their_names(k: ErrorKind)
    ensures
        k.name() == match k {
            ErrorKind::Timeout => "timeout"@,
            ErrorKind::DeviceRejected => "device_rejected"@,
            ErrorKind::Unreachable => "unreachable"@,
            ErrorKind::SessionFailed => "session_failed"@,
            ErrorKind::CommissionFailed => "commission_failed"@,
            ErrorKind::ParseError => "parse_error"@,
            ErrorKind::StoreMissing => "store_missing"@,
            ErrorKind::StoreParse => "store_parse"@,
            ErrorKind::ChildNotFound => "child_not_found"@,
            ErrorKind::ChildFailed => "child_failed"@,
            ErrorKind::MatdUnavailable => "matd_unavailable"@,
            ErrorKind::Other => "other"@,
        },
{
}

} // verus!
