//! The program: which way a command goes, and how it ends.
use vstd::prelude::*;
use vstd::string::*;
use crate::cli::{
    node_numbers,
    numbers,
    Command,
    DiagCommand,
    EndpointRef,
    FabricAction,
    NodeRef,
};
use crate::device_op::{DeviceOp, Dispatch};
use crate::engine::ThreadIfaceChoice;
use crate::error::{error, ErrorKind, ErrorView, MatError};
use crate::matd_client::Route;

verus! {

/// How the program ends.
#[derive(Debug, Clone, Copy, PartialEq, Eq, Structural)]
pub enum Exit {
    Success,
    /// The command line is wrong.
    Usage,
    /// With the code of a failure.
    Failed(ErrorKind),
}

/// How the program ends with a result.
pub fn exit_of(r: &Result<(), MatError>) -> (e: Exit)
    ensures
        e == match *r {
            Ok(_) => Exit::Success,
            Err(f) => Exit::Failed(f.kind),
        },
{
    match r {
        Ok(_) => Exit::Success,
        Err(f) => Exit::Failed(f.kind),
    }
}

/// How the program ends where an alias could not be resolved: a broken list of
/// aliases has its own code, anything else is a wrong command line.
pub fn unresolved_exit(kind: ErrorKind) -> (e: Exit)
    ensures
        e == if kind == ErrorKind::StoreParse {
            Exit::Failed(kind)
        } else {
            Exit::Usage
        },
{
    if kind == ErrorKind::StoreParse {
        Exit::Failed(kind)
    } else {
        Exit::Usage
    }
}

/// What a command is, before any interface or daemon is looked for.
#[derive(Debug, Clone, Copy, PartialEq, Eq, Structural)]
pub enum Early {
    /// A fabric is made, on this machine alone.
    Fabric { fabric_id: u64, admin_node_id: u64 },
    /// Events are listened to, which takes the daemon.
    Listen,
    /// Anything else.
    Other,
}

/// What a command is, before any interface or daemon is looked for.
pub fn early(command: &Command) -> (e: Early)
    ensures
        e == match *command {
            Command::Fabric { action: FabricAction::Init { fabric_id, admin_node_id } } => {
                Early::Fabric { fabric_id, admin_node_id }
            },
            Command::Listen { .. } => Early::Listen,
            _ => Early::Other,
        },
{
    match command {
        Command::Fabric { action: FabricAction::Init { fabric_id, admin_node_id } } => {
            Early::Fabric { fabric_id: *fabric_id, admin_node_id: *admin_node_id }
        },
        Command::Listen { .. } => Early::Listen,
        _ => Early::Other,
    }
}

/// Where events are listened to. There is no way without the daemon.
pub fn listen_sockets(route: Route) -> (r: Result<Vec<String>, MatError>)
    ensures
        match route {
            Route::Forced(s) => r == Ok::<Vec<String>, MatError>(s),
            Route::Auto(s) => r == Ok::<Vec<String>, MatError>(s),
            Route::Direct => r matches Err(e) && e@ == error(
                ErrorKind::MatdUnavailable,
                "`mat listen` requires matd (MAT_MATD=0 disables it)"@,
            ),
        },
{
    match route {
        Route::Forced(s) => Ok(s),
        Route::Auto(s) => Ok(s),
        Route::Direct => Err(
            MatError::fixed(
                ErrorKind::MatdUnavailable,
                "`mat listen` requires matd (MAT_MATD=0 disables it)",
            ),
        ),
    }
}

/// Which way a command goes.
#[derive(Debug, PartialEq, Eq)]
pub enum Way {
    /// To the daemon, or not at all.
    Daemon(Vec<String>),
    /// To the daemon where one answers, else directly.
    TryDaemon(Vec<String>),
    /// The daemon is asked for and does not serve this subcommand.
    Unsupported(&'static str),
    /// Directly.
    Direct,
}

/// Which way a command goes: what the daemon cannot serve goes directly unless
/// the daemon was asked for.
pub open spec fn way_of(route: Route, dispatch: Dispatch) -> Way {
    match (route, dispatch) {
        (Route::Forced(s), Dispatch::Device(_)) => Way::Daemon(s),
        (Route::Forced(_), Dispatch::Dedicated(name)) => Way::Unsupported(name),
        (Route::Auto(s), Dispatch::Device(_)) => Way::TryDaemon(s),
        (Route::Auto(_), Dispatch::Dedicated(_)) => Way::Direct,
        (Route::Direct, _) => Way::Direct,
    }
}

/// Which way a command goes.
pub fn way(route: Route, dispatch: &Dispatch) -> (w: Way)
    ensures
        w == way_of(route, *dispatch),
{
    match (route, dispatch) {
        (Route::Forced(s), Dispatch::Device(_)) => Way::Daemon(s),
        (Route::Forced(_), Dispatch::Dedicated(name)) => Way::Unsupported(name),
        (Route::Auto(s), Dispatch::Device(_)) => Way::TryDaemon(s),
        (Route::Auto(_), Dispatch::Dedicated(_)) => Way::Direct,
        (Route::Direct, _) => Way::Direct,
    }
}

/// A daemon that is asked for is never passed over, and one that is switched
/// off is never asked.
pub proof fn law_route_is_obeyed(sockets: Vec<String>, dispatch: Dispatch)
    ensures
        way_of(Route::Forced(sockets), dispatch) !is Direct,
        way_of(Route::Forced(sockets), dispatch) !is TryDaemon,
        way_of(Route::Direct, dispatch) is Direct,
{
}

/// The interface for operations: the one given, else the one that was found.
pub fn iface_choice(given: Option<String>, found: Result<String, MatError>) -> (r: Result<
    String,
    MatError,
>)
    ensures
        r == match given {
            Some(i) => Ok::<String, MatError>(i),
            None => found,
        },
{
    match given {
        Some(i) => Ok(i),
        None => found,
    }
}

/// The interface for groupcasts into Thread: the one given must be there, one
/// that was found need not.
pub fn thread_choice(given: Option<String>, found: Option<String>) -> (r: Option<ThreadIfaceChoice>)
    ensures
        r == match (given, found) {
            (Some(n), _) => Some(ThreadIfaceChoice::Explicit(n)),
            (None, Some(n)) => Some(ThreadIfaceChoice::Auto(n)),
            (None, None) => None,
        },
{
    match (given, found) {
        (Some(n), _) => Some(ThreadIfaceChoice::Explicit(n)),
        (None, Some(n)) => Some(ThreadIfaceChoice::Auto(n)),
        (None, None) => None,
    }
}

/// A command with a part of the program of its own.
#[derive(Debug, PartialEq, Eq)]
pub enum Dedicated {
    Discover { probe: bool },
    Commission,
    DiagNode { node_id: u64, endpoint: u16, deep: bool },
    DiagMesh { nodes: Vec<u64> },
}

/// What a command with a part of its own says.
pub enum DedicatedView {
    Discover { probe: bool },
    Commission,
    DiagNode { node_id: u64, endpoint: u16, deep: bool },
    DiagMesh { nodes: Seq<u64> },
}

impl View for Dedicated {
    type V = DedicatedView;

    open spec fn view(&self) -> DedicatedView {
        match *self {
            Dedicated::Discover { probe } => DedicatedView::Discover { probe },
            Dedicated::Commission => DedicatedView::Commission,
            Dedicated::DiagNode { node_id, endpoint, deep } => DedicatedView::DiagNode {
                node_id,
                endpoint,
                deep,
            },
            Dedicated::DiagMesh { nodes } => DedicatedView::DiagMesh { nodes: nodes@ },
        }
    }
}

/// What a part of its own gives.
pub open spec fn dedicated_view(r: Result<Dedicated, MatError>) -> Result<
    DedicatedView,
    ErrorView,
> {
    match r {
        Ok(d) => Ok(d@),
        Err(e) => Err(e@),
    }
}

/// The part of the program that a command has of its own. Every other command
/// was served before; one that comes here all the same is an internal failure,
/// as is an alias that was left over.
pub open spec fn dedicated_of(command: Command) -> Result<DedicatedView, ErrorView> {
    match command {
        Command::Discover { probe } => Ok(DedicatedView::Discover { probe }),
        Command::Commission { .. } => Ok(DedicatedView::Commission),
        Command::Diag { action: DiagCommand::Node { node_id, endpoint, deep } } => match (
            node_id.number(),
            endpoint.number(),
        ) {
            (Err(e), _) => Err(e),
            (_, Err(e)) => Err(e),
            (Ok(n), Ok(p)) => Ok(DedicatedView::DiagNode { node_id: n, endpoint: p, deep }),
        },
        Command::Diag { action: DiagCommand::Mesh { nodes } } => match numbers(nodes@) {
            Err(e) => Err(e),
            Ok(ids) => Ok(DedicatedView::DiagMesh { nodes: ids }),
        },
        _ => Err(
            error(
                ErrorKind::ParseError,
                "internal: op not handled by native_direct::run (route dispatch invariant violated)"@,
            ),
        ),
    }
}

/// The part of the program that a command has of its own.
pub fn dedicated(command: &Command) -> (r: Result<Dedicated, MatError>)
    ensures
        dedicated_view(r) == dedicated_of(*command),
{
    match command {
        Command::Discover { probe } => Ok(Dedicated::Discover { probe: *probe }),
        Command::Commission { .. } => Ok(Dedicated::Commission),
        Command::Diag { action: DiagCommand::Node { node_id, endpoint, deep } } => {
            let n: u64 = match node_id.id() {
                Ok(n) => n,
                Err(e) => {
                    return Err(e);
                },
            };
            match endpoint.id() {
                Ok(p) => Ok(Dedicated::DiagNode { node_id: n, endpoint: p, deep: *deep }),
                Err(e) => Err(e),
            }
        },
        Command::Diag { action: DiagCommand::Mesh { nodes } } => match node_numbers(nodes) {
            Ok(ids) => Ok(Dedicated::DiagMesh { nodes: ids }),
            Err(e) => Err(e),
        },
        _ => Err(
            MatError::fixed(
                ErrorKind::ParseError,
                "internal: op not handled by native_direct::run (route dispatch invariant violated)",
            ),
        ),
    }
}

/// A daemon that is forced gets every operation of a device, on its sockets,
/// and refuses every other command by its name; one that may be used is tried
/// for the operations of a device alone.
pub proof fn law_way_follows_the_route(sockets: Vec<String>, op: DeviceOp, name: &'static str)
    ensures
        way_of(Route::Forced(sockets), Dispatch::Device(op)) == Way::Daemon(sockets),
        way_of(Route::Forced(sockets), Dispatch::Dedicated(name)) == Way::Unsupported(name),
        way_of(Route::Auto(sockets), Dispatch::Device(op)) == Way::TryDaemon(sockets),
        way_of(Route::Auto(sockets), Dispatch::Dedicated(name)) == Way::Direct,
        way_of(Route::Direct, Dispatch::Device(op)) == Way::Direct,
        way_of(Route::Direct, Dispatch::Dedicated(name)) == Way::Direct,
{
}

/// A command that runs on its own keeps what it was given: the node, the
/// endpoint and the depth of a diagnosis, the nodes of a mesh in order.
pub proof fn law_dedicated_command_keeps_its_arguments(
    node_id: u64,
    endpoint: u16,
    deep: bool,
    probe: bool,
    nodes: Vec<NodeRef>,
    i: int,
)
    ensures
        dedicated_of(Command::Discover { probe }) == Ok::<DedicatedView, ErrorView>(
            DedicatedView::Discover { probe },
        ),
        dedicated_of(
            Command::Diag {
                action: DiagCommand::Node {
                    node_id: NodeRef::Id(node_id),
                    endpoint: EndpointRef::Id(endpoint),
                    deep,
                },
            },
        ) == Ok::<DedicatedView, ErrorView>(DedicatedView::DiagNode { node_id, endpoint, deep }),
        dedicated_of(Command::Diag { action: DiagCommand::Mesh { nodes } }) matches Ok(d) ==> (
        d matches DedicatedView::DiagMesh { nodes: ns } && (0 <= i < nodes@.len() ==> ns.len()
            == nodes@.len() && nodes@[i] == NodeRef::Id(ns[i]))),
{
    if 0 <= i < nodes@.len() {
        crate::cli::law_node_numbers_keep_their_order(nodes@, i);
    }
}

/// A command that does not run on its own is refused there.
pub proof fn law_other_commands_do_not_run_on_their_own(c: Command)
    requires
        !(c is Discover || c is Commission),
        !(c matches Command::Diag { action } && (action is Node || action is Mesh)),
    ensures
        dedicated_of(c) matches Err(e) && e.kind == ErrorKind::ParseError,
{
}

} // verus!
