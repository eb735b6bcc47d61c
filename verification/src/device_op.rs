//! Commands into operations.
//!
//! A command whose aliases are resolved becomes an operation on nodes or on a
//! group, or is left to a part of the program of its own. Names of clusters,
//! attributes and commands and colors are looked up before, once.
use vstd::prelude::*;
use vstd::string::*;
use crate::body::ResolvedColor;
use crate::cli::{
    admitted,
    node_numbers,
    numbers,
    Command,
    DiagCommand,
    EndpointRef,
    GroupCommand,
    GroupRef,
    NodeRef,
};
use crate::error::{unresolved_op, MatError};
use crate::op::{
    color_temp_of,
    is_group_invoke,
    is_invoke,
    is_read,
    is_write,
    refused,
    write_refused,
    GroupOp,
    GroupOpKind,
    InvokeClass,
    NodeOp,
    NodeOpKind,
    ProvisionParams,
    WriteClass,
};
use crate::resolve::{fails, gives};
use crate::text;
use crate::units::level_of;

verus! {

/// An operation, the same for the daemon and for the direct path.
#[derive(Debug, PartialEq, Eq)]
pub enum DeviceOp {
    Node(NodeOp),
    Group(GroupOp),
    GroupProvision(ProvisionParams),
    /// Direct path only.
    GroupGrant { group_id: u16, node_ids: Vec<u64> },
    /// Direct path only.
    GroupRemove { group_id: u16, endpoint: u16, node_ids: Vec<u64> },
    GroupBump,
}

impl DeviceOp {
    /// The name of the operation.
    pub open spec fn label(self) -> Seq<char> {
        match self {
            DeviceOp::Node(n) => n.kind.label(),
            DeviceOp::Group(g) => g.kind.label(),
            DeviceOp::GroupProvision(_) => "group_provision"@,
            DeviceOp::GroupGrant { .. } => "group_grant"@,
            DeviceOp::GroupRemove { .. } => "group_remove"@,
            DeviceOp::GroupBump => "group_bump"@,
        }
    }

    /// The name of the operation.
    pub fn name(&self) -> (s: &'static str)
        ensures
            s@ == self.label(),
    {
        match self {
            DeviceOp::Node(n) => n.kind.name(),
            DeviceOp::Group(g) => g.kind.name(),
            DeviceOp::GroupProvision(_) => "group_provision",
            DeviceOp::GroupGrant { .. } => "group_grant",
            DeviceOp::GroupRemove { .. } => "group_remove",
            DeviceOp::GroupBump => "group_bump",
        }
    }

    /// Whether a time budget limits the operation.
    pub open spec fn budgeted(self) -> bool {
        self matches DeviceOp::Node(n) && n.kind.budgeted()
    }

    /// Whether a time budget limits the operation: those on one node that do.
    pub fn budget_applies(&self) -> (r: bool)
        ensures
            r == self.budgeted(),
    {
        match self {
            DeviceOp::Node(n) => n.kind.budget_applies(),
            _ => false,
        }
    }
}

/// What becomes of a command.
#[derive(Debug, PartialEq, Eq)]
pub enum Dispatch {
    Device(DeviceOp),
    /// A part of the program of its own, by its name.
    Dedicated(&'static str),
}

/// The discriminator of a window: the given one, or one from the node's number.
pub open spec fn discriminator_of(node_id: u64, discriminator: Option<u16>) -> u16 {
    match discriminator {
        Some(d) => d,
        None => (node_id % 4096) as u16,
    }
}

/// The discriminator of a window: the given one, or one from the node's number
/// in twelve bits.
pub fn resolve_discriminator(node_id: u64, discriminator: Option<u16>) -> (d: u16)
    ensures
        d == discriminator_of(node_id, discriminator),
        discriminator is None ==> d < 4096,
{
    match discriminator {
        Some(d) => d,
        None => (node_id % 4096) as u16,
    }
}

/// What was looked up for a command: the ids of its cluster and attribute, the
/// classes of its write and of its command, and its color.
#[derive(Debug, PartialEq, Eq)]
pub struct Lookup {
    pub cluster: Option<u32>,
    pub attribute: Option<u32>,
    pub write: WriteClass,
    pub invoke: InvokeClass,
    pub color: Result<ResolvedColor, MatError>,
}

/// Whether an operation on a node comes out, whose kind fits.
pub open spec fn node_comes(
    r: Result<Dispatch, MatError>,
    node: NodeRef,
    fits: spec_fn(NodeOpKind) -> bool,
) -> bool {
    match node.number() {
        Err(e) => fails(r, e),
        Ok(n) => r matches Ok(Dispatch::Device(DeviceOp::Node(op))) && op.node_id == n && fits(
            op.kind,
        ),
    }
}

/// Whether a groupcast comes out, whose kind fits.
pub open spec fn group_comes(
    r: Result<Dispatch, MatError>,
    group_id: u16,
    endpoint: u16,
    fits: spec_fn(GroupOpKind) -> bool,
) -> bool {
    r matches Ok(Dispatch::Device(DeviceOp::Group(op))) && op.group_id == group_id && op.endpoint
        == endpoint && fits(op.kind)
}

/// Whether a command is left to a part of the program of its own.
pub open spec fn dedicated(r: Result<Dispatch, MatError>, name: Seq<char>) -> bool {
    r matches Ok(Dispatch::Dedicated(s)) && s@ == name
}

/// What becomes of a group command.
pub open spec fn group_classified(
    c: GroupCommand,
    l: Lookup,
    r: Result<Dispatch, MatError>,
) -> bool {
    match c {
        GroupCommand::Provision {
            group_id,
            node_ids,
            keyset_id,
            name,
            endpoint,
            epoch_key,
            rebind,
        } => match (group_id.number(), numbers(node_ids@)) {
            (Err(e), _) => fails(r, e),
            (_, Err(e)) => fails(r, e),
            (Ok(g), Ok(ns)) => r matches Ok(Dispatch::Device(DeviceOp::GroupProvision(p)))
                && p.group_id == g && p.node_ids@ == ns && p.keyset_id == keyset_id && p.name@
                == match name {
                Some(n) => n@,
                None => "grp"@ + text::dec(g as nat),
            } && p.endpoint == endpoint && p.epoch_key == epoch_key && p.rebind == rebind,
        },
        GroupCommand::Invoke { group_id, cluster, command, args, endpoint } => match group_id.number() {
            Err(e) => fails(r, e),
            Ok(g) => match refused(l.invoke) {
                Some(e) => fails(r, e),
                None => group_comes(
                    r,
                    g,
                    endpoint,
                    |k: GroupOpKind| is_group_invoke(k, cluster@, command@, args@, l.invoke),
                ),
            },
        },
        GroupCommand::ColorTemp {
            group_id,
            kelvin,
            mireds,
            transition,
            endpoint,
        } => match group_id.number() {
            Err(e) => fails(r, e),
            Ok(g) => group_comes(
                r,
                g,
                endpoint,
                |k: GroupOpKind|
                    k == (GroupOpKind::ColorTemp {
                        kelvin: color_temp_of(kelvin, mireds).1,
                        mireds: color_temp_of(kelvin, mireds).0,
                        transition,
                    }),
            ),
        },
        GroupCommand::Level { group_id, percent, transition, endpoint } => match group_id.number() {
            Err(e) => fails(r, e),
            Ok(g) => group_comes(
                r,
                g,
                endpoint,
                |k: GroupOpKind|
                    k == (GroupOpKind::Level {
                        percent,
                        level: (level_of(percent as nat) % 256) as u8,
                        transition,
                    }),
            ),
        },
        GroupCommand::Color { group_id, transition, endpoint, .. } => match group_id.number() {
            Err(e) => fails(r, e),
            Ok(g) => match l.color {
                Err(e) => fails(r, e@),
                Ok(color) => group_comes(
                    r,
                    g,
                    endpoint,
                    |k: GroupOpKind| k == (GroupOpKind::Color { color, transition }),
                ),
            },
        },
        GroupCommand::Grant { group_id, node_ids } => match (
            group_id.number(),
            numbers(node_ids@),
        ) {
            (Err(e), _) => fails(r, e),
            (_, Err(e)) => fails(r, e),
            (Ok(g), Ok(ns)) => r matches Ok(Dispatch::Device(DeviceOp::GroupGrant {
                group_id: g2,
                node_ids: ns2,
            })) && g2 == g && ns2@ == ns,
        },
        GroupCommand::Bump => gives(r, Dispatch::Device(DeviceOp::GroupBump)),
    }
}

/// What becomes of a command. Of several failures the endpoint's comes first,
/// then the lookup's, then the node's.
pub open spec fn classified(c: Command, l: Lookup, r: Result<Dispatch, MatError>) -> bool {
    match c {
        Command::Discover { .. } => dedicated(r, "discover"@),
        Command::Commission { .. } => dedicated(r, "commission"@),
        Command::Fabric { .. } => dedicated(r, "fabric"@),
        Command::Listen { .. } => dedicated(r, "listen"@),
        Command::Diag { action } => match action {
            DiagCommand::Thread { node_id, endpoint } => match endpoint.number() {
                Err(e) => fails(r, e),
                Ok(ep) => node_comes(
                    r,
                    node_id,
                    |k: NodeOpKind| k == (NodeOpKind::DiagThread { endpoint: ep }),
                ),
            },
            _ => dedicated(r, "diag"@),
        },
        Command::Read { node_id, endpoint, cluster, attribute } => match endpoint.number() {
            Err(e) => fails(r, e),
            Ok(ep) => if l.cluster is Some && l.attribute is Some {
                node_comes(
                    r,
                    node_id,
                    |k: NodeOpKind|
                        is_read(k, ep, cluster@, attribute@, l.cluster->0, l.attribute->0),
                )
            } else {
                fails(r, unresolved_op())
            },
        },
        Command::Write { node_id, endpoint, cluster, attribute, value } => match endpoint.number() {
            Err(e) => fails(r, e),
            Ok(ep) => match write_refused(l.write) {
                Some(e) => fails(r, e),
                None => node_comes(
                    r,
                    node_id,
                    |k: NodeOpKind|
                        is_write(k, ep, cluster@, attribute@, value@, l.write, false),
                ),
            },
        },
        Command::Invoke { node_id, endpoint, cluster, command, args } => match endpoint.number() {
            Err(e) => fails(r, e),
            Ok(ep) => match refused(l.invoke) {
                Some(e) => fails(r, e),
                None => node_comes(
                    r,
                    node_id,
                    |k: NodeOpKind|
                        is_invoke(k, ep, cluster@, command@, args@, l.invoke, false),
                ),
            },
        },
        Command::Describe { node_id } => node_comes(
            r,
            node_id,
            |k: NodeOpKind| k == NodeOpKind::Describe,
        ),
        Command::On { node_id, endpoint } => match endpoint.number() {
            Err(e) => fails(r, e),
            Ok(ep) => node_comes(
                r,
                node_id,
                |k: NodeOpKind| k == (NodeOpKind::On { endpoint: ep }),
            ),
        },
        Command::Off { node_id, endpoint } => match endpoint.number() {
            Err(e) => fails(r, e),
            Ok(ep) => node_comes(
                r,
                node_id,
                |k: NodeOpKind| k == (NodeOpKind::Off { endpoint: ep }),
            ),
        },
        Command::ColorTemp {
            node_id,
            endpoint,
            kelvin,
            mireds,
            transition,
        } => match endpoint.number() {
            Err(e) => fails(r, e),
            Ok(ep) => node_comes(
                r,
                node_id,
                |k: NodeOpKind|
                    k == (NodeOpKind::ColorTemp {
                        endpoint: ep,
                        kelvin: color_temp_of(kelvin, mireds).1,
                        mireds: color_temp_of(kelvin, mireds).0,
                        transition,
                    }),
            ),
        },
        Command::Level { node_id, endpoint, percent, transition } => match endpoint.number() {
            Err(e) => fails(r, e),
            Ok(ep) => node_comes(
                r,
                node_id,
                |k: NodeOpKind|
                    k == (NodeOpKind::Level {
                        endpoint: ep,
                        percent,
                        level: (level_of(percent as nat) % 256) as u8,
                        transition,
                    }),
            ),
        },
        Command::Color { node_id, endpoint, transition, .. } => match endpoint.number() {
            Err(e) => fails(r, e),
            Ok(ep) => match l.color {
                Err(e) => fails(r, e@),
                Ok(color) => node_comes(
                    r,
                    node_id,
                    |k: NodeOpKind|
                        k == (NodeOpKind::Color { endpoint: ep, color, transition }),
                ),
            },
        },
        Command::OpenWindow { node_id, timeout, iteration, discriminator } => node_comes(
            r,
            node_id,
            |k: NodeOpKind|
                k == (NodeOpKind::OpenWindow {
                    timeout,
                    iteration,
                    discriminator: discriminator_of(node_id.number()->Ok_0, discriminator),
                }),
        ),
        Command::Group { action } => group_classified(action, l, r),
    }
}

fn on_node(node: &NodeRef, kind: NodeOpKind) -> (r: Result<Dispatch, MatError>)
    ensures
        match node.number() {
            Err(e) => fails(r, e),
            Ok(n) => gives(r, Dispatch::Device(DeviceOp::Node(NodeOp { node_id: n, kind }))),
        },
{
    match node.id() {
        Err(e) => Err(e),
        Ok(n) => Ok(Dispatch::Device(DeviceOp::Node(NodeOp { node_id: n, kind }))),
    }
}

fn on_group(group_id: u16, endpoint: u16, kind: GroupOpKind) -> (r: Result<Dispatch, MatError>)
    ensures
        gives(r, Dispatch::Device(DeviceOp::Group(GroupOp { group_id, endpoint, kind }))),
{
    Ok(Dispatch::Device(DeviceOp::Group(GroupOp { group_id, endpoint, kind })))
}

fn classify_group(action: &GroupCommand, l: Lookup) -> (r: Result<Dispatch, MatError>)
    requires
        admitted(Command::Group { action: *action }),
    ensures
        group_classified(*action, l, r),
{
    match action {
        GroupCommand::Provision {
            group_id,
            node_ids,
            keyset_id,
            name,
            endpoint,
            epoch_key,
            rebind,
        } => {
            let g: u16 = match group_id.id() {
                Err(e) => {
                    return Err(e);
                },
                Ok(g) => g,
            };
            let ns = match node_numbers(node_ids) {
                Err(e) => {
                    return Err(e);
                },
                Ok(ns) => ns,
            };
            let name = match name {
                Some(n) => n.clone(),
                None => "grp".to_owned().concat(&text::decimal(g as u64)),
            };
            Ok(
                Dispatch::Device(
                    DeviceOp::GroupProvision(
                        ProvisionParams {
                            group_id: g,
                            node_ids: ns,
                            keyset_id: *keyset_id,
                            name,
                            endpoint: *endpoint,
                            epoch_key: text::copy_text(epoch_key),
                            rebind: *rebind,
                        },
                    ),
                ),
            )
        },
        GroupCommand::Invoke { group_id, cluster, command, args, endpoint } => match group_id.id() {
            Err(e) => Err(e),
            Ok(g) => match GroupOpKind::invoke(
                cluster.as_str(),
                command.as_str(),
                text::copy_texts(args),
                l.invoke,
            ) {
                Err(e) => Err(e),
                Ok(kind) => on_group(g, *endpoint, kind),
            },
        },
        GroupCommand::ColorTemp {
            group_id,
            kelvin,
            mireds,
            transition,
            endpoint,
        } => match group_id.id() {
            Err(e) => Err(e),
            Ok(g) => on_group(
                g,
                *endpoint,
                GroupOpKind::color_temp(*kelvin, *mireds, *transition),
            ),
        },
        GroupCommand::Level { group_id, percent, transition, endpoint } => match group_id.id() {
            Err(e) => Err(e),
            Ok(g) => on_group(g, *endpoint, GroupOpKind::level(*percent, *transition)),
        },
        GroupCommand::Color { group_id, transition, endpoint, .. } => match group_id.id() {
            Err(e) => Err(e),
            Ok(g) => match l.color {
                Err(e) => Err(e),
                Ok(color) => on_group(
                    g,
                    *endpoint,
                    GroupOpKind::Color { color, transition: *transition },
                ),
            },
        },
        GroupCommand::Grant { group_id, node_ids } => match group_id.id() {
            Err(e) => Err(e),
            Ok(g) => match node_numbers(node_ids) {
                Err(e) => Err(e),
                Ok(ns) => Ok(
                    Dispatch::Device(DeviceOp::GroupGrant { group_id: g, node_ids: ns }),
                ),
            },
        },
        GroupCommand::Bump => Ok(Dispatch::Device(DeviceOp::GroupBump)),
    }
}

/// Makes an operation of a command, or names the part of the program that it
/// is left to.
pub fn classify(command: &Command, l: Lookup) -> (r: Result<Dispatch, MatError>)
    requires
        admitted(*command),
    ensures
        classified(*command, l, r),
{
    match command {
        Command::Discover { .. } => Ok(Dispatch::Dedicated("discover")),
        Command::Commission { .. } => Ok(Dispatch::Dedicated("commission")),
        Command::Fabric { .. } => Ok(Dispatch::Dedicated("fabric")),
        Command::Listen { .. } => Ok(Dispatch::Dedicated("listen")),
        Command::Diag { action } => match action {
            DiagCommand::Thread { node_id, endpoint } => match endpoint.id() {
                Err(e) => Err(e),
                Ok(ep) => on_node(node_id, NodeOpKind::DiagThread { endpoint: ep }),
            },
            _ => Ok(Dispatch::Dedicated("diag")),
        },
        Command::Read { node_id, endpoint, cluster, attribute } => match endpoint.id() {
            Err(e) => Err(e),
            Ok(ep) => match NodeOpKind::read(
                ep,
                cluster.as_str(),
                attribute.as_str(),
                l.cluster,
                l.attribute,
            ) {
                Err(e) => Err(e),
                Ok(kind) => on_node(node_id, kind),
            },
        },
        Command::Write { node_id, endpoint, cluster, attribute, value } => match endpoint.id() {
            Err(e) => Err(e),
            Ok(ep) => match NodeOpKind::write(
                ep,
                cluster.as_str(),
                attribute.as_str(),
                value.as_str(),
                l.write,
                false,
            ) {
                Err(e) => Err(e),
                Ok(kind) => on_node(node_id, kind),
            },
        },
        Command::Invoke { node_id, endpoint, cluster, command, args } => match endpoint.id() {
            Err(e) => Err(e),
            Ok(ep) => match NodeOpKind::invoke(
                ep,
                cluster.as_str(),
                command.as_str(),
                text::copy_texts(args),
                l.invoke,
                false,
            ) {
                Err(e) => Err(e),
                Ok(kind) => on_node(node_id, kind),
            },
        },
        Command::Describe { node_id } => on_node(node_id, NodeOpKind::Describe),
        Command::On { node_id, endpoint } => match endpoint.id() {
            Err(e) => Err(e),
            Ok(ep) => on_node(node_id, NodeOpKind::On { endpoint: ep }),
        },
        Command::Off { node_id, endpoint } => match endpoint.id() {
            Err(e) => Err(e),
            Ok(ep) => on_node(node_id, NodeOpKind::Off { endpoint: ep }),
        },
        Command::ColorTemp {
            node_id,
            endpoint,
            kelvin,
            mireds,
            transition,
        } => match endpoint.id() {
            Err(e) => Err(e),
            Ok(ep) => on_node(
                node_id,
                NodeOpKind::color_temp(ep, *kelvin, *mireds, *transition),
            ),
        },
        Command::Level { node_id, endpoint, percent, transition } => match endpoint.id() {
            Err(e) => Err(e),
            Ok(ep) => on_node(node_id, NodeOpKind::level(ep, *percent, *transition)),
        },
        Command::Color { node_id, endpoint, transition, .. } => match endpoint.id() {
            Err(e) => Err(e),
            Ok(ep) => match l.color {
                Err(e) => Err(e),
                Ok(color) => on_node(
                    node_id,
                    NodeOpKind::Color { endpoint: ep, color, transition: *transition },
                ),
            },
        },
        Command::OpenWindow { node_id, timeout, iteration, discriminator } => match node_id.id() {
            Err(e) => Err(e),
            Ok(n) => on_node(
                node_id,
                NodeOpKind::OpenWindow {
                    timeout: *timeout,
                    iteration: *iteration,
                    discriminator: resolve_discriminator(n, *discriminator),
                },
            ),
        },
        Command::Group { action } => classify_group(action, l),
    }
}

/// Once its aliases are resolved, a command without names to look up becomes an
/// operation or is left to a part of the program: it does not fail.
pub proof fn law_resolved_commands_are_dispatched(
    c: Command,
    l: Lookup,
    r: Result<Dispatch, MatError>,
)
    requires
        crate::resolve::is_resolved(c),
        classified(c, l, r),
        !(c is Read || c is Write || c is Invoke || c is Color),
        !(c matches Command::Group { action } && (action is Invoke || action is Color)),
    ensures
        r is Ok,
{
    match c {
        Command::Group { action } => match action {
            GroupCommand::Provision { node_ids, .. } => {
                lemma_all_numbers(node_ids@);
            },
            GroupCommand::Grant { node_ids, .. } => {
                lemma_all_numbers(node_ids@);
            },
            _ => {},
        },
        _ => {},
    }
}

proof fn lemma_all_numbers(nodes: Seq<NodeRef>)
    requires
        crate::resolve::all_numbers(nodes),
    ensures
        numbers(nodes) is Ok,
    decreases nodes.len(),
{
    if nodes.len() > 0 {
        let front = nodes.drop_last();
        assert forall|i: int| 0 <= i < front.len() implies (#[trigger] front[i]) is Id by {
            assert(front[i] == nodes[i]);
        }
        lemma_all_numbers(front);
        assert(nodes[nodes.len() - 1] is Id);
    }
}

/// Whether a command became an operation of a node, and which.
pub open spec fn becomes(r: Result<Dispatch, MatError>, node_id: u64, kind: NodeOpKind) -> bool {
    r matches Ok(Dispatch::Device(DeviceOp::Node(op))) && op.node_id == node_id && op.kind == kind
}

/// A command to a node becomes the operation of that name on the node and the
/// endpoint that it names, with the values that it gives.
pub proof fn law_command_reaches_its_node(
    c: Command,
    l: Lookup,
    r: Result<Dispatch, MatError>,
    n: u64,
    ep: u16,
)
    requires
        classified(c, l, r),
    ensures
        c == (Command::On { node_id: NodeRef::Id(n), endpoint: EndpointRef::Id(ep) }) ==> becomes(
            r,
            n,
            NodeOpKind::On { endpoint: ep },
        ),
        c == (Command::Off { node_id: NodeRef::Id(n), endpoint: EndpointRef::Id(ep) }) ==> becomes(
            r,
            n,
            NodeOpKind::Off { endpoint: ep },
        ),
        c == (Command::Describe { node_id: NodeRef::Id(n) }) ==> becomes(
            r,
            n,
            NodeOpKind::Describe,
        ),
        c matches Command::Level { node_id, endpoint, percent, transition } ==> (node_id
            == NodeRef::Id(n) && endpoint == EndpointRef::Id(ep) && percent <= 100 ==> becomes(
            r,
            n,
            NodeOpKind::Level {
                endpoint: ep,
                percent,
                level: ((254 * percent + 50) / 100) as u8,
                transition,
            },
        )),
        c matches Command::ColorTemp { node_id, endpoint, kelvin, mireds, transition } ==> (node_id
            == NodeRef::Id(n) && endpoint == EndpointRef::Id(ep) && mireds is Some
                && kelvin is None ==> (r matches Ok(Dispatch::Device(DeviceOp::Node(op)))
                && op.node_id == n && (
        op.kind matches NodeOpKind::ColorTemp { endpoint: e, mireds: m, transition: t, .. } && e
            == ep && Some(m) == mireds && t == transition))),
        c matches Command::ColorTemp { node_id, endpoint, kelvin, mireds, transition } ==> (node_id
            == NodeRef::Id(n) && endpoint == EndpointRef::Id(ep) && kelvin is Some ==> (
        r matches Ok(Dispatch::Device(DeviceOp::Node(op))) && op.node_id == n && (
        op.kind matches NodeOpKind::ColorTemp { endpoint: e, kelvin: k, transition: t, .. } && e
            == ep && Some(k) == kelvin && t == transition))),
        c matches Command::Color { node_id, endpoint, transition, .. } ==> (
            node_id == NodeRef::Id(n)
            && endpoint == EndpointRef::Id(ep) ==> (l.color matches Ok(color) ==> becomes(
            r,
            n,
            NodeOpKind::Color { endpoint: ep, color, transition },
        ))),
        c matches Command::OpenWindow { node_id, timeout, iteration, discriminator } ==> (node_id
            == NodeRef::Id(n) ==> becomes(
            r,
            n,
            NodeOpKind::OpenWindow {
                timeout,
                iteration,
                discriminator: match discriminator {
                    Some(d) => d,
                    None => (n % 4096) as u16,
                },
            },
        )),
        c == (Command::Diag {
            action: DiagCommand::Thread {
                node_id: NodeRef::Id(n),
                endpoint: EndpointRef::Id(ep),
            },
        }) ==> becomes(r, n, NodeOpKind::DiagThread { endpoint: ep }),
{
}

/// A read, a write and a command keep the ids that were found for their names,
/// and the names as they were written.
pub proof fn law_named_operation_keeps_its_ids(
    c: Command,
    l: Lookup,
    r: Result<Dispatch, MatError>,
    n: u64,
    ep: u16,
)
    requires
        classified(c, l, r),
    ensures
        c matches Command::Read { node_id, endpoint, cluster, attribute } ==> (
            node_id == NodeRef::Id(
            n,
        ) && endpoint == EndpointRef::Id(ep) && l.cluster is Some && l.attribute is Some ==> (
        r matches Ok(Dispatch::Device(DeviceOp::Node(op))) && op.node_id == n && (
        op.kind matches NodeOpKind::Read {
            endpoint: e,
            cluster_in,
            attribute_in,
            cluster: cl,
            attribute: at,
        } && e == ep && cluster_in@ == cluster@ && attribute_in@ == attribute@ && Some(cl)
            == l.cluster && Some(at) == l.attribute))),
        c matches Command::Write { node_id, endpoint, cluster, attribute, value } ==> (node_id
            == NodeRef::Id(n)
                && endpoint == EndpointRef::Id(ep) ==> (l.write matches WriteClass::Native {
            cluster: wc,
            attribute: wa,
            value: wv,
            timed,
        } ==> (r matches Ok(Dispatch::Device(DeviceOp::Node(op))) && op.node_id == n && (
        op.kind matches NodeOpKind::Write {
            endpoint: e,
            cluster_in,
            attribute_in,
            cluster: cl,
            attribute: at,
            value_in,
            value: v,
            timed: t,
        } && e == ep && cluster_in@ == cluster@ && attribute_in@ == attribute@ && value_in@
            == value@ && cl == wc && at == wa && v == wv && t == timed)))),
        c matches Command::Invoke { node_id, endpoint, cluster, command, args } ==> (node_id
            == NodeRef::Id(n)
                && endpoint == EndpointRef::Id(ep) ==> (l.invoke matches InvokeClass::Native {
            cluster: ic,
            command: io,
            timed,
            ..
        } ==> (r matches Ok(Dispatch::Device(DeviceOp::Node(op))) && op.node_id == n && (
        op.kind matches NodeOpKind::Invoke {
            endpoint: e,
            cluster_in,
            command_in,
            args_in,
            cluster: cl,
            command: co,
            timed: t,
            ..
        } && e == ep && cluster_in@ == cluster@ && command_in@ == command@ && args_in@ == args@
            && cl == ic && co == io && t == timed)))),
{
}

/// A command to a group becomes the operation of that name on the group that it
/// names, with the values that it gives.
pub proof fn law_command_reaches_its_group(
    c: GroupCommand,
    l: Lookup,
    r: Result<Dispatch, MatError>,
    g: u16,
    i: int,
)
    requires
        group_classified(c, l, r),
    ensures
        c matches GroupCommand::Provision {
            group_id,
            node_ids,
            keyset_id,
            name,
            endpoint,
            epoch_key,
            rebind,
        } ==> (group_id == GroupRef::Id(g) && r is Ok ==> (r matches Ok(Dispatch::Device(
            DeviceOp::GroupProvision(p),
        )) && p.group_id == g && p.keyset_id == keyset_id && p.endpoint == endpoint && p.epoch_key
            == epoch_key && p.rebind == rebind && (name matches Some(s) ==> p.name@ == s@) && (
        name is None ==> p.name@ == "grp"@ + text::dec(g as nat)) && (0 <= i < node_ids@.len()
            ==> p.node_ids@.len() == node_ids@.len() && node_ids@[i] == NodeRef::Id(
            p.node_ids@[i],
        )))),
        c matches GroupCommand::Grant { group_id, node_ids } ==> (group_id == GroupRef::Id(g)
            && r is Ok ==> (r matches Ok(Dispatch::Device(DeviceOp::GroupGrant {
            group_id: g2,
            node_ids: ns,
        })) && g2 == g && (0 <= i < node_ids@.len() ==> ns@.len() == node_ids@.len() && node_ids@[i]
            == NodeRef::Id(ns@[i])))),
        c matches GroupCommand::Level { group_id, percent, transition, endpoint } ==> (group_id
            == GroupRef::Id(g) && percent <= 100 ==> (r matches Ok(Dispatch::Device(
            DeviceOp::Group(op),
        )) && op == (GroupOp {
            group_id: g,
            endpoint,
            kind: GroupOpKind::Level {
                percent,
                level: ((254 * percent + 50) / 100) as u8,
                transition,
            },
        }))),
        c matches GroupCommand::Color { group_id, transition, endpoint, .. } ==> (group_id
            == GroupRef::Id(g) ==> (l.color matches Ok(color) ==> (r matches Ok(Dispatch::Device(
            DeviceOp::Group(op),
        )) && op == (GroupOp {
            group_id: g,
            endpoint,
            kind: GroupOpKind::Color { color, transition },
        })))),
        c matches GroupCommand::ColorTemp { group_id, kelvin, mireds, transition, endpoint } ==> (
            group_id == GroupRef::Id(g) ==> (r matches Ok(Dispatch::Device(DeviceOp::Group(op)))
            && op.group_id == g && op.endpoint == endpoint
                && (op.kind matches GroupOpKind::ColorTemp {
            kelvin: k,
            mireds: m,
            transition: t,
        } && t == transition && (kelvin is Some ==> Some(k) == kelvin) && (kelvin is None
            && mireds is Some ==> Some(m) == mireds)))),
        c matches GroupCommand::Invoke { group_id, cluster, command, args, endpoint } ==> (group_id
            == GroupRef::Id(g) ==> (l.invoke matches InvokeClass::Native {
            cluster: ic,
            command: io,
            ..
        } ==> (r matches Ok(Dispatch::Device(DeviceOp::Group(op))) && op.group_id == g
            && op.endpoint == endpoint && (op.kind matches GroupOpKind::Invoke {
            cluster_in,
            command_in,
            args_in,
            cluster: cl,
            command: co,
            ..
        } && cluster_in@ == cluster@ && command_in@ == command@ && args_in@ == args@ && cl == ic
            && co == io)))),
        c is Bump ==> r == Ok::<Dispatch, MatError>(Dispatch::Device(DeviceOp::GroupBump)),
{
    match c {
        GroupCommand::Provision { node_ids, .. } => {
            if 0 <= i < node_ids@.len() {
                crate::cli::law_node_numbers_keep_their_order(node_ids@, i);
            }
        },
        GroupCommand::Grant { node_ids, .. } => {
            if 0 <= i < node_ids@.len() {
                crate::cli::law_node_numbers_keep_their_order(node_ids@, i);
            }
        },
        _ => {},
    }
}

/// The commands that run on their own are named so that a daemon can refuse
/// them.
pub proof fn law_dedicated_commands_are_named(
    c: Command,
    l: Lookup,
    r: Result<Dispatch, MatError>,
)
    requires
        classified(c, l, r),
    ensures
        c is Discover ==> (r matches Ok(Dispatch::Dedicated(s)) && s@ == "discover"@),
        c is Commission ==> (r matches Ok(Dispatch::Dedicated(s)) && s@ == "commission"@),
        c is Fabric ==> (r matches Ok(Dispatch::Dedicated(s)) && s@ == "fabric"@),
        c is Listen ==> (r matches Ok(Dispatch::Dedicated(s)) && s@ == "listen"@),
        c matches Command::Diag { action } ==> (!(action is Thread) ==> (r matches Ok(
            Dispatch::Dedicated(s),
        ) && s@ == "diag"@)),
{
}

/// The budget holds for the operations of a node, but for a diagnosis and a
/// window, which take their own time.
pub proof fn law_budget_holds_for_nodes(op: DeviceOp)
    ensures
        op.budgeted() <==> (op matches DeviceOp::Node(n) && !(n.kind is DiagThread)
            && !(n.kind is OpenWindow)),
{
}

/// Each operation has its name.
pub proof fn law_device_operations_have_their_names(op: DeviceOp)
    ensures
        op is GroupProvision ==> op.label() == "group_provision"@,
        op is GroupGrant ==> op.label() == "group_grant"@,
        op is GroupRemove ==> op.label() == "group_remove"@,
        op is GroupBump ==> op.label() == "group_bump"@,
        op matches DeviceOp::Node(n) ==> op.label() == n.kind.label(),
        op matches DeviceOp::Group(g) ==> op.label() == g.kind.label(),
{
}

/// The discriminator of a window is the one that was given, else the lower
/// twelve bits of the node's number.
pub proof fn law_discriminator_is_given_or_made(node_id: u64, d: u16)
    ensures
        discriminator_of(node_id, Some(d)) == d,
        discriminator_of(node_id, None) == node_id - 4096 * (node_id / 4096),
{
}

} // verus!
