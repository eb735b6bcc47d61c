//! The commands that can be given.
use vstd::prelude::*;
use vstd::string::*;
use crate::commission::Transport;
use crate::error::{error, ErrorKind, ErrorView, MatError};
use crate::text;

verus! {

/// A node by number or by alias.
#[derive(Debug, PartialEq, Eq)]
pub enum NodeRef {
    Id(u64),
    Alias(String),
}

/// A group by number or by alias.
#[derive(Debug, PartialEq, Eq)]
pub enum GroupRef {
    Id(u16),
    Alias(String),
}

/// An endpoint by number or by alias.
#[derive(Debug, PartialEq, Eq)]
pub enum EndpointRef {
    Id(u16),
    Alias(String),
}

/// A color: by name, by RGB, or by hue and saturation.
#[derive(Debug, PartialEq, Eq)]
pub struct ColorSpecArgs {
    pub name: Option<String>,
    pub rgb: Option<String>,
    /// Degrees.
    pub hue: Option<u16>,
    /// Percent.
    pub sat: Option<u8>,
}

/// What to do with the own fabric.
#[derive(Debug, Clone, Copy, PartialEq, Eq, Structural)]
pub enum FabricAction {
    Init { fabric_id: u64, admin_node_id: u64 },
}

/// What to diagnose.
#[derive(Debug, PartialEq, Eq)]
pub enum DiagCommand {
    Thread { node_id: NodeRef, endpoint: EndpointRef },
    Node { node_id: NodeRef, endpoint: EndpointRef, deep: bool },
    Mesh { nodes: Vec<NodeRef> },
}

/// What to do with a group.
#[derive(Debug, PartialEq, Eq)]
pub enum GroupCommand {
    Provision {
        group_id: GroupRef,
        node_ids: Vec<NodeRef>,
        keyset_id: u16,
        name: Option<String>,
        endpoint: u16,
        epoch_key: Option<String>,
        rebind: bool,
    },
    Invoke {
        group_id: GroupRef,
        cluster: String,
        command: String,
        args: Vec<String>,
        endpoint: u16,
    },
    ColorTemp {
        group_id: GroupRef,
        kelvin: Option<u32>,
        mireds: Option<u16>,
        transition: u16,
        endpoint: u16,
    },
    Level { group_id: GroupRef, percent: u8, transition: u16, endpoint: u16 },
    Color { group_id: GroupRef, spec: ColorSpecArgs, transition: u16, endpoint: u16 },
    Grant { group_id: GroupRef, node_ids: Vec<NodeRef> },
    Bump,
}

/// A command.
#[allow(inconsistent_fields)]
#[derive(Debug, PartialEq, Eq)]
pub enum Command {
    Discover { probe: bool },
    Commission {
        target: String,
        setup_code: String,
        node_id: Option<u64>,
        alias: Option<String>,
        thread_dataset: Option<String>,
        transport: Transport,
    },
    Read { node_id: NodeRef, endpoint: EndpointRef, cluster: String, attribute: String },
    Write {
        node_id: NodeRef,
        endpoint: EndpointRef,
        cluster: String,
        attribute: String,
        value: String,
    },
    Invoke {
        node_id: NodeRef,
        endpoint: EndpointRef,
        cluster: String,
        command: String,
        args: Vec<String>,
    },
    Describe { node_id: NodeRef },
    On { node_id: NodeRef, endpoint: EndpointRef },
    Off { node_id: NodeRef, endpoint: EndpointRef },
    ColorTemp {
        node_id: NodeRef,
        endpoint: EndpointRef,
        kelvin: Option<u32>,
        mireds: Option<u16>,
        transition: u16,
    },
    Level { node_id: NodeRef, endpoint: EndpointRef, percent: u8, transition: u16 },
    Color { node_id: NodeRef, endpoint: EndpointRef, spec: ColorSpecArgs, transition: u16 },
    OpenWindow { node_id: NodeRef, timeout: u32, iteration: u32, discriminator: Option<u16> },
    Group { action: GroupCommand },
    Diag { action: DiagCommand },
    Fabric { action: FabricAction },
    Listen {
        node_id: Option<NodeRef>,
        endpoint: Option<EndpointRef>,
        cluster: Option<String>,
        attribute: Option<String>,
        event: Option<String>,
        count: u32,
        timeout_ms: u64,
        reconnect: bool,
    },
}

/// The failure of an alias that should have been resolved.
pub open spec fn left_over(what: Seq<char>, alias: Seq<char>) -> ErrorView {
    error(ErrorKind::Other, "unresolved "@ + what + " alias (internal): "@ + alias)
}

fn left_over_error(what: &str, alias: &String) -> (e: MatError)
    ensures
        e@ == left_over(what@, alias@),
{
    MatError::new(
        ErrorKind::Other,
        "unresolved ".to_owned().concat(what).concat(" alias (internal): ").concat(alias),
    )
}

impl NodeRef {
    /// The number, once aliases are resolved.
    pub open spec fn number(self) -> Result<u64, ErrorView> {
        match self {
            NodeRef::Id(n) => Ok(n),
            NodeRef::Alias(a) => Err(left_over("node"@, a@)),
        }
    }

    /// The number, once aliases are resolved.
    pub fn id(&self) -> (r: Result<u64, MatError>)
        ensures
            crate::error::outcome(r) == self.number(),
    {
        match self {
            NodeRef::Id(n) => Ok(*n),
            NodeRef::Alias(a) => Err(left_over_error("node", a)),
        }
    }
}

impl GroupRef {
    /// The number, once aliases are resolved.
    pub open spec fn number(self) -> Result<u16, ErrorView> {
        match self {
            GroupRef::Id(n) => Ok(n),
            GroupRef::Alias(a) => Err(left_over("group"@, a@)),
        }
    }

    /// The number, once aliases are resolved.
    pub fn id(&self) -> (r: Result<u16, MatError>)
        ensures
            crate::error::outcome(r) == self.number(),
    {
        match self {
            GroupRef::Id(n) => Ok(*n),
            GroupRef::Alias(a) => Err(left_over_error("group", a)),
        }
    }
}

impl EndpointRef {
    /// The number, once aliases are resolved.
    pub open spec fn number(self) -> Result<u16, ErrorView> {
        match self {
            EndpointRef::Id(n) => Ok(n),
            EndpointRef::Alias(a) => Err(left_over("endpoint"@, a@)),
        }
    }

    /// The number, once aliases are resolved.
    pub fn id(&self) -> (r: Result<u16, MatError>)
        ensures
            crate::error::outcome(r) == self.number(),
    {
        match self {
            EndpointRef::Id(n) => Ok(*n),
            EndpointRef::Alias(a) => Err(left_over_error("endpoint", a)),
        }
    }
}

/// The numbers of some nodes in order, or the first failure.
pub open spec fn numbers(nodes: Seq<NodeRef>) -> Result<Seq<u64>, ErrorView>
    decreases nodes.len(),
{
    if nodes.len() == 0 {
        Ok(Seq::empty())
    } else {
        match (numbers(nodes.drop_last()), nodes.last().number()) {
            (Err(e), _) => Err(e),
            (_, Err(e)) => Err(e),
            (Ok(front), Ok(n)) => Ok(front.push(n)),
        }
    }
}

proof fn lemma_first_left_over(nodes: Seq<NodeRef>, i: int)
    requires
        0 <= i <= nodes.len(),
        numbers(nodes.take(i)) is Err,
    ensures
        numbers(nodes) == numbers(nodes.take(i)),
    decreases nodes.len() - i,
{
    if i < nodes.len() {
        assert(nodes.take(i + 1).drop_last() =~= nodes.take(i));
        lemma_first_left_over(nodes, i + 1);
    } else {
        assert(nodes.take(i) =~= nodes);
    }
}

/// The numbers of some nodes, or the first failure.
pub fn node_numbers(nodes: &Vec<NodeRef>) -> (r: Result<Vec<u64>, MatError>)
    ensures
        r matches Ok(v) ==> numbers(nodes@) == Ok::<Seq<u64>, ErrorView>(v@),
        r matches Err(e) ==> numbers(nodes@) == Err::<Seq<u64>, ErrorView>(e@),
{
    let mut v: Vec<u64> = Vec::new();
    let mut i: usize = 0;
    while i < nodes.len()
        invariant
            i <= nodes.len(),
            numbers(nodes@.take(i as int)) == Ok::<Seq<u64>, ErrorView>(v@),
        decreases nodes.len() - i,
    {
        assert(nodes@.take(i + 1).drop_last() =~= nodes@.take(i as int));
        match nodes[i].id() {
            Ok(n) => {
                v.push(n);
            },
            Err(e) => {
                proof {
                    lemma_first_left_over(nodes@, i + 1);
                }
                return Err(e);
            },
        }
        i += 1;
    }
    assert(nodes@.take(i as int) =~= nodes@);
    Ok(v)
}

/// Whether a color temperature is given in exactly one unit, and is not zero.
pub open spec fn one_unit(kelvin: Option<u32>, mireds: Option<u16>) -> bool {
    &&& kelvin is Some <==> mireds is None
    &&& kelvin matches Some(v) ==> v != 0
    &&& mireds matches Some(v) ==> v != 0
}

/// What the command line makes sure of: a color temperature is given in exactly
/// one unit, and is not zero.
pub open spec fn admitted(c: Command) -> bool {
    match c {
        Command::ColorTemp { kelvin, mireds, .. } => one_unit(kelvin, mireds),
        Command::Group { action: GroupCommand::ColorTemp { kelvin, mireds, .. } } => one_unit(
            kelvin,
            mireds,
        ),
        _ => true,
    }
}

/// Whether a transport can be used with a setup code: BLE needs the QR payload,
/// since a manual code lacks the long discriminator.
pub open spec fn transport_fits(transport: Transport, setup_code: Seq<char>) -> bool {
    transport == Transport::Ble ==> text::has_prefix(setup_code, "MT:"@)
}

/// Refuses a transport that cannot be used with the setup code.
pub fn validate_transport(transport: Transport, setup_code: &str) -> (r: Result<(), MatError>)
    ensures
        r is Ok <==> transport_fits(transport, setup_code@),
        r matches Err(e) ==> e@ == error(
            ErrorKind::Other,
            "--transport ble requires the QR payload (manual code has no long discriminator)"@,
        ),
{
    if transport == Transport::Ble && !text::starts_with(setup_code, "MT:") {
        Err(
            MatError::fixed(
                ErrorKind::Other,
                "--transport ble requires the QR payload (manual code has no long discriminator)",
            ),
        )
    } else {
        Ok(())
    }
}

/// A number stands for itself; a name that is left over stands for nothing.
pub proof fn law_numbers_stand_for_themselves(n: NodeRef, g: GroupRef, e: EndpointRef)
    ensures
        n matches NodeRef::Id(x) ==> n.number() == Ok::<u64, ErrorView>(x),
        g matches GroupRef::Id(x) ==> g.number() == Ok::<u16, ErrorView>(x),
        e matches EndpointRef::Id(x) ==> e.number() == Ok::<u16, ErrorView>(x),
        n is Alias ==> (n.number() matches Err(f) && f.kind == ErrorKind::Other),
        g is Alias ==> (g.number() matches Err(f) && f.kind == ErrorKind::Other),
        e is Alias ==> (e.number() matches Err(f) && f.kind == ErrorKind::Other),
{
}

/// The numbers of some nodes are theirs, one by one; a name among them leaves
/// none.
pub proof fn law_node_numbers_keep_their_order(nodes: Seq<NodeRef>, i: int)
    requires
        0 <= i < nodes.len(),
    ensures
        numbers(nodes) matches Ok(ns) ==> ns.len() == nodes.len() && nodes[i] == NodeRef::Id(ns[i]),
        nodes[i] is Alias ==> numbers(nodes) is Err,
    decreases nodes.len(),
{
    reveal_with_fuel(numbers, 2);
    let front = nodes.drop_last();
    if front.len() > 0 {
        law_node_numbers_keep_their_order(front, if i < front.len() {
            i
        } else {
            0
        });
    }
}

/// Nodes that are all numbers have their numbers.
pub proof fn law_numbered_nodes_have_numbers(nodes: Seq<NodeRef>)
    requires
        forall|i: int| 0 <= i < nodes.len() ==> #[trigger] nodes[i] is Id,
    ensures
        numbers(nodes) is Ok,
    decreases nodes.len(),
{
    if nodes.len() > 0 {
        let front = nodes.drop_last();
        assert forall|i: int| 0 <= i < front.len() implies #[trigger] front[i] is Id by {
            assert(nodes[i] is Id);
        }
        law_numbered_nodes_have_numbers(front);
        assert(nodes[nodes.len() - 1] is Id);
    }
}

/// Only the radio needs the long code.
pub proof fn law_only_the_radio_needs_the_long_code(code: Seq<char>)
    ensures
        transport_fits(Transport::Ble, code) <==> text::has_prefix(code, "MT:"@),
        transport_fits(Transport::Auto, code),
        transport_fits(Transport::OnNetwork, code),
{
}

/// A temperature is given in one unit, and is not nothing.
pub proof fn law_temperature_has_one_unit(kelvin: u32, mireds: u16)
    ensures
        one_unit(Some(kelvin), None) <==> kelvin > 0,
        one_unit(None, Some(mireds)) <==> mireds > 0,
        !one_unit(Some(kelvin), Some(mireds)),
        !one_unit(None, None),
{
}

/// A name that is left over is told, with what it should stand for.
pub proof fn law_name_left_over_is_told(n: String)
    ensures
        NodeRef::Alias(n).number() == Err::<u64, ErrorView>(left_over("node"@, n@)),
        GroupRef::Alias(n).number() == Err::<u16, ErrorView>(left_over("group"@, n@)),
        EndpointRef::Alias(n).number() == Err::<u16, ErrorView>(left_over("endpoint"@, n@)),
        text::occurs(left_over("node"@, n@).detail, n@),
{
    let d = left_over("node"@, n@).detail;
    let k: int = d.len() - n@.len();
    assert(d.subrange(k, k + n@.len()) =~= n@);
    assert(text::occurs_at(d, n@, k));
}

} // verus!
