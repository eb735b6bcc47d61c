//! Aliases into numbers.
//!
//! Behind this step a command holds numbers only. A color name and an RGB text
//! become RGB in one spelling.
use vstd::prelude::*;
use vstd::string::*;
use crate::cli::{
    ColorSpecArgs,
    Command,
    DiagCommand,
    EndpointRef,
    GroupCommand,
    GroupRef,
    NodeRef,
};
use crate::error::{error, outcome, ErrorKind, ErrorView, MatError};
use crate::text;

verus! {

/// The aliases that are known.
#[derive(Debug, PartialEq, Eq)]
pub struct AliasBook {
    pub nodes: Vec<(String, u64)>,
    pub groups: Vec<(String, u16)>,
    /// Aliases of the endpoints of a node.
    pub endpoints: Vec<(u64, String, u16)>,
    pub colors: Vec<(String, (u8, u8, u8))>,
}

/// The first value under a name.
pub open spec fn named<T>(pairs: Seq<(String, T)>, name: Seq<char>) -> Option<T>
    decreases pairs.len(),
{
    if pairs.len() == 0 {
        None
    } else if pairs[0].0@ == name {
        Some(pairs[0].1)
    } else {
        named(pairs.skip(1), name)
    }
}

/// The first endpoint of a node under a name.
pub open spec fn named_endpoint(rows: Seq<(u64, String, u16)>, node: u64, name: Seq<char>) -> Option<
    u16,
>
    decreases rows.len(),
{
    if rows.len() == 0 {
        None
    } else if rows[0].0 == node && rows[0].1@ == name {
        Some(rows[0].2)
    } else {
        named_endpoint(rows.skip(1), node, name)
    }
}

/// The failure of an alias that is not known.
pub open spec fn unknown(what: Seq<char>, name: Seq<char>) -> ErrorView {
    error(ErrorKind::Other, "unknown "@ + what + ": "@ + name)
}

fn unknown_error(what: &str, name: &String) -> (e: MatError)
    ensures
        e@ == unknown(what@, name@),
{
    MatError::new(
        ErrorKind::Other,
        "unknown ".to_owned().concat(what).concat(": ").concat(name),
    )
}

fn find_named<T: Copy>(pairs: &Vec<(String, T)>, name: &str) -> (r: Option<T>)
    ensures
        r == named(pairs@, name@),
{
    assert(pairs@.skip(0) =~= pairs@);
    let mut i: usize = 0;
    while i < pairs.len()
        invariant
            i <= pairs.len(),
            named(pairs@, name@) == named(pairs@.skip(i as int), name@),
        decreases pairs.len() - i,
    {
        assert(pairs@.skip(i as int)[0] == pairs@[i as int]);
        assert(pairs@.skip(i as int).skip(1) =~= pairs@.skip(i + 1));
        if text::same(pairs[i].0.as_str(), name) {
            return Some(pairs[i].1);
        }
        i += 1;
    }
    None
}

/// The number of a node.
pub open spec fn node_of(book: AliasBook, node: NodeRef) -> Result<u64, ErrorView> {
    match node {
        NodeRef::Id(n) => Ok(n),
        NodeRef::Alias(a) => match named(book.nodes@, a@) {
            Some(n) => Ok(n),
            None => Err(unknown("node alias"@, a@)),
        },
    }
}

/// The number of a group.
pub open spec fn group_of(book: AliasBook, group: GroupRef) -> Result<u16, ErrorView> {
    match group {
        GroupRef::Id(n) => Ok(n),
        GroupRef::Alias(a) => match named(book.groups@, a@) {
            Some(n) => Ok(n),
            None => Err(unknown("group alias"@, a@)),
        },
    }
}

/// The number of an endpoint of a node.
pub open spec fn endpoint_of(book: AliasBook, node: u64, endpoint: EndpointRef) -> Result<
    u16,
    ErrorView,
> {
    match endpoint {
        EndpointRef::Id(n) => Ok(n),
        EndpointRef::Alias(a) => match named_endpoint(book.endpoints@, node, a@) {
            Some(n) => Ok(n),
            None => Err(unknown("endpoint alias"@, a@)),
        },
    }
}

/// The numbers of a node and of its endpoint; the node's failure comes first.
pub open spec fn place_of(book: AliasBook, node: NodeRef, endpoint: EndpointRef) -> Result<
    (u64, u16),
    ErrorView,
> {
    match node_of(book, node) {
        Err(e) => Err(e),
        Ok(n) => match endpoint_of(book, n, endpoint) {
            Err(e) => Err(e),
            Ok(ep) => Ok((n, ep)),
        },
    }
}

/// The numbers of some nodes in order, or the first failure.
pub open spec fn nodes_of(book: AliasBook, nodes: Seq<NodeRef>) -> Result<Seq<NodeRef>, ErrorView>
    decreases nodes.len(),
{
    if nodes.len() == 0 {
        Ok(Seq::empty())
    } else {
        match (nodes_of(book, nodes.drop_last()), node_of(book, nodes.last())) {
            (Err(e), _) => Err(e),
            (_, Err(e)) => Err(e),
            (Ok(front), Ok(n)) => Ok(front.push(NodeRef::Id(n))),
        }
    }
}

proof fn lemma_first_unknown(book: AliasBook, nodes: Seq<NodeRef>, i: int)
    requires
        0 <= i <= nodes.len(),
        nodes_of(book, nodes.take(i)) is Err,
    ensures
        nodes_of(book, nodes) == nodes_of(book, nodes.take(i)),
    decreases nodes.len() - i,
{
    if i < nodes.len() {
        assert(nodes.take(i + 1).drop_last() =~= nodes.take(i));
        lemma_first_unknown(book, nodes, i + 1);
    } else {
        assert(nodes.take(i) =~= nodes);
    }
}

impl AliasBook {
    /// The number of a node.
    pub fn resolve_node(&self, node: &NodeRef) -> (r: Result<u64, MatError>)
        ensures
            outcome(r) == node_of(*self, *node),
    {
        match node {
            NodeRef::Id(n) => Ok(*n),
            NodeRef::Alias(a) => match find_named(&self.nodes, a.as_str()) {
                Some(n) => Ok(n),
                None => Err(unknown_error("node alias", a)),
            },
        }
    }

    /// The number of a group.
    pub fn resolve_group(&self, group: &GroupRef) -> (r: Result<u16, MatError>)
        ensures
            outcome(r) == group_of(*self, *group),
    {
        match group {
            GroupRef::Id(n) => Ok(*n),
            GroupRef::Alias(a) => match find_named(&self.groups, a.as_str()) {
                Some(n) => Ok(n),
                None => Err(unknown_error("group alias", a)),
            },
        }
    }

    /// The number of an endpoint of a node.
    pub fn resolve_endpoint(&self, node: u64, endpoint: &EndpointRef) -> (r: Result<u16, MatError>)
        ensures
            outcome(r) == endpoint_of(*self, node, *endpoint),
    {
        let a = match endpoint {
            EndpointRef::Id(n) => {
                return Ok(*n);
            },
            EndpointRef::Alias(a) => a,
        };
        let rows = &self.endpoints;
        assert(rows@.skip(0) =~= rows@);
        let mut i: usize = 0;
        while i < rows.len()
            invariant
                i <= rows.len(),
                rows == self.endpoints,
                endpoint matches EndpointRef::Alias(b) && b == a,
                named_endpoint(rows@, node, a@) == named_endpoint(
                    rows@.skip(i as int),
                    node,
                    a@,
                ),
            decreases rows.len() - i,
        {
            assert(rows@.skip(i as int)[0] == rows@[i as int]);
            assert(rows@.skip(i as int).skip(1) =~= rows@.skip(i + 1));
            if rows[i].0 == node && text::same(rows[i].1.as_str(), a.as_str()) {
                return Ok(rows[i].2);
            }
            i += 1;
        }
        Err(unknown_error("endpoint alias", a))
    }

    fn resolve_place(&self, node: &NodeRef, endpoint: &EndpointRef) -> (r: Result<
        (u64, u16),
        MatError,
    >)
        ensures
            outcome(r) == place_of(*self, *node, *endpoint),
    {
        match self.resolve_node(node) {
            Err(e) => Err(e),
            Ok(n) => match self.resolve_endpoint(n, endpoint) {
                Err(e) => Err(e),
                Ok(ep) => Ok((n, ep)),
            },
        }
    }

    fn resolve_nodes(&self, nodes: &Vec<NodeRef>) -> (r: Result<Vec<NodeRef>, MatError>)
        ensures
            r matches Ok(v) ==> nodes_of(*self, nodes@) == Ok::<Seq<NodeRef>, ErrorView>(v@),
            r matches Err(e) ==> nodes_of(*self, nodes@) == Err::<Seq<NodeRef>, ErrorView>(e@),
    {
        let mut v: Vec<NodeRef> = Vec::new();
        let mut i: usize = 0;
        while i < nodes.len()
            invariant
                i <= nodes.len(),
                nodes_of(*self, nodes@.take(i as int)) == Ok::<Seq<NodeRef>, ErrorView>(v@),
            decreases nodes.len() - i,
        {
            assert(nodes@.take(i + 1).drop_last() =~= nodes@.take(i as int));
            match self.resolve_node(&nodes[i]) {
                Ok(n) => {
                    v.push(NodeRef::Id(n));
                },
                Err(e) => {
                    proof {
                        lemma_first_unknown(*self, nodes@, i + 1);
                    }
                    return Err(e);
                },
            }
            i += 1;
        }
        assert(nodes@.take(i as int) =~= nodes@);
        Ok(v)
    }
}

/// The spelling of an RGB value.
pub open spec fn hex_rgb(rgb: (u8, u8, u8)) -> Seq<char> {
    "#"@ + text::hex2(rgb.0) + text::hex2(rgb.1) + text::hex2(rgb.2)
}

/// Spells an RGB value.
pub fn hex_string(rgb: (u8, u8, u8)) -> (s: String)
    ensures
        s@ == hex_rgb(rgb),
{
    "#".to_owned().concat(&text::hex_byte(rgb.0)).concat(&text::hex_byte(rgb.1)).concat(
        &text::hex_byte(rgb.2),
    )
}

/// Whether a color keeps its name, and has this RGB and nothing else.
pub open spec fn is_rgb(spec: ColorSpecArgs, name: Option<String>, rgb: (u8, u8, u8)) -> bool {
    spec.name == name && (spec.rgb matches Some(s) && s@ == hex_rgb(rgb)) && spec.hue is None
        && spec.sat is None
}

/// What a color resolves to: a name's RGB, the RGB that a text parsed to, or
/// hue and saturation as they are.
pub open spec fn color_resolves(
    book: AliasBook,
    parsed: Result<(u8, u8, u8), String>,
    spec: ColorSpecArgs,
    r: Result<ColorSpecArgs, ErrorView>,
) -> bool {
    match (spec.name, spec.rgb) {
        (Some(name), _) => match named(book.colors@, name@) {
            Some(rgb) => r matches Ok(s) && is_rgb(s, spec.name, rgb),
            None => r == Err::<ColorSpecArgs, ErrorView>(unknown("color name"@, name@)),
        },
        (None, Some(_)) => match parsed {
            Ok(rgb) => r matches Ok(s) && is_rgb(s, None, rgb),
            Err(detail) => r == Err::<ColorSpecArgs, ErrorView>(error(ErrorKind::Other, detail@)),
        },
        (None, None) => r == Ok::<ColorSpecArgs, ErrorView>(spec),
    }
}

/// Resolves a color. `parsed` is what the RGB text parses to, where there is
/// one.
pub fn resolve_color_spec(
    book: &AliasBook,
    parsed: Result<(u8, u8, u8), String>,
    spec: ColorSpecArgs,
) -> (r: Result<ColorSpecArgs, MatError>)
    ensures
        color_resolves(*book, parsed, spec, outcome(r)),
{
    match &spec.name {
        Some(name) => {
            return match find_named(&book.colors, name.as_str()) {
                Some(rgb) => Ok(
                    ColorSpecArgs {
                        name: Some(name.clone()),
                        rgb: Some(hex_string(rgb)),
                        hue: None,
                        sat: None,
                    },
                ),
                None => Err(unknown_error("color name", name)),
            };
        },
        None => {},
    }
    match &spec.rgb {
        Some(_) => match parsed {
            Ok(rgb) => Ok(
                ColorSpecArgs { name: None, rgb: Some(hex_string(rgb)), hue: None, sat: None },
            ),
            Err(detail) => Err(MatError::new(ErrorKind::Other, detail)),
        },
        None => Ok(spec),
    }
}

/// Whether a step fails with an error.
pub open spec fn fails<T>(r: Result<T, MatError>, e: ErrorView) -> bool {
    r matches Err(f) && f@ == e
}

/// Whether a step gives a value.
pub open spec fn gives<T>(r: Result<T, MatError>, v: T) -> bool {
    r == Ok::<T, MatError>(v)
}

/// What a group command resolves to.
pub open spec fn group_resolves(
    book: AliasBook,
    parsed: Result<(u8, u8, u8), String>,
    c: GroupCommand,
    r: Result<GroupCommand, MatError>,
) -> bool {
    match c {
        GroupCommand::Provision {
            group_id,
            node_ids,
            keyset_id,
            name,
            endpoint,
            epoch_key,
            rebind,
        } => match (group_of(book, group_id), nodes_of(book, node_ids@)) {
            (Err(e), _) => fails(r, e),
            (_, Err(e)) => fails(r, e),
            (Ok(g), Ok(ns)) => r matches Ok(GroupCommand::Provision {
                group_id: g2,
                node_ids: ns2,
                keyset_id: k2,
                name: name2,
                endpoint: ep2,
                epoch_key: key2,
                rebind: rebind2,
            }) && g2 == GroupRef::Id(g) && ns2@ == ns && k2 == keyset_id && name2 == name && ep2
                == endpoint && key2 == epoch_key && rebind2 == rebind,
        },
        GroupCommand::Grant { group_id, node_ids } => match (
            group_of(book, group_id),
            nodes_of(book, node_ids@),
        ) {
            (Err(e), _) => fails(r, e),
            (_, Err(e)) => fails(r, e),
            (Ok(g), Ok(ns)) => r matches Ok(GroupCommand::Grant { group_id: g2, node_ids: ns2 })
                && g2 == GroupRef::Id(g) && ns2@ == ns,
        },
        GroupCommand::Invoke { group_id, cluster, command, args, endpoint } => match group_of(
            book,
            group_id,
        ) {
            Err(e) => fails(r, e),
            Ok(g) => gives(
                r,
                GroupCommand::Invoke {
                    group_id: GroupRef::Id(g),
                    cluster,
                    command,
                    args,
                    endpoint,
                },
            ),
        },
        GroupCommand::ColorTemp {
            group_id,
            kelvin,
            mireds,
            transition,
            endpoint,
        } => match group_of(book, group_id) {
            Err(e) => fails(r, e),
            Ok(g) => gives(
                r,
                GroupCommand::ColorTemp {
                    group_id: GroupRef::Id(g),
                    kelvin,
                    mireds,
                    transition,
                    endpoint,
                },
            ),
        },
        GroupCommand::Level { group_id, percent, transition, endpoint } => match group_of(
            book,
            group_id,
        ) {
            Err(e) => fails(r, e),
            Ok(g) => gives(
                r,
                GroupCommand::Level { group_id: GroupRef::Id(g), percent, transition, endpoint },
            ),
        },
        GroupCommand::Color { group_id, spec, transition, endpoint } => match group_of(
            book,
            group_id,
        ) {
            Err(e) => fails(r, e),
            Ok(g) => match r {
                Err(e) => color_resolves(book, parsed, spec, Err(e@)),
                Ok(c2) => c2 matches GroupCommand::Color {
                    group_id: g2,
                    spec: spec2,
                    transition: t2,
                    endpoint: ep2,
                } && color_resolves(book, parsed, spec, Ok(spec2)) && g2 == GroupRef::Id(g) && t2
                    == transition && ep2 == endpoint,
            },
        },
        GroupCommand::Bump => gives(r, GroupCommand::Bump),
    }
}

/// What a diagnosis resolves to.
pub open spec fn diag_resolves(book: AliasBook, c: DiagCommand, r: Result<DiagCommand, MatError>) -> bool {
    match c {
        DiagCommand::Thread { node_id, endpoint } => match place_of(book, node_id, endpoint) {
            Err(e) => fails(r, e),
            Ok(p) => gives(
                r,
                DiagCommand::Thread {
                    node_id: NodeRef::Id(p.0),
                    endpoint: EndpointRef::Id(p.1),
                },
            ),
        },
        DiagCommand::Node { node_id, endpoint, deep } => match place_of(book, node_id, endpoint) {
            Err(e) => fails(r, e),
            Ok(p) => gives(
                r,
                DiagCommand::Node {
                    node_id: NodeRef::Id(p.0),
                    endpoint: EndpointRef::Id(p.1),
                    deep,
                },
            ),
        },
        DiagCommand::Mesh { nodes } => match nodes_of(book, nodes@) {
            Err(e) => fails(r, e),
            Ok(ns) => r matches Ok(DiagCommand::Mesh { nodes: ns2 }) && ns2@ == ns,
        },
    }
}

/// The filter of a listener: the numbers of its node and of its endpoint. An
/// alias of an endpoint needs a node.
pub open spec fn filter_of(
    book: AliasBook,
    node: Option<NodeRef>,
    endpoint: Option<EndpointRef>,
) -> Result<(Option<NodeRef>, Option<EndpointRef>), ErrorView> {
    match (node, endpoint) {
        (None, None) => Ok((None, None)),
        (Some(n), None) => match node_of(book, n) {
            Err(e) => Err(e),
            Ok(n) => Ok((Some(NodeRef::Id(n)), None)),
        },
        (Some(n), Some(ep)) => match place_of(book, n, ep) {
            Err(e) => Err(e),
            Ok(p) => Ok((Some(NodeRef::Id(p.0)), Some(EndpointRef::Id(p.1)))),
        },
        (None, Some(EndpointRef::Id(n))) => Ok((None, Some(EndpointRef::Id(n)))),
        (None, Some(EndpointRef::Alias(a))) => Err(unknown("endpoint alias"@, a@)),
    }
}

/// What a command resolves to. A name for a new node is checked before anything
/// else happens.
pub open spec fn resolves(
    book: AliasBook,
    new_alias: Result<(), MatError>,
    parsed: Result<(u8, u8, u8), String>,
    c: Command,
    r: Result<Command, MatError>,
) -> bool {
    match c {
        Command::Discover { .. } => gives(r, c),
        Command::Fabric { .. } => gives(r, c),
        Command::Commission { alias, .. } => match (alias, new_alias) {
            (Some(_), Err(e)) => fails(r, e@),
            _ => gives(r, c),
        },
        Command::Read { node_id, endpoint, cluster, attribute } => match place_of(book, node_id, endpoint) {
            Err(e) => fails(r, e),
            Ok(p) => gives(
                r,
                Command::Read {
                    node_id: NodeRef::Id(p.0),
                    endpoint: EndpointRef::Id(p.1),
                    cluster,
                    attribute,
                },
            ),
        },
        Command::Write { node_id, endpoint, cluster, attribute, value } => match place_of(book, node_id, endpoint) {
            Err(e) => fails(r, e),
            Ok(p) => gives(
                r,
                Command::Write {
                    node_id: NodeRef::Id(p.0),
                    endpoint: EndpointRef::Id(p.1),
                    cluster,
                    attribute,
                    value,
                },
            ),
        },
        Command::Invoke { node_id, endpoint, cluster, command, args } => match place_of(book, node_id, endpoint) {
            Err(e) => fails(r, e),
            Ok(p) => gives(
                r,
                Command::Invoke {
                    node_id: NodeRef::Id(p.0),
                    endpoint: EndpointRef::Id(p.1),
                    cluster,
                    command,
                    args,
                },
            ),
        },
        Command::On { node_id, endpoint } => match place_of(book, node_id, endpoint) {
            Err(e) => fails(r, e),
            Ok(p) => gives(
                r,
                Command::On {
                    node_id: NodeRef::Id(p.0),
                    endpoint: EndpointRef::Id(p.1),
                },
            ),
        },
        Command::Off { node_id, endpoint } => match place_of(book, node_id, endpoint) {
            Err(e) => fails(r, e),
            Ok(p) => gives(
                r,
                Command::Off {
                    node_id: NodeRef::Id(p.0),
                    endpoint: EndpointRef::Id(p.1),
                },
            ),
        },
        Command::ColorTemp { node_id, endpoint, kelvin, mireds, transition } => match place_of(book, node_id, endpoint) {
            Err(e) => fails(r, e),
            Ok(p) => gives(
                r,
                Command::ColorTemp {
                    node_id: NodeRef::Id(p.0),
                    endpoint: EndpointRef::Id(p.1),
                    kelvin,
                    mireds,
                    transition,
                },
            ),
        },
        Command::Level { node_id, endpoint, percent, transition } => match place_of(book, node_id, endpoint) {
            Err(e) => fails(r, e),
            Ok(p) => gives(
                r,
                Command::Level {
                    node_id: NodeRef::Id(p.0),
                    endpoint: EndpointRef::Id(p.1),
                    percent,
                    transition,
                },
            ),
        },
        Command::Describe { node_id } => match node_of(book, node_id) {
            Err(e) => fails(r, e),
            Ok(n) => gives(r, Command::Describe { node_id: NodeRef::Id(n) }),
        },
        Command::Color { node_id, endpoint, spec, transition } => match place_of(
            book,
            node_id,
            endpoint,
        ) {
            Err(e) => fails(r, e),
            Ok(p) => match r {
                Err(e) => color_resolves(book, parsed, spec, Err(e@)),
                Ok(c2) => c2 matches Command::Color {
                    node_id: n2,
                    endpoint: ep2,
                    spec: spec2,
                    transition: t2,
                } && color_resolves(book, parsed, spec, Ok(spec2)) && n2 == NodeRef::Id(p.0) && ep2
                    == EndpointRef::Id(p.1) && t2 == transition,
            },
        },
        Command::OpenWindow { node_id, timeout, iteration, discriminator } => match node_of(
            book,
            node_id,
        ) {
            Err(e) => fails(r, e),
            Ok(n) => gives(
                r,
                Command::OpenWindow {
                    node_id: NodeRef::Id(n),
                    timeout,
                    iteration,
                    discriminator,
                },
            ),
        },
        Command::Group { action } => match r {
            Err(e) => group_resolves(book, parsed, action, Err(e)),
            Ok(c2) => c2 matches Command::Group { action: a2 } && group_resolves(
                book,
                parsed,
                action,
                Ok(a2),
            ),
        },
        Command::Diag { action } => match r {
            Err(e) => diag_resolves(book, action, Err(e)),
            Ok(c2) => c2 matches Command::Diag { action: a2 } && diag_resolves(
                book,
                action,
                Ok(a2),
            ),
        },
        Command::Listen {
            node_id,
            endpoint,
            cluster,
            attribute,
            event,
            count,
            timeout_ms,
            reconnect,
        } => match filter_of(book, node_id, endpoint) {
            Err(e) => fails(r, e),
            Ok(f) => gives(
                r,
                Command::Listen {
                    node_id: f.0,
                    endpoint: f.1,
                    cluster,
                    attribute,
                    event,
                    count,
                    timeout_ms,
                    reconnect,
                },
            ),
        },
    }
}

fn resolve_group_command(
    book: &AliasBook,
    parsed: Result<(u8, u8, u8), String>,
    c: GroupCommand,
) -> (r: Result<GroupCommand, MatError>)
    ensures
        group_resolves(*book, parsed, c, r),
{
    match c {
        GroupCommand::Provision {
            group_id,
            node_ids,
            keyset_id,
            name,
            endpoint,
            epoch_key,
            rebind,
        } => {
            let g: u16 = match book.resolve_group(&group_id) {
                Err(e) => {
                    return Err(e);
                },
                Ok(g) => g,
            };
            match book.resolve_nodes(&node_ids) {
                Err(e) => Err(e),
                Ok(ns) => Ok(
                    GroupCommand::Provision {
                        group_id: GroupRef::Id(g),
                        node_ids: ns,
                        keyset_id,
                        name,
                        endpoint,
                        epoch_key,
                        rebind,
                    },
                ),
            }
        },
        GroupCommand::Grant { group_id, node_ids } => {
            let g: u16 = match book.resolve_group(&group_id) {
                Err(e) => {
                    return Err(e);
                },
                Ok(g) => g,
            };
            match book.resolve_nodes(&node_ids) {
                Err(e) => Err(e),
                Ok(ns) => Ok(GroupCommand::Grant { group_id: GroupRef::Id(g), node_ids: ns }),
            }
        },
        GroupCommand::Invoke { group_id, cluster, command, args, endpoint } => match book.resolve_group(
            &group_id,
        ) {
            Err(e) => Err(e),
            Ok(g) => Ok(
                GroupCommand::Invoke {
                    group_id: GroupRef::Id(g),
                    cluster,
                    command,
                    args,
                    endpoint,
                },
            ),
        },
        GroupCommand::ColorTemp {
            group_id,
            kelvin,
            mireds,
            transition,
            endpoint,
        } => match book.resolve_group(&group_id) {
            Err(e) => Err(e),
            Ok(g) => Ok(
                GroupCommand::ColorTemp {
                    group_id: GroupRef::Id(g),
                    kelvin,
                    mireds,
                    transition,
                    endpoint,
                },
            ),
        },
        GroupCommand::Level { group_id, percent, transition, endpoint } => match book.resolve_group(
            &group_id,
        ) {
            Err(e) => Err(e),
            Ok(g) => Ok(
                GroupCommand::Level { group_id: GroupRef::Id(g), percent, transition, endpoint },
            ),
        },
        GroupCommand::Color { group_id, spec, transition, endpoint } => match book.resolve_group(
            &group_id,
        ) {
            Err(e) => Err(e),
            Ok(g) => match resolve_color_spec(book, parsed, spec) {
                Err(e) => Err(e),
                Ok(spec) => Ok(
                    GroupCommand::Color { group_id: GroupRef::Id(g), spec, transition, endpoint },
                ),
            },
        },
        GroupCommand::Bump => Ok(GroupCommand::Bump),
    }
}

fn resolve_diag_command(book: &AliasBook, c: DiagCommand) -> (r: Result<DiagCommand, MatError>)
    ensures
        diag_resolves(*book, c, r),
{
    match c {
        DiagCommand::Thread { node_id, endpoint } => match book.resolve_place(&node_id, &endpoint) {
            Err(e) => Err(e),
            Ok(p) => Ok(
                DiagCommand::Thread {
                    node_id: NodeRef::Id(p.0),
                    endpoint: EndpointRef::Id(p.1),
                },
            ),
        },
        DiagCommand::Node { node_id, endpoint, deep } => match book.resolve_place(
            &node_id,
            &endpoint,
        ) {
            Err(e) => Err(e),
            Ok(p) => Ok(
                DiagCommand::Node {
                    node_id: NodeRef::Id(p.0),
                    endpoint: EndpointRef::Id(p.1),
                    deep,
                },
            ),
        },
        DiagCommand::Mesh { nodes } => match book.resolve_nodes(&nodes) {
            Err(e) => Err(e),
            Ok(ns) => Ok(DiagCommand::Mesh { nodes: ns }),
        },
    }
}

fn resolve_filter(book: &AliasBook, node: Option<NodeRef>, endpoint: Option<EndpointRef>) -> (r:
    Result<(Option<NodeRef>, Option<EndpointRef>), MatError>)
    ensures
        outcome(r) == filter_of(*book, node, endpoint),
{
    match (node, endpoint) {
        (None, None) => Ok((None, None)),
        (Some(n), None) => match book.resolve_node(&n) {
            Err(e) => Err(e),
            Ok(n) => Ok((Some(NodeRef::Id(n)), None)),
        },
        (Some(n), Some(ep)) => match book.resolve_place(&n, &ep) {
            Err(e) => Err(e),
            Ok(p) => Ok((Some(NodeRef::Id(p.0)), Some(EndpointRef::Id(p.1)))),
        },
        (None, Some(EndpointRef::Id(n))) => Ok((None, Some(EndpointRef::Id(n)))),
        (None, Some(EndpointRef::Alias(a))) => Err(unknown_error("endpoint alias", &a)),
    }
}

/// Resolves the aliases of a command. `new_alias` is the verdict on the name of
/// a node to be commissioned, where there is one; `parsed` is what the RGB text
/// parses to, where there is one.
pub fn resolve_command(
    command: Command,
    book: &AliasBook,
    new_alias: Result<(), MatError>,
    parsed: Result<(u8, u8, u8), String>,
) -> (r: Result<Command, MatError>)
    ensures
        resolves(*book, new_alias, parsed, command, r),
{
    match command {
        Command::Discover { probe } => Ok(Command::Discover { probe }),
        Command::Fabric { action } => Ok(Command::Fabric { action }),
        Command::Commission {
            target,
            setup_code,
            node_id,
            alias,
            thread_dataset,
            transport,
        } => {
            if alias.is_some() {
                if let Err(e) = new_alias {
                    return Err(e);
                }
            }
            Ok(
                Command::Commission {
                    target,
                    setup_code,
                    node_id,
                    alias,
                    thread_dataset,
                    transport,
                },
            )
        },
        Command::Read { node_id, endpoint, cluster, attribute } => match book.resolve_place(&node_id, &endpoint) {
            Err(e) => Err(e),
            Ok(p) => Ok(
                Command::Read {
                    node_id: NodeRef::Id(p.0),
                    endpoint: EndpointRef::Id(p.1),
                    cluster,
                    attribute,
                },
            ),
        },
        Command::Write { node_id, endpoint, cluster, attribute, value } => match book.resolve_place(&node_id, &endpoint) {
            Err(e) => Err(e),
            Ok(p) => Ok(
                Command::Write {
                    node_id: NodeRef::Id(p.0),
                    endpoint: EndpointRef::Id(p.1),
                    cluster,
                    attribute,
                    value,
                },
            ),
        },
        Command::Invoke { node_id, endpoint, cluster, command, args } => match book.resolve_place(&node_id, &endpoint) {
            Err(e) => Err(e),
            Ok(p) => Ok(
                Command::Invoke {
                    node_id: NodeRef::Id(p.0),
                    endpoint: EndpointRef::Id(p.1),
                    cluster,
                    command,
                    args,
                },
            ),
        },
        Command::On { node_id, endpoint } => match book.resolve_place(&node_id, &endpoint) {
            Err(e) => Err(e),
            Ok(p) => Ok(
                Command::On {
                    node_id: NodeRef::Id(p.0),
                    endpoint: EndpointRef::Id(p.1),
                },
            ),
        },
        Command::Off { node_id, endpoint } => match book.resolve_place(&node_id, &endpoint) {
            Err(e) => Err(e),
            Ok(p) => Ok(
                Command::Off {
                    node_id: NodeRef::Id(p.0),
                    endpoint: EndpointRef::Id(p.1),
                },
            ),
        },
        Command::ColorTemp { node_id, endpoint, kelvin, mireds, transition } => match book.resolve_place(&node_id, &endpoint) {
            Err(e) => Err(e),
            Ok(p) => Ok(
                Command::ColorTemp {
                    node_id: NodeRef::Id(p.0),
                    endpoint: EndpointRef::Id(p.1),
                    kelvin,
                    mireds,
                    transition,
                },
            ),
        },
        Command::Level { node_id, endpoint, percent, transition } => match book.resolve_place(&node_id, &endpoint) {
            Err(e) => Err(e),
            Ok(p) => Ok(
                Command::Level {
                    node_id: NodeRef::Id(p.0),
                    endpoint: EndpointRef::Id(p.1),
                    percent,
                    transition,
                },
            ),
        },
        Command::Describe { node_id } => match book.resolve_node(&node_id) {
            Err(e) => Err(e),
            Ok(n) => Ok(Command::Describe { node_id: NodeRef::Id(n) }),
        },
        Command::Color { node_id, endpoint, spec, transition } => match book.resolve_place(
            &node_id,
            &endpoint,
        ) {
            Err(e) => Err(e),
            Ok(p) => match resolve_color_spec(book, parsed, spec) {
                Err(e) => Err(e),
                Ok(spec) => Ok(
                    Command::Color {
                        node_id: NodeRef::Id(p.0),
                        endpoint: EndpointRef::Id(p.1),
                        spec,
                        transition,
                    },
                ),
            },
        },
        Command::OpenWindow { node_id, timeout, iteration, discriminator } => match book.resolve_node(
            &node_id,
        ) {
            Err(e) => Err(e),
            Ok(n) => Ok(
                Command::OpenWindow {
                    node_id: NodeRef::Id(n),
                    timeout,
                    iteration,
                    discriminator,
                },
            ),
        },
        Command::Group { action } => match resolve_group_command(book, parsed, action) {
            Err(e) => Err(e),
            Ok(action) => Ok(Command::Group { action }),
        },
        Command::Diag { action } => match resolve_diag_command(book, action) {
            Err(e) => Err(e),
            Ok(action) => Ok(Command::Diag { action }),
        },
        Command::Listen {
            node_id,
            endpoint,
            cluster,
            attribute,
            event,
            count,
            timeout_ms,
            reconnect,
        } => match resolve_filter(book, node_id, endpoint) {
            Err(e) => Err(e),
            Ok(f) => Ok(
                Command::Listen {
                    node_id: f.0,
                    endpoint: f.1,
                    cluster,
                    attribute,
                    event,
                    count,
                    timeout_ms,
                    reconnect,
                },
            ),
        },
    }
}

/// Whether a list holds numbers only.
pub open spec fn all_numbers(nodes: Seq<NodeRef>) -> bool {
    forall|i: int| 0 <= i < nodes.len() ==> (#[trigger] nodes[i]) is Id
}

/// Whether a command holds numbers only.
pub open spec fn is_resolved(c: Command) -> bool {
    match c {
        Command::Discover { .. } => true,
        Command::Fabric { .. } => true,
        Command::Commission { .. } => true,
        Command::Read { node_id, endpoint, .. } => node_id is Id && endpoint is Id,
        Command::Write { node_id, endpoint, .. } => node_id is Id && endpoint is Id,
        Command::Invoke { node_id, endpoint, .. } => node_id is Id && endpoint is Id,
        Command::Describe { node_id } => node_id is Id,
        Command::On { node_id, endpoint } => node_id is Id && endpoint is Id,
        Command::Off { node_id, endpoint } => node_id is Id && endpoint is Id,
        Command::ColorTemp { node_id, endpoint, .. } => node_id is Id && endpoint is Id,
        Command::Level { node_id, endpoint, .. } => node_id is Id && endpoint is Id,
        Command::Color { node_id, endpoint, .. } => node_id is Id && endpoint is Id,
        Command::OpenWindow { node_id, .. } => node_id is Id,
        Command::Group { action } => match action {
            GroupCommand::Provision { group_id, node_ids, .. } => group_id is Id && all_numbers(
                node_ids@,
            ),
            GroupCommand::Grant { group_id, node_ids } => group_id is Id && all_numbers(node_ids@),
            GroupCommand::Invoke { group_id, .. } => group_id is Id,
            GroupCommand::ColorTemp { group_id, .. } => group_id is Id,
            GroupCommand::Level { group_id, .. } => group_id is Id,
            GroupCommand::Color { group_id, .. } => group_id is Id,
            GroupCommand::Bump => true,
        },
        Command::Diag { action } => match action {
            DiagCommand::Thread { node_id, endpoint } => node_id is Id && endpoint is Id,
            DiagCommand::Node { node_id, endpoint, .. } => node_id is Id && endpoint is Id,
            DiagCommand::Mesh { nodes } => all_numbers(nodes@),
        },
        Command::Listen { node_id, endpoint, .. } => (node_id matches Some(n) ==> n is Id) && (
        endpoint matches Some(ep) ==> ep is Id),
    }
}

proof fn lemma_nodes_are_numbers(book: AliasBook, nodes: Seq<NodeRef>)
    ensures
        nodes_of(book, nodes) matches Ok(ns) ==> all_numbers(ns) && ns.len() == nodes.len(),
    decreases nodes.len(),
{
    if nodes.len() > 0 {
        lemma_nodes_are_numbers(book, nodes.drop_last());
    }
}

/// A command that was resolved holds numbers only.
#[verifier::rlimit(40)]
pub proof fn law_no_alias_is_left(
    book: AliasBook,
    new_alias: Result<(), MatError>,
    parsed: Result<(u8, u8, u8), String>,
    c: Command,
    r: Result<Command, MatError>,
)
    requires
        resolves(book, new_alias, parsed, c, r),
    ensures
        r matches Ok(c2) ==> is_resolved(c2),
{
    match c {
        Command::Group { action } => match action {
            GroupCommand::Provision { node_ids, .. } => {
                lemma_nodes_are_numbers(book, node_ids@);
            },
            GroupCommand::Grant { node_ids, .. } => {
                lemma_nodes_are_numbers(book, node_ids@);
            },
            _ => {},
        },
        Command::Diag { action: DiagCommand::Mesh { nodes } } => {
            lemma_nodes_are_numbers(book, nodes@);
        },
        _ => {},
    }
}

proof fn lemma_numbers_stay(book: AliasBook, nodes: Seq<NodeRef>)
    requires
        all_numbers(nodes),
    ensures
        nodes_of(book, nodes) == Ok::<Seq<NodeRef>, ErrorView>(nodes),
    decreases nodes.len(),
{
    if nodes.len() > 0 {
        let front = nodes.drop_last();
        assert(all_numbers(front)) by {
            assert forall|i: int| 0 <= i < front.len() implies (#[trigger] front[i]) is Id by {
                assert(front[i] == nodes[i]);
            }
        }
        lemma_numbers_stay(book, front);
        assert(nodes[nodes.len() - 1] is Id);
        assert(front.push(nodes.last()) =~= nodes);
    } else {
        assert(nodes =~= Seq::empty());
    }
}

/// Numbers pass through whatever aliases are known: a list of numbers stays as
/// it is, and so does the place that numbers name.
pub proof fn law_numbers_pass_through(
    book: AliasBook,
    nodes: Seq<NodeRef>,
    node: u64,
    endpoint: u16,
    group: u16,
)
    requires
        all_numbers(nodes),
    ensures
        nodes_of(book, nodes) == Ok::<Seq<NodeRef>, ErrorView>(nodes),
        place_of(book, NodeRef::Id(node), EndpointRef::Id(endpoint)) == Ok::<
            (u64, u16),
            ErrorView,
        >((node, endpoint)),
        group_of(book, GroupRef::Id(group)) == Ok::<u16, ErrorView>(group),
{
    lemma_numbers_stay(book, nodes);
}

/// Whether two colors are the same, an RGB text by its characters.
pub open spec fn same_color(a: ColorSpecArgs, b: ColorSpecArgs) -> bool {
    a.name == b.name && a.hue == b.hue && a.sat == b.sat && match (a.rgb, b.rgb) {
        (Some(x), Some(y)) => x@ == y@,
        (None, None) => true,
        _ => false,
    }
}

/// Whether two group commands are the same, a list by its items.
pub open spec fn same_group_command(a: GroupCommand, b: GroupCommand) -> bool {
    match (a, b) {
        (
            GroupCommand::Provision {
                group_id,
                node_ids,
                keyset_id,
                name,
                endpoint,
                epoch_key,
                rebind,
            },
            GroupCommand::Provision {
                group_id: g2,
                node_ids: ns2,
                keyset_id: k2,
                name: name2,
                endpoint: ep2,
                epoch_key: key2,
                rebind: rebind2,
            },
        ) => group_id == g2 && node_ids@ == ns2@ && keyset_id == k2 && name == name2 && endpoint
            == ep2 && epoch_key == key2 && rebind == rebind2,
        (
            GroupCommand::Grant { group_id, node_ids },
            GroupCommand::Grant { group_id: g2, node_ids: ns2 },
        ) => group_id == g2 && node_ids@ == ns2@,
        (
            GroupCommand::Color { group_id, spec, transition, endpoint },
            GroupCommand::Color { group_id: g2, spec: spec2, transition: t2, endpoint: ep2 },
        ) => group_id == g2 && same_color(spec, spec2) && transition == t2 && endpoint == ep2,
        _ => a == b,
    }
}

/// Whether two commands are the same, a list by its items and an RGB text by
/// its characters.
pub open spec fn same_command(a: Command, b: Command) -> bool {
    match (a, b) {
        (
            Command::Color { node_id, endpoint, spec, transition },
            Command::Color { node_id: n2, endpoint: ep2, spec: spec2, transition: t2 },
        ) => node_id == n2 && endpoint == ep2 && same_color(spec, spec2) && transition == t2,
        (Command::Group { action }, Command::Group { action: a2 }) => same_group_command(
            action,
            a2,
        ),
        (
            Command::Diag { action: DiagCommand::Mesh { nodes } },
            Command::Diag { action: DiagCommand::Mesh { nodes: ns2 } },
        ) => nodes@ == ns2@,
        _ => a == b,
    }
}

/// The RGB text of a command whose color has no name.
pub open spec fn rgb_text(c: Command) -> Option<Seq<char>> {
    let spec = match c {
        Command::Color { spec, .. } => Some(spec),
        Command::Group { action: GroupCommand::Color { spec, .. } } => Some(spec),
        _ => None,
    };
    match spec {
        Some(ColorSpecArgs { name: None, rgb: Some(s), .. }) => Some(s@),
        _ => None,
    }
}

/// Resolving a command that was resolved gives it back, while the aliases stay
/// as they are and the spelling of an RGB value reads back as that value.
pub proof fn law_resolving_again_changes_nothing(
    book: AliasBook,
    new_alias: Result<(), MatError>,
    parsed: Result<(u8, u8, u8), String>,
    c: Command,
    resolved: Command,
    read_back: Result<(u8, u8, u8), String>,
    again: Result<Command, MatError>,
)
    requires
        resolves(book, new_alias, parsed, c, Ok(resolved)),
        rgb_text(resolved) matches Some(s) ==> (read_back matches Ok(rgb) && hex_rgb(rgb) == s),
        resolves(book, new_alias, read_back, resolved, again),
    ensures
        again matches Ok(r) && same_command(r, resolved),
{
    law_no_alias_is_left(book, new_alias, parsed, c, Ok(resolved));
    match resolved {
        Command::Group { action } => match action {
            GroupCommand::Provision { node_ids, .. } => {
                lemma_numbers_stay(book, node_ids@);
            },
            GroupCommand::Grant { node_ids, .. } => {
                lemma_numbers_stay(book, node_ids@);
            },
            _ => {},
        },
        Command::Diag { action: DiagCommand::Mesh { nodes } } => {
            lemma_numbers_stay(book, nodes@);
        },
        _ => {},
    }
}

/// A name stands for the first entry of the book that has it, and for nothing
/// where none has.
pub proof fn law_first_entry_counts<T>(pairs: Seq<(String, T)>, name: Seq<char>, i: int)
    requires
        0 <= i <= pairs.len(),
        forall|k: int| 0 <= k < i ==> (#[trigger] pairs[k]).0@ != name,
        i < pairs.len() ==> pairs[i].0@ == name,
    ensures
        i < pairs.len() ==> named(pairs, name) == Some(pairs[i].1),
        i == pairs.len() ==> named(pairs, name) is None,
    decreases i,
{
    if i > 0 {
        let rest = pairs.skip(1);
        assert(pairs[0].0@ != name);
        assert forall|k: int| 0 <= k < i - 1 implies (#[trigger] rest[k]).0@ != name by {
            assert(rest[k] == pairs[k + 1]);
        }
        if i < pairs.len() {
            assert(rest[i - 1] == pairs[i]);
        }
        law_first_entry_counts(rest, name, i - 1);
    }
}

/// The name of an endpoint stands for the first entry of its node that has it:
/// the same name at another node is another endpoint.
pub proof fn law_endpoint_names_belong_to_their_node(
    rows: Seq<(u64, String, u16)>,
    node: u64,
    name: Seq<char>,
    i: int,
)
    requires
        0 <= i <= rows.len(),
        forall|k: int| 0 <= k < i ==> (#[trigger] rows[k]).0 != node || rows[k].1@ != name,
        i < rows.len() ==> rows[i].0 == node && rows[i].1@ == name,
    ensures
        i < rows.len() ==> named_endpoint(rows, node, name) == Some(rows[i].2),
        i == rows.len() ==> named_endpoint(rows, node, name) is None,
    decreases i,
{
    if i > 0 {
        let rest = rows.skip(1);
        assert(rows[0].0 != node || rows[0].1@ != name);
        assert forall|k: int| 0 <= k < i - 1 implies (#[trigger] rest[k]).0 != node || rest[k].1@
            != name by {
            assert(rest[k] == rows[k + 1]);
        }
        if i < rows.len() {
            assert(rest[i - 1] == rows[i]);
        }
        law_endpoint_names_belong_to_their_node(rest, node, name, i - 1);
    }
}

/// A name is looked up in its own part of the book, and a name that is not there
/// is an error.
pub proof fn law_names_are_looked_up_in_their_place(
    book: AliasBook,
    name: String,
    node: u64,
)
    ensures
        named(book.nodes@, name@) matches Some(n) ==> node_of(book, NodeRef::Alias(name)) == Ok::<
            u64,
            ErrorView,
        >(n),
        named(book.nodes@, name@) is None ==> (node_of(book, NodeRef::Alias(name)) matches Err(e)
            && e.kind == ErrorKind::Other),
        named(book.groups@, name@) matches Some(n) ==> group_of(book, GroupRef::Alias(name)) == Ok::<
            u16,
            ErrorView,
        >(n),
        named(book.groups@, name@) is None ==> (group_of(book, GroupRef::Alias(name)) matches Err(e)
            && e.kind == ErrorKind::Other),
        named_endpoint(book.endpoints@, node, name@) matches Some(n) ==> endpoint_of(
            book,
            node,
            EndpointRef::Alias(name),
        ) == Ok::<u16, ErrorView>(n),
        named_endpoint(book.endpoints@, node, name@) is None ==> (endpoint_of(
            book,
            node,
            EndpointRef::Alias(name),
        ) matches Err(e) && e.kind == ErrorKind::Other),
{
}

/// A list of nodes is resolved one by one, in order; one that cannot be leaves
/// none.
pub proof fn law_nodes_are_resolved_one_by_one(book: AliasBook, nodes: Seq<NodeRef>, i: int)
    requires
        0 <= i < nodes.len(),
    ensures
        nodes_of(book, nodes) matches Ok(ns) ==> ns.len() == nodes.len()
            && (node_of(book, nodes[i]) matches Ok(
            n,
        ) && ns[i] == NodeRef::Id(n)),
        node_of(book, nodes[i]) is Err ==> nodes_of(book, nodes) is Err,
    decreases nodes.len(),
{
    reveal_with_fuel(nodes_of, 2);
    let front = nodes.drop_last();
    if front.len() > 0 {
        law_nodes_are_resolved_one_by_one(book, front, if i < front.len() {
            i
        } else {
            0
        });
    }
}

/// The node that a command names, where it names one.
pub open spec fn node_named(c: Command) -> Option<NodeRef> {
    match c {
        Command::Read { node_id, .. } => Some(node_id),
        Command::Write { node_id, .. } => Some(node_id),
        Command::Invoke { node_id, .. } => Some(node_id),
        Command::Describe { node_id } => Some(node_id),
        Command::On { node_id, .. } => Some(node_id),
        Command::Off { node_id, .. } => Some(node_id),
        Command::ColorTemp { node_id, .. } => Some(node_id),
        Command::Level { node_id, .. } => Some(node_id),
        Command::OpenWindow { node_id, .. } => Some(node_id),
        Command::Diag { action: DiagCommand::Thread { node_id, .. } } => Some(node_id),
        Command::Diag { action: DiagCommand::Node { node_id, .. } } => Some(node_id),
        _ => None,
    }
}

/// The endpoint that a command names, where it names one.
pub open spec fn endpoint_named(c: Command) -> Option<EndpointRef> {
    match c {
        Command::Read { endpoint, .. } => Some(endpoint),
        Command::Write { endpoint, .. } => Some(endpoint),
        Command::Invoke { endpoint, .. } => Some(endpoint),
        Command::On { endpoint, .. } => Some(endpoint),
        Command::Off { endpoint, .. } => Some(endpoint),
        Command::ColorTemp { endpoint, .. } => Some(endpoint),
        Command::Level { endpoint, .. } => Some(endpoint),
        Command::Diag { action: DiagCommand::Thread { endpoint, .. } } => Some(endpoint),
        Command::Diag { action: DiagCommand::Node { endpoint, .. } } => Some(endpoint),
        _ => None,
    }
}

/// A command with another node and another endpoint in place of its own.
pub open spec fn placed(c: Command, node: NodeRef, at: EndpointRef) -> Command {
    match c {
        Command::Read { cluster, attribute, .. } => Command::Read {
            node_id: node,
            endpoint: at,
            cluster,
            attribute,
        },
        Command::Write { cluster, attribute, value, .. } => Command::Write {
            node_id: node,
            endpoint: at,
            cluster,
            attribute,
            value,
        },
        Command::Invoke { cluster, command, args, .. } => Command::Invoke {
            node_id: node,
            endpoint: at,
            cluster,
            command,
            args,
        },
        Command::Describe { .. } => Command::Describe { node_id: node },
        Command::On { .. } => Command::On { node_id: node, endpoint: at },
        Command::Off { .. } => Command::Off { node_id: node, endpoint: at },
        Command::ColorTemp { kelvin, mireds, transition, .. } => Command::ColorTemp {
            node_id: node,
            endpoint: at,
            kelvin,
            mireds,
            transition,
        },
        Command::Level { percent, transition, .. } => Command::Level {
            node_id: node,
            endpoint: at,
            percent,
            transition,
        },
        Command::OpenWindow { timeout, iteration, discriminator, .. } => Command::OpenWindow {
            node_id: node,
            timeout,
            iteration,
            discriminator,
        },
        Command::Diag { action: DiagCommand::Thread { .. } } => Command::Diag {
            action: DiagCommand::Thread { node_id: node, endpoint: at },
        },
        Command::Diag { action: DiagCommand::Node { deep, .. } } => Command::Diag {
            action: DiagCommand::Node { node_id: node, endpoint: at, deep },
        },
        _ => c,
    }
}

/// Resolving a command to a node puts the numbers of the node and of its
/// endpoint in place of the names and leaves everything else as it was.
pub proof fn law_resolving_changes_the_place_alone(
    book: AliasBook,
    new_alias: Result<(), MatError>,
    parsed: Result<(u8, u8, u8), String>,
    c: Command,
    r: Result<Command, MatError>,
)
    requires
        resolves(book, new_alias, parsed, c, r),
        node_named(c) is Some,
    ensures
        r matches Ok(c2) ==> (node_of(book, node_named(c)->0) matches Ok(n)
            && (match endpoint_named(
            c,
        ) {
            Some(at) => endpoint_of(book, n, at) matches Ok(ep) && c2 == placed(
                c,
                NodeRef::Id(n),
                EndpointRef::Id(ep),
            ),
            None => c2 == placed(c, NodeRef::Id(n), EndpointRef::Id(0)),
        })),
        node_of(book, node_named(c)->0) matches Err(e) ==> fails(r, e),
        node_of(book, node_named(c)->0) matches Ok(n) ==> ((endpoint_named(c) matches Some(at)
            ==> endpoint_of(book, n, at) is Ok) ==> r is Ok),
{
}

/// A colour is resolved to the value that its name has in the book, or to the
/// value that was written, and is written as a sharp and three bytes.
pub proof fn law_colour_is_written_in_three_bytes(rgb: (u8, u8, u8))
    ensures
        hex_rgb(rgb).len() == 7,
        hex_rgb(rgb)[0] == '#',
        16 * text::hex_val(hex_rgb(rgb)[1])->0 + text::hex_val(hex_rgb(rgb)[2])->0 == rgb.0,
        16 * text::hex_val(hex_rgb(rgb)[3])->0 + text::hex_val(hex_rgb(rgb)[4])->0 == rgb.1,
        16 * text::hex_val(hex_rgb(rgb)[5])->0 + text::hex_val(hex_rgb(rgb)[6])->0 == rgb.2,
{
    reveal_strlit("#");
    text::law_byte_is_two_digits(rgb.0);
    text::law_byte_is_two_digits(rgb.1);
    text::law_byte_is_two_digits(rgb.2);
    let s = hex_rgb(rgb);
    assert(s[1] == text::hex2(rgb.0)[0]);
    assert(s[2] == text::hex2(rgb.0)[1]);
    assert(s[3] == text::hex2(rgb.1)[0]);
    assert(s[4] == text::hex2(rgb.1)[1]);
    assert(s[5] == text::hex2(rgb.2)[0]);
    assert(s[6] == text::hex2(rgb.2)[1]);
}

/// A colour with a name becomes that of the book, one with a value that value,
/// and one with neither stays.
pub proof fn law_colour_is_that_of_the_book(
    book: AliasBook,
    parsed: Result<(u8, u8, u8), String>,
    spec: ColorSpecArgs,
    s: ColorSpecArgs,
)
    requires
        color_resolves(book, parsed, spec, Ok(s)),
    ensures
        spec.name matches Some(name) ==> (named(book.colors@, name@) matches Some(rgb)
            && s.name == spec.name && (s.rgb matches Some(t) && t@ == hex_rgb(rgb))),
        spec.name is None && spec.rgb is Some ==> (parsed matches Ok(rgb) && s.name is None && (
        s.rgb matches Some(t) && t@ == hex_rgb(rgb))),
        spec.name is None && spec.rgb is None ==> s == spec,
        spec.name is Some || spec.rgb is Some ==> s.hue is None && s.sat is None,
{
}

/// Resolving a command to a group puts the number of the group in place of its
/// name, and those of the nodes in place of theirs, and leaves everything else
/// as it was.
pub proof fn law_resolving_changes_the_group_alone(
    book: AliasBook,
    parsed: Result<(u8, u8, u8), String>,
    c: GroupCommand,
    c2: GroupCommand,
)
    requires
        group_resolves(book, parsed, c, Ok(c2)),
    ensures
        c matches GroupCommand::Invoke { group_id, cluster, command, args, endpoint } ==> (group_of(
            book,
            group_id,
        ) matches Ok(g) && c2 == (GroupCommand::Invoke {
            group_id: GroupRef::Id(g),
            cluster,
            command,
            args,
            endpoint,
        })),
        c matches GroupCommand::ColorTemp { group_id, kelvin, mireds, transition, endpoint } ==> (
        group_of(book, group_id) matches Ok(g) && c2 == (GroupCommand::ColorTemp {
            group_id: GroupRef::Id(g),
            kelvin,
            mireds,
            transition,
            endpoint,
        })),
        c matches GroupCommand::Level { group_id, percent, transition, endpoint } ==> (group_of(
            book,
            group_id,
        ) matches Ok(g) && c2 == (GroupCommand::Level {
            group_id: GroupRef::Id(g),
            percent,
            transition,
            endpoint,
        })),
        c matches GroupCommand::Color { group_id, spec, transition, endpoint } ==> (group_of(
            book,
            group_id,
        ) matches Ok(g) && (c2 matches GroupCommand::Color {
            group_id: g2,
            spec: s2,
            transition: t2,
            endpoint: e2,
        } && g2 == GroupRef::Id(g) && t2 == transition && e2 == endpoint && color_resolves(
            book,
            parsed,
            spec,
            Ok(s2),
        ))),
        c matches GroupCommand::Provision {
            group_id,
            node_ids,
            keyset_id,
            name,
            endpoint,
            epoch_key,
            rebind,
        } ==> (group_of(book, group_id) matches Ok(g) && (nodes_of(book, node_ids@) matches Ok(ns)
            && (c2 matches GroupCommand::Provision {
            group_id: g2,
            node_ids: n2,
            keyset_id: k2,
            name: m2,
            endpoint: e2,
            epoch_key: y2,
            rebind: r2,
        } && g2 == GroupRef::Id(g) && n2@ == ns && k2 == keyset_id && m2 == name && e2 == endpoint
            && y2 == epoch_key && r2 == rebind))),
        c matches GroupCommand::Grant { group_id, node_ids } ==> (
            group_of(book, group_id) matches Ok(
            g,
        ) && (nodes_of(book, node_ids@) matches Ok(ns) && (c2 matches GroupCommand::Grant {
            group_id: g2,
            node_ids: n2,
        } && g2 == GroupRef::Id(g) && n2@ == ns))),
        c is Bump ==> c2 is Bump,
{
}

/// Resolving what is listened to puts the numbers in place of the names and
/// leaves every other limit as it was.
pub proof fn law_resolving_keeps_the_limits(
    book: AliasBook,
    new_alias: Result<(), MatError>,
    parsed: Result<(u8, u8, u8), String>,
    c: Command,
    c2: Command,
)
    requires
        resolves(book, new_alias, parsed, c, Ok(c2)),
    ensures
        c matches Command::Listen {
            node_id,
            endpoint,
            cluster,
            attribute,
            event,
            count,
            timeout_ms,
            reconnect,
        } ==> (c2 matches Command::Listen {
            node_id: n2,
            endpoint: e2,
            cluster: c2c,
            attribute: a2,
            event: v2,
            count: k2,
            timeout_ms: t2,
            reconnect: r2,
        } && c2c == cluster && a2 == attribute && v2 == event && k2 == count && t2 == timeout_ms
            && r2
            == reconnect && (node_id is None <==> n2 is None) && (endpoint is None <==> e2 is None)
            && (node_id matches Some(n) ==> (node_of(book, n) matches Ok(x) && n2 == Some(
            NodeRef::Id(x),
        ))) && (endpoint matches Some(EndpointRef::Id(x)) ==> e2 == Some(EndpointRef::Id(x)))),
        c is Discover || c is Fabric || c is Commission ==> c2 == c,
        c matches Command::Color { node_id, endpoint, spec, transition } ==> (place_of(
            book,
            node_id,
            endpoint,
        ) matches Ok(p) && (c2 matches Command::Color {
            node_id: n2,
            endpoint: e2,
            spec: s2,
            transition: t2,
        } && n2 == NodeRef::Id(p.0) && e2 == EndpointRef::Id(p.1) && t2 == transition
            && color_resolves(book, parsed, spec, Ok(s2)))),
{
}

/// A place is the node and the endpoint of that node.
pub proof fn law_place_is_node_and_endpoint(
    book: AliasBook,
    node: NodeRef,
    endpoint: EndpointRef,
)
    ensures
        place_of(book, node, endpoint) matches Ok(p) ==> node_of(book, node) == Ok::<
            u64,
            ErrorView,
        >(p.0) && endpoint_of(book, p.0, endpoint) == Ok::<u16, ErrorView>(p.1),
        node_of(book, node) is Err ==> place_of(book, node, endpoint) is Err,
{
}

} // verus!
