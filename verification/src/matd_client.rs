//! Talking to the daemon: which path a command takes, what goes over the wire,
//! and what the answers mean.
//!
//! One line is one request, one line is one answer. A request that may have
//! reached the daemon is never run a second time on the direct path.
use vstd::prelude::*;
use vstd::string::*;
use crate::body::{put_text, with_text, ResolvedColor};
use crate::device_op::DeviceOp;
use crate::error::{error, ErrorKind, MatError};
use crate::json::{
    law_first_field_is_found,
    lemma_lookup_absent,
    lemma_lookup_pushed,
    lookup,
    nullable,
    text_array,
    text_list,
    text_or_null,
    u64_array,
    u64_list,
    with_field,
    Json,
    JsonView,
};
use crate::op::{GroupOp, GroupOpKind, NodeOp, NodeOpKind, ProvisionParams};
use crate::text;

verus! {

/// The time, in milliseconds, that the client waits beyond the budget: the
/// daemon's own answer to an exceeded budget comes first.
pub const CLIENT_SLACK_MS: u64 = 2_000;

/// The path of a command. Sockets are tried in order.
#[derive(Debug, PartialEq, Eq)]
pub enum Route {
    /// The daemon, and nothing else.
    Forced(Vec<String>),
    /// The daemon where it runs, else the direct path.
    Auto(Vec<String>),
    /// The direct path; the daemon is not looked for.
    Direct,
}

/// Whether a word switches the daemon on.
pub open spec fn truthy(v: Seq<char>) -> bool {
    text::lowered(v) == "1"@ || text::lowered(v) == "true"@ || text::lowered(v) == "yes"@
        || text::lowered(v) == "on"@
}

/// Whether a word switches the daemon off.
pub open spec fn falsy(v: Seq<char>) -> bool {
    text::lowered(v) == "0"@ || text::lowered(v) == "false"@ || text::lowered(v) == "no"@
        || text::lowered(v) == "off"@
}

/// Whether a word switches the daemon on, in any case of its letters.
pub fn is_truthy(v: &str) -> (r: bool)
    ensures
        r == truthy(v@),
{
    text::is_word(v, "1") || text::is_word(v, "true") || text::is_word(v, "yes") || text::is_word(
        v,
        "on",
    )
}

/// Whether a word switches the daemon off, in any case of its letters.
pub fn is_falsy(v: &str) -> (r: bool)
    ensures
        r == falsy(v@),
{
    text::is_word(v, "0") || text::is_word(v, "false") || text::is_word(v, "no") || text::is_word(
        v,
        "off",
    )
}

/// The socket that the environment names, where it is not empty, or the usual
/// ones.
pub open spec fn sockets_of(env_socket: Option<String>, usual: Seq<String>) -> Seq<String> {
    match env_socket {
        Some(s) if s@.len() > 0 => seq![s],
        _ => usual,
    }
}

/// The socket that the environment names, where it is not empty, or the usual
/// ones.
pub fn sockets_from_env_or_default(env_socket: Option<String>, usual: Vec<String>) -> (v: Vec<
    String,
>)
    ensures
        v@ == sockets_of(env_socket, usual@),
{
    match env_socket {
        Some(s) => if s.as_str().unicode_len() > 0 {
            let mut v: Vec<String> = Vec::new();
            v.push(s);
            v
        } else {
            usual
        },
        None => usual,
    }
}

/// Whether a route is forced to, tries, or leaves out the daemon, and with
/// which sockets.
pub open spec fn route_is(
    r: Route,
    flag: Option<Option<String>>,
    env_socket: Option<String>,
    env_enable: Option<String>,
    usual: Seq<String>,
) -> bool {
    match flag {
        Some(Some(path)) => r matches Route::Forced(v) && v@ == seq![path],
        Some(None) => r matches Route::Forced(v) && v@ == sockets_of(env_socket, usual),
        None => match env_enable {
            Some(w) if truthy(w@) => r matches Route::Forced(v) && v@ == sockets_of(
                env_socket,
                usual,
            ),
            Some(w) if falsy(w@) => r is Direct,
            _ => r matches Route::Auto(v) && v@ == sockets_of(env_socket, usual),
        },
    }
}

/// Decides the path. A flag forces the daemon, with a path of its own or not;
/// without a flag the environment may force it on or off; else the daemon is
/// looked for. The environment's socket says where, never whether.
pub fn resolve_route(
    flag: Option<Option<String>>,
    env_socket: Option<String>,
    env_enable: Option<String>,
    usual: Vec<String>,
) -> (r: Route)
    ensures
        route_is(r, flag, env_socket, env_enable, usual@),
{
    match flag {
        Some(Some(path)) => {
            let mut v: Vec<String> = Vec::new();
            v.push(path);
            Route::Forced(v)
        },
        Some(None) => Route::Forced(sockets_from_env_or_default(env_socket, usual)),
        None => {
            if let Some(w) = env_enable {
                if is_truthy(w.as_str()) {
                    return Route::Forced(sockets_from_env_or_default(env_socket, usual));
                }
                if is_falsy(w.as_str()) {
                    return Route::Direct;
                }
            }
            Route::Auto(sockets_from_env_or_default(env_socket, usual))
        },
    }
}

/// No word switches the daemon both on and off.
pub proof fn law_words_do_not_overlap(v: Seq<char>)
    ensures
        !(truthy(v) && falsy(v)),
{
    reveal_strlit("1");
    reveal_strlit("true");
    reveal_strlit("yes");
    reveal_strlit("on");
    reveal_strlit("0");
    reveal_strlit("false");
    reveal_strlit("no");
    reveal_strlit("off");
    let w = text::lowered(v);
    if truthy(v) && falsy(v) {
        if w.len() == 1 {
            assert(w[0] == '1');
        } else if w.len() == 2 {
            assert(w[0] == 'o');
        } else if w.len() == 3 {
            assert(w[0] == 'y');
        }
    }
}

/// What is said of a subcommand that the daemon does not serve.
pub open spec fn unsupported(name: Seq<char>) -> Seq<char> {
    "`mat --matd` does not support the `"@ + name
        + "` subcommand; run it without --matd (direct native path)"@
}

/// What is said of a subcommand that the daemon does not serve.
pub fn unsupported_detail(name: &str) -> (s: String)
    ensures
        s@ == unsupported(name@),
{
    "`mat --matd` does not support the `".to_owned().concat(name).concat(
        "` subcommand; run it without --matd (direct native path)",
    )
}

/// The fields that every operation on a node begins with.
pub open spec fn op_fields(op: Seq<char>, node_id: u64) -> Seq<(Seq<char>, JsonView)> {
    Seq::<(Seq<char>, JsonView)>::empty().push(("op"@, JsonView::Str(op))).push(
        ("node_id"@, JsonView::UInt(node_id)),
    )
}

/// The fields that every operation on an endpoint begins with.
pub open spec fn place_fields(op: Seq<char>, node_id: u64, endpoint: u16) -> Seq<
    (Seq<char>, JsonView),
> {
    op_fields(op, node_id).push(("endpoint"@, JsonView::UInt(endpoint as u64)))
}

/// The fields that every groupcast begins with.
pub open spec fn group_fields(op: Seq<char>, group_id: u16) -> Seq<(Seq<char>, JsonView)> {
    Seq::<(Seq<char>, JsonView)>::empty().push(("op"@, JsonView::Str(op))).push(
        ("group_id"@, JsonView::UInt(group_id as u64)),
    )
}

/// Fields with the mark of a timed request, where it is one.
pub open spec fn with_timed(fields: Seq<(Seq<char>, JsonView)>, timed: bool) -> Seq<
    (Seq<char>, JsonView),
> {
    if timed {
        fields.push(("timed"@, JsonView::Bool(true)))
    } else {
        fields
    }
}

/// The fields of a color: as it is sent, and as it was given.
pub open spec fn with_color(fields: Seq<(Seq<char>, JsonView)>, color: ResolvedColor) -> Seq<
    (Seq<char>, JsonView),
> {
    fields.push(("hue_raw"@, JsonView::UInt(color.hue_raw as u64))).push(
        ("saturation_raw"@, JsonView::UInt(color.sat_raw as u64)),
    ).push(("hue"@, JsonView::UInt(color.hue as u64))).push(
        ("saturation"@, JsonView::UInt(color.sat as u64)),
    )
}

/// The request for an operation on a node, or the subcommand that the daemon
/// does not serve.
pub open spec fn node_request(n: NodeOp) -> Result<JsonView, Seq<char>> {
    match n.kind {
        NodeOpKind::Read { endpoint, cluster_in, attribute_in, .. } => Ok(
            JsonView::Object(
                place_fields("read"@, n.node_id, endpoint).push(
                    ("cluster"@, JsonView::Str(cluster_in@)),
                ).push(("attribute"@, JsonView::Str(attribute_in@))),
            ),
        ),
        NodeOpKind::ReadCluster { endpoint, cluster_in, .. } => Ok(
            JsonView::Object(
                place_fields("read"@, n.node_id, endpoint).push(
                    ("cluster"@, JsonView::Str(cluster_in@)),
                ),
            ),
        ),
        NodeOpKind::Write { endpoint, cluster_in, attribute_in, value_in, timed, .. } => Ok(
            JsonView::Object(
                with_timed(
                    place_fields("write"@, n.node_id, endpoint).push(
                        ("cluster"@, JsonView::Str(cluster_in@)),
                    ).push(("attribute"@, JsonView::Str(attribute_in@))).push(
                        ("value"@, JsonView::Str(value_in@)),
                    ),
                    timed,
                ),
            ),
        ),
        NodeOpKind::Invoke { endpoint, cluster_in, command_in, args_in, timed, .. } => Ok(
            JsonView::Object(
                with_timed(
                    place_fields("invoke"@, n.node_id, endpoint).push(
                        ("cluster"@, JsonView::Str(cluster_in@)),
                    ).push(("command"@, JsonView::Str(command_in@))).push(
                        ("args"@, text_array(args_in@)),
                    ),
                    timed,
                ),
            ),
        ),
        NodeOpKind::Describe => Ok(JsonView::Object(op_fields("describe"@, n.node_id))),
        NodeOpKind::On { endpoint } => Ok(
            JsonView::Object(place_fields("on"@, n.node_id, endpoint)),
        ),
        NodeOpKind::Off { endpoint } => Ok(
            JsonView::Object(place_fields("off"@, n.node_id, endpoint)),
        ),
        NodeOpKind::ColorTemp { endpoint, kelvin, mireds, transition } => Ok(
            JsonView::Object(
                place_fields("color_temp"@, n.node_id, endpoint).push(
                    ("mireds"@, JsonView::UInt(mireds as u64)),
                ).push(("kelvin"@, JsonView::UInt(kelvin as u64))).push(
                    ("transition"@, JsonView::UInt(transition as u64)),
                ),
            ),
        ),
        NodeOpKind::Level { endpoint, percent, level, transition } => Ok(
            JsonView::Object(
                place_fields("level"@, n.node_id, endpoint).push(
                    ("level"@, JsonView::UInt(level as u64)),
                ).push(("percent"@, JsonView::UInt(percent as u64))).push(
                    ("transition"@, JsonView::UInt(transition as u64)),
                ),
            ),
        ),
        NodeOpKind::Color { endpoint, color, transition } => Ok(
            JsonView::Object(
                with_text(
                    with_text(
                        with_color(place_fields("color"@, n.node_id, endpoint), color).push(
                            ("transition"@, JsonView::UInt(transition as u64)),
                        ),
                        "name"@,
                        color.name,
                    ),
                    "rgb"@,
                    color.rgb,
                ),
            ),
        ),
        NodeOpKind::DiagThread { .. } => Err("diag"@),
        NodeOpKind::OpenWindow { .. } => Err("open-window"@),
        NodeOpKind::RemoveFabric => Err("unpair"@),
    }
}

/// The request for a groupcast.
pub open spec fn group_request(g: GroupOp) -> JsonView {
    JsonView::Object(
        match g.kind {
            GroupOpKind::Invoke { cluster_in, command_in, args_in, .. } => group_fields(
                "group_invoke"@,
                g.group_id,
            ).push(("cluster"@, JsonView::Str(cluster_in@))).push(
                ("command"@, JsonView::Str(command_in@)),
            ).push(("args"@, text_array(args_in@))).push(
                ("endpoint"@, JsonView::UInt(g.endpoint as u64)),
            ),
            GroupOpKind::ColorTemp { kelvin, mireds, transition } => group_fields(
                "group_color_temp"@,
                g.group_id,
            ).push(("mireds"@, JsonView::UInt(mireds as u64))).push(
                ("kelvin"@, JsonView::UInt(kelvin as u64)),
            ).push(("transition"@, JsonView::UInt(transition as u64))).push(
                ("endpoint"@, JsonView::UInt(g.endpoint as u64)),
            ),
            GroupOpKind::Level { percent, level, transition } => group_fields(
                "group_level"@,
                g.group_id,
            ).push(("level"@, JsonView::UInt(level as u64))).push(
                ("percent"@, JsonView::UInt(percent as u64)),
            ).push(("transition"@, JsonView::UInt(transition as u64))).push(
                ("endpoint"@, JsonView::UInt(g.endpoint as u64)),
            ),
            GroupOpKind::Color { color, transition } => with_text(
                with_text(
                    with_color(group_fields("group_color"@, g.group_id), color).push(
                        ("transition"@, JsonView::UInt(transition as u64)),
                    ).push(("endpoint"@, JsonView::UInt(g.endpoint as u64))),
                    "name"@,
                    color.name,
                ),
                "rgb"@,
                color.rgb,
            ),
        },
    )
}

/// The request for giving a group to nodes.
pub open spec fn provision_request(p: ProvisionParams) -> JsonView {
    JsonView::Object(
        group_fields("group_provision"@, p.group_id).push(
            ("node_ids"@, u64_array(p.node_ids@)),
        ).push(("keyset_id"@, JsonView::UInt(p.keyset_id as u64))).push(
            ("name"@, JsonView::Str(p.name@)),
        ).push(("endpoint"@, JsonView::UInt(p.endpoint as u64))).push(
            ("epoch_key"@, text_or_null(p.epoch_key)),
        ).push(("rebind"@, JsonView::Bool(p.rebind))),
    )
}

/// The request for an operation, or the subcommand that the daemon does not
/// serve. Names go over the wire as they were given.
pub open spec fn request(op: DeviceOp) -> Result<JsonView, Seq<char>> {
    match op {
        DeviceOp::Node(n) => node_request(n),
        DeviceOp::Group(g) => Ok(group_request(g)),
        DeviceOp::GroupProvision(p) => Ok(provision_request(p)),
        DeviceOp::GroupBump => Ok(
            JsonView::Object(
                Seq::<(Seq<char>, JsonView)>::empty().push(
                    ("op"@, JsonView::Str("group_bump"@)),
                ),
            ),
        ),
        DeviceOp::GroupGrant { .. } => Err("group grant"@),
        DeviceOp::GroupRemove { .. } => Err("group remove"@),
    }
}

fn op_object(op: &str, node_id: u64) -> (j: Json)
    ensures
        j@ == JsonView::Object(op_fields(op@, node_id)),
{
    Json::object().with("op", Json::text(op)).with("node_id", Json::UInt(node_id))
}

fn place_object(op: &str, node_id: u64, endpoint: u16) -> (j: Json)
    ensures
        j@ == JsonView::Object(place_fields(op@, node_id, endpoint)),
{
    op_object(op, node_id).with("endpoint", Json::UInt(endpoint as u64))
}

fn group_object(op: &str, group_id: u16) -> (j: Json)
    ensures
        j@ == JsonView::Object(group_fields(op@, group_id)),
{
    Json::object().with("op", Json::text(op)).with("group_id", Json::UInt(group_id as u64))
}

fn put_timed(j: Json, timed: bool) -> (r: Json)
    requires
        j@ is Object,
    ensures
        r@ == JsonView::Object(with_timed(j@->Object_0, timed)),
{
    if timed {
        j.with("timed", Json::Bool(true))
    } else {
        j
    }
}

fn put_color(j: Json, color: &ResolvedColor) -> (r: Json)
    requires
        j@ is Object,
    ensures
        r@ == JsonView::Object(with_color(j@->Object_0, *color)),
{
    j.with("hue_raw", Json::UInt(color.hue_raw as u64)).with(
        "saturation_raw",
        Json::UInt(color.sat_raw as u64),
    ).with("hue", Json::UInt(color.hue as u64)).with("saturation", Json::UInt(color.sat as u64))
}

/// What the making of a request says.
pub open spec fn request_view(r: Result<Json, String>) -> Result<JsonView, Seq<char>> {
    match r {
        Ok(j) => Ok(j@),
        Err(s) => Err(s@),
    }
}

/// The request, or what is said of the subcommand that the daemon does not
/// serve.
pub open spec fn request_or_detail(r: Result<JsonView, Seq<char>>) -> Result<JsonView, Seq<char>> {
    match r {
        Ok(j) => Ok(j),
        Err(name) => Err(unsupported(name)),
    }
}

fn node_to_op(n: &NodeOp) -> (r: Result<Json, String>)
    ensures
        request_view(r) == request_or_detail(node_request(*n)),
{
    let id: u64 = n.node_id;
    Ok(
        match &n.kind {
            NodeOpKind::Read { endpoint, cluster_in, attribute_in, .. } => place_object(
                "read",
                id,
                *endpoint,
            ).with("cluster", Json::text(cluster_in)).with("attribute", Json::text(attribute_in)),
            NodeOpKind::ReadCluster { endpoint, cluster_in, .. } => place_object(
                "read",
                id,
                *endpoint,
            ).with("cluster", Json::text(cluster_in)),
            NodeOpKind::Write {
                endpoint,
                cluster_in,
                attribute_in,
                value_in,
                timed,
                ..
            } => put_timed(
                place_object("write", id, *endpoint).with("cluster", Json::text(cluster_in)).with(
                    "attribute",
                    Json::text(attribute_in),
                ).with("value", Json::text(value_in)),
                *timed,
            ),
            NodeOpKind::Invoke {
                endpoint,
                cluster_in,
                command_in,
                args_in,
                timed,
                ..
            } => put_timed(
                place_object("invoke", id, *endpoint).with("cluster", Json::text(cluster_in)).with(
                    "command",
                    Json::text(command_in),
                ).with("args", text_list(args_in)),
                *timed,
            ),
            NodeOpKind::Describe => op_object("describe", id),
            NodeOpKind::On { endpoint } => place_object("on", id, *endpoint),
            NodeOpKind::Off { endpoint } => place_object("off", id, *endpoint),
            NodeOpKind::ColorTemp { endpoint, kelvin, mireds, transition } => place_object(
                "color_temp",
                id,
                *endpoint,
            ).with("mireds", Json::UInt(*mireds as u64)).with(
                "kelvin",
                Json::UInt(*kelvin as u64),
            ).with("transition", Json::UInt(*transition as u64)),
            NodeOpKind::Level { endpoint, percent, level, transition } => place_object(
                "level",
                id,
                *endpoint,
            ).with("level", Json::UInt(*level as u64)).with(
                "percent",
                Json::UInt(*percent as u64),
            ).with("transition", Json::UInt(*transition as u64)),
            NodeOpKind::Color { endpoint, color, transition } => {
                let base = put_color(place_object("color", id, *endpoint), color).with(
                    "transition",
                    Json::UInt(*transition as u64),
                );
                put_text(put_text(base, "name", &color.name), "rgb", &color.rgb)
            },
            NodeOpKind::DiagThread { .. } => {
                return Err(unsupported_detail("diag"));
            },
            NodeOpKind::OpenWindow { .. } => {
                return Err(unsupported_detail("open-window"));
            },
            NodeOpKind::RemoveFabric => {
                return Err(unsupported_detail("unpair"));
            },
        },
    )
}

fn group_to_op(g: &GroupOp) -> (j: Json)
    ensures
        j@ == group_request(*g),
{
    let ep: u64 = g.endpoint as u64;
    match &g.kind {
        GroupOpKind::Invoke { cluster_in, command_in, args_in, .. } => group_object(
            "group_invoke",
            g.group_id,
        ).with("cluster", Json::text(cluster_in)).with("command", Json::text(command_in)).with(
            "args",
            text_list(args_in),
        ).with("endpoint", Json::UInt(ep)),
        GroupOpKind::ColorTemp { kelvin, mireds, transition } => group_object(
            "group_color_temp",
            g.group_id,
        ).with("mireds", Json::UInt(*mireds as u64)).with("kelvin", Json::UInt(*kelvin as u64)).with(
            "transition",
            Json::UInt(*transition as u64),
        ).with("endpoint", Json::UInt(ep)),
        GroupOpKind::Level { percent, level, transition } => group_object(
            "group_level",
            g.group_id,
        ).with("level", Json::UInt(*level as u64)).with("percent", Json::UInt(*percent as u64)).with(
            "transition",
            Json::UInt(*transition as u64),
        ).with("endpoint", Json::UInt(ep)),
        GroupOpKind::Color { color, transition } => {
            let base = put_color(group_object("group_color", g.group_id), color).with(
                "transition",
                Json::UInt(*transition as u64),
            ).with("endpoint", Json::UInt(ep));
            put_text(put_text(base, "name", &color.name), "rgb", &color.rgb)
        },
    }
}

/// The request for an operation, or what is said of one that the daemon does
/// not serve.
pub fn to_op(op: &DeviceOp) -> (r: Result<Json, String>)
    ensures
        request_view(r) == request_or_detail(request(*op)),
{
    match op {
        DeviceOp::Node(n) => node_to_op(n),
        DeviceOp::Group(g) => Ok(group_to_op(g)),
        DeviceOp::GroupProvision(p) => {
            let key = nullable(&p.epoch_key);
            Ok(
                group_object("group_provision", p.group_id).with(
                    "node_ids",
                    u64_list(&p.node_ids),
                ).with("keyset_id", Json::UInt(p.keyset_id as u64)).with(
                    "name",
                    Json::text(&p.name),
                ).with("endpoint", Json::UInt(p.endpoint as u64)).with("epoch_key", key).with(
                    "rebind",
                    Json::Bool(p.rebind),
                ),
            )
        },
        DeviceOp::GroupBump => Ok(Json::object().with("op", Json::text("group_bump"))),
        DeviceOp::GroupGrant { .. } => Err(unsupported_detail("group grant")),
        DeviceOp::GroupRemove { .. } => Err(unsupported_detail("group remove")),
    }
}

/// Only operations that need the direct path are not served: the Thread
/// diagnosis, the opening of a window, the removal of the fabric, and granting
/// and removing groups.
pub proof fn law_what_the_daemon_serves(op: DeviceOp)
    ensures
        request(op) is Err <==> (op is GroupGrant || op is GroupRemove || (
        op matches DeviceOp::Node(n) && (n.kind is DiagThread || n.kind is OpenWindow || n.kind
            == NodeOpKind::RemoveFabric))),
{
}

/// A request says that it is timed exactly where it is.
pub proof fn law_timed_is_said_where_it_holds(fields: Seq<(Seq<char>, JsonView)>, timed: bool)
    requires
        forall|i: int| 0 <= i < fields.len() ==> (#[trigger] fields[i]).0 != "timed"@,
    ensures
        JsonView::Object(with_timed(fields, timed)).get("timed"@) == if timed {
            Some(JsonView::Bool(true))
        } else {
            None
        },
{
    lemma_lookup_absent(fields, "timed"@);
    if timed {
        lemma_lookup_pushed(fields, "timed"@, JsonView::Bool(true));
    }
}

/// Puts the budget into a request that has one, and says how long, in
/// milliseconds, to wait for the answer. A budget of zero is no limit: it is
/// sent, and nothing limits the wait.
pub fn attach_deadline(op: Json, applies: bool, op_timeout_ms: u64) -> (r: (Json, Option<u128>))
    ensures
        r.0@ == if applies {
            with_field(op@, "deadline_ms"@, JsonView::UInt(op_timeout_ms))
        } else {
            op@
        },
        r.1 is Some <==> applies && op_timeout_ms > 0,
        r.1 matches Some(t) ==> t == op_timeout_ms + CLIENT_SLACK_MS,
{
    if !applies {
        return (op, None);
    }
    let op = op.set("deadline_ms", Json::UInt(op_timeout_ms));
    if op_timeout_ms > 0 {
        (op, Some(op_timeout_ms as u128 + CLIENT_SLACK_MS as u128))
    } else {
        (op, None)
    }
}

/// Begins a command that is forced to the daemon: the request and how long to
/// wait, or the refusal of a subcommand that the daemon does not serve.
pub fn dispatch(op: &DeviceOp, op_timeout_ms: u64) -> (r: Result<(Json, Option<u128>), MatError>)
    ensures
        match request(*op) {
            Err(name) => r matches Err(e) && e@ == error(ErrorKind::Other, unsupported(name)),
            Ok(j) => r matches Ok(t) && t.0@ == (if op.budgeted() {
                with_field(j, "deadline_ms"@, JsonView::UInt(op_timeout_ms))
            } else {
                j
            }) && (t.1 is Some <==> op.budgeted() && op_timeout_ms > 0) && (t.1 matches Some(w)
                ==> w == op_timeout_ms + CLIENT_SLACK_MS),
        },
{
    match to_op(op) {
        Err(detail) => Err(MatError::new(ErrorKind::Other, detail)),
        Ok(j) => Ok(attach_deadline(j, op.budget_applies(), op_timeout_ms)),
    }
}

/// Begins a command that may go to the daemon. Nothing to send means the direct
/// path: the daemon does not serve the subcommand, or no socket answered.
pub fn dispatch_auto(op: &DeviceOp, op_timeout_ms: u64, connected: bool) -> (r: Option<
    (Json, Option<u128>),
>)
    ensures
        r is Some <==> connected && request(*op) is Ok,
        r matches Some(t) ==> t.0@ == (if op.budgeted() {
            with_field(request(*op)->Ok_0, "deadline_ms"@, JsonView::UInt(op_timeout_ms))
        } else {
            request(*op)->Ok_0
        }) && (t.1 is Some <==> op.budgeted() && op_timeout_ms > 0) && (t.1 matches Some(w) ==> w
            == op_timeout_ms + CLIENT_SLACK_MS),
{
    if !connected {
        return None;
    }
    match dispatch(op, op_timeout_ms) {
        Ok(t) => Some(t),
        Err(_) => None,
    }
}

proof fn lemma_named_color(
    f: Seq<(Seq<char>, JsonView)>,
    at: int,
    name: Option<String>,
    rgb: Option<String>,
)
    requires
        0 <= at <= f.len(),
        exists|base: Seq<(Seq<char>, JsonView)>|
            base.len() == at
                && f == #[trigger] with_text(with_text(base, "name"@, name), "rgb"@, rgb),
        forall|i: int|
            0 <= i < at ==> (#[trigger] f[i]).0 != "name"@ && f[i].0 != "rgb"@,
    ensures
        lookup(f, "name"@) == match name {
            Some(s) => Some(JsonView::Str(s@)),
            None => None,
        },
        lookup(f, "rgb"@) == match rgb {
            Some(s) => Some(JsonView::Str(s@)),
            None => None,
        },
{
    reveal_strlit("name");
    reveal_strlit("rgb");
    assert("name"@ != "rgb"@) by {
        assert("name"@.len() != "rgb"@.len());
    }
    let base = choose|base: Seq<(Seq<char>, JsonView)>|
        base.len() == at && f == #[trigger] with_text(with_text(base, "name"@, name), "rgb"@, rgb);
    match (name, rgb) {
        (Some(n), Some(c)) => {
            assert(f[at] == ("name"@, JsonView::Str(n@)));
            assert(f[at + 1] == ("rgb"@, JsonView::Str(c@)));
            law_first_field_is_found(f, "name"@, at);
            law_first_field_is_found(f, "rgb"@, at + 1);
        },
        (Some(n), None) => {
            assert(f[at] == ("name"@, JsonView::Str(n@)));
            law_first_field_is_found(f, "name"@, at);
            lemma_lookup_absent(f, "rgb"@);
        },
        (None, Some(c)) => {
            assert(f[at] == ("rgb"@, JsonView::Str(c@)));
            law_first_field_is_found(f, "rgb"@, at);
            lemma_lookup_absent(f, "name"@);
        },
        (None, None) => {
            lemma_lookup_absent(f, "name"@);
            lemma_lookup_absent(f, "rgb"@);
        },
    }
}

/// The request of a read names the node, the endpoint, the cluster and the
/// attribute.
pub proof fn law_read_request_by_name(n: NodeOp)
    requires
        n.kind is Read,
    ensures
        n.kind matches NodeOpKind::Read { endpoint, cluster_in, attribute_in, .. } ==> (
            node_request(n) matches Ok(j)
            && j.get("op"@) == Some(JsonView::Str("read"@))
            && j.get("node_id"@) == Some(JsonView::UInt(n.node_id))
            && j.get("endpoint"@) == Some(JsonView::UInt(endpoint as u64))
            && j.get("cluster"@) == Some(JsonView::Str(cluster_in@))
            && j.get("attribute"@) == Some(JsonView::Str(attribute_in@))
            && j->Object_0.len() == 5),
{
    reveal_strlit("op");
    reveal_strlit("node_id");
    reveal_strlit("endpoint");
    reveal_strlit("cluster");
    reveal_strlit("attribute");
    assert("node_id"@[0] != "cluster"@[0]);
    let f = node_request(n)->Ok_0->Object_0;
    assert(f[0].0 == "op"@);
    assert(f[1].0 == "node_id"@);
    assert(f[2].0 == "endpoint"@);
    assert(f[3].0 == "cluster"@);
    assert(f[4].0 == "attribute"@);
    law_first_field_is_found(f, "op"@, 0);
    law_first_field_is_found(f, "node_id"@, 1);
    law_first_field_is_found(f, "endpoint"@, 2);
    law_first_field_is_found(f, "cluster"@, 3);
    law_first_field_is_found(f, "attribute"@, 4);
}

/// The request of a whole cluster names the node, the endpoint and the cluster.
pub proof fn law_read_cluster_request_by_name(n: NodeOp)
    requires
        n.kind is ReadCluster,
    ensures
        n.kind matches NodeOpKind::ReadCluster { endpoint, cluster_in, .. } ==> (
            node_request(n) matches Ok(j)
            && j.get("op"@) == Some(JsonView::Str("read"@))
            && j.get("node_id"@) == Some(JsonView::UInt(n.node_id))
            && j.get("endpoint"@) == Some(JsonView::UInt(endpoint as u64))
            && j.get("cluster"@) == Some(JsonView::Str(cluster_in@)) && j->Object_0.len() == 4),
{
    reveal_strlit("op");
    reveal_strlit("node_id");
    reveal_strlit("endpoint");
    reveal_strlit("cluster");
    assert("node_id"@[0] != "cluster"@[0]);
    let f = node_request(n)->Ok_0->Object_0;
    assert(f[0].0 == "op"@);
    assert(f[1].0 == "node_id"@);
    assert(f[2].0 == "endpoint"@);
    assert(f[3].0 == "cluster"@);
    law_first_field_is_found(f, "op"@, 0);
    law_first_field_is_found(f, "node_id"@, 1);
    law_first_field_is_found(f, "endpoint"@, 2);
    law_first_field_is_found(f, "cluster"@, 3);
}

/// The request of a write names what is written, and whether it is timed.
pub proof fn law_write_request_by_name(n: NodeOp)
    requires
        n.kind is Write,
    ensures
        n.kind matches NodeOpKind::Write { endpoint, cluster_in, attribute_in, value_in, timed, .. } ==> (node_request(n) matches Ok(j)
            && j.get("op"@) == Some(JsonView::Str("write"@))
            && j.get("node_id"@) == Some(JsonView::UInt(n.node_id))
            && j.get("endpoint"@) == Some(JsonView::UInt(endpoint as u64))
            && j.get("cluster"@) == Some(JsonView::Str(cluster_in@))
            && j.get("attribute"@) == Some(JsonView::Str(attribute_in@))
            && j.get("value"@) == Some(JsonView::Str(value_in@))
            && j.get("timed"@) == if timed { Some(JsonView::Bool(true)) } else { None }),
{
    reveal_strlit("op");
    reveal_strlit("node_id");
    reveal_strlit("endpoint");
    reveal_strlit("cluster");
    reveal_strlit("attribute");
    reveal_strlit("value");
    reveal_strlit("timed");
    assert("node_id"@[0] != "cluster"@[0]);
    assert("value"@[0] != "timed"@[0]);
    let f = node_request(n)->Ok_0->Object_0;
    assert(f[0].0 == "op"@);
    assert(f[1].0 == "node_id"@);
    assert(f[2].0 == "endpoint"@);
    assert(f[3].0 == "cluster"@);
    assert(f[4].0 == "attribute"@);
    assert(f[5].0 == "value"@);
    law_first_field_is_found(f, "op"@, 0);
    law_first_field_is_found(f, "node_id"@, 1);
    law_first_field_is_found(f, "endpoint"@, 2);
    law_first_field_is_found(f, "cluster"@, 3);
    law_first_field_is_found(f, "attribute"@, 4);
    law_first_field_is_found(f, "value"@, 5);
    if f.len() > 6 {
        assert(f[6].0 == "timed"@);
        law_first_field_is_found(f, "timed"@, 6);
    } else {
        lemma_lookup_absent(f, "timed"@);
    }
}

/// The request of a command names it with its arguments, and whether it is
/// timed.
pub proof fn law_invoke_request_by_name(n: NodeOp)
    requires
        n.kind is Invoke,
    ensures
        n.kind matches NodeOpKind::Invoke { endpoint, cluster_in, command_in, args_in, timed, .. } ==> (
            node_request(n) matches Ok(j)
            && j.get("op"@) == Some(JsonView::Str("invoke"@))
            && j.get("node_id"@) == Some(JsonView::UInt(n.node_id))
            && j.get("endpoint"@) == Some(JsonView::UInt(endpoint as u64))
            && j.get("cluster"@) == Some(JsonView::Str(cluster_in@))
            && j.get("command"@) == Some(JsonView::Str(command_in@))
            && j.get("args"@) == Some(text_array(args_in@))
            && j.get("timed"@) == if timed { Some(JsonView::Bool(true)) } else { None }),
{
    reveal_strlit("op");
    reveal_strlit("node_id");
    reveal_strlit("endpoint");
    reveal_strlit("cluster");
    reveal_strlit("command");
    reveal_strlit("args");
    reveal_strlit("timed");
    assert("node_id"@[0] != "cluster"@[0]);
    assert("node_id"@[0] != "command"@[0]);
    assert("cluster"@[1] != "command"@[1]);
    let f = node_request(n)->Ok_0->Object_0;
    assert(f[0].0 == "op"@);
    assert(f[1].0 == "node_id"@);
    assert(f[2].0 == "endpoint"@);
    assert(f[3].0 == "cluster"@);
    assert(f[4].0 == "command"@);
    assert(f[5].0 == "args"@);
    law_first_field_is_found(f, "op"@, 0);
    law_first_field_is_found(f, "node_id"@, 1);
    law_first_field_is_found(f, "endpoint"@, 2);
    law_first_field_is_found(f, "cluster"@, 3);
    law_first_field_is_found(f, "command"@, 4);
    law_first_field_is_found(f, "args"@, 5);
    if f.len() > 6 {
        assert(f[6].0 == "timed"@);
        law_first_field_is_found(f, "timed"@, 6);
    } else {
        lemma_lookup_absent(f, "timed"@);
    }
}

/// The request to switch on names the node and the endpoint.
pub proof fn law_on_request_by_name(n: NodeOp)
    requires
        n.kind is On,
    ensures
        n.kind matches NodeOpKind::On { endpoint } ==> (node_request(n) matches Ok(j)
            && j.get("op"@) == Some(JsonView::Str("on"@))
            && j.get("node_id"@) == Some(JsonView::UInt(n.node_id))
            && j.get("endpoint"@) == Some(JsonView::UInt(endpoint as u64))
            && j->Object_0.len() == 3),
{
    reveal_strlit("op");
    reveal_strlit("node_id");
    reveal_strlit("endpoint");
    let f = node_request(n)->Ok_0->Object_0;
    assert(f[0].0 == "op"@);
    assert(f[1].0 == "node_id"@);
    assert(f[2].0 == "endpoint"@);
    law_first_field_is_found(f, "op"@, 0);
    law_first_field_is_found(f, "node_id"@, 1);
    law_first_field_is_found(f, "endpoint"@, 2);
}

/// The request to switch off names the node and the endpoint.
pub proof fn law_off_request_by_name(n: NodeOp)
    requires
        n.kind is Off,
    ensures
        n.kind matches NodeOpKind::Off { endpoint } ==> (node_request(n) matches Ok(j)
            && j.get("op"@) == Some(JsonView::Str("off"@))
            && j.get("node_id"@) == Some(JsonView::UInt(n.node_id))
            && j.get("endpoint"@) == Some(JsonView::UInt(endpoint as u64))
            && j->Object_0.len() == 3),
{
    reveal_strlit("op");
    reveal_strlit("node_id");
    reveal_strlit("endpoint");
    let f = node_request(n)->Ok_0->Object_0;
    assert(f[0].0 == "op"@);
    assert(f[1].0 == "node_id"@);
    assert(f[2].0 == "endpoint"@);
    law_first_field_is_found(f, "op"@, 0);
    law_first_field_is_found(f, "node_id"@, 1);
    law_first_field_is_found(f, "endpoint"@, 2);
}

/// The request of a temperature names where it is set and what is set.
pub proof fn law_color_temp_request_by_name(n: NodeOp)
    requires
        n.kind is ColorTemp,
    ensures
        n.kind matches NodeOpKind::ColorTemp { endpoint, kelvin, mireds, transition } ==> (
            node_request(n) matches Ok(j)
            && j.get("op"@) == Some(JsonView::Str("color_temp"@))
            && j.get("node_id"@) == Some(JsonView::UInt(n.node_id))
            && j.get("endpoint"@) == Some(JsonView::UInt(endpoint as u64))
            && j.get("mireds"@) == Some(JsonView::UInt(mireds as u64))
            && j.get("kelvin"@) == Some(JsonView::UInt(kelvin as u64))
            && j.get("transition"@) == Some(JsonView::UInt(transition as u64))
            && j->Object_0.len() == 6),
{
    reveal_strlit("op");
    reveal_strlit("node_id");
    reveal_strlit("endpoint");
    reveal_strlit("mireds");
    reveal_strlit("kelvin");
    reveal_strlit("transition");
    assert("mireds"@[0] != "kelvin"@[0]);
    let f = node_request(n)->Ok_0->Object_0;
    assert(f[0].0 == "op"@);
    assert(f[1].0 == "node_id"@);
    assert(f[2].0 == "endpoint"@);
    assert(f[3].0 == "mireds"@);
    assert(f[4].0 == "kelvin"@);
    assert(f[5].0 == "transition"@);
    law_first_field_is_found(f, "op"@, 0);
    law_first_field_is_found(f, "node_id"@, 1);
    law_first_field_is_found(f, "endpoint"@, 2);
    law_first_field_is_found(f, "mireds"@, 3);
    law_first_field_is_found(f, "kelvin"@, 4);
    law_first_field_is_found(f, "transition"@, 5);
}

/// The request of a level names where it is set and what is set.
pub proof fn law_level_request_by_name(n: NodeOp)
    requires
        n.kind is Level,
    ensures
        n.kind matches NodeOpKind::Level { endpoint, percent, level, transition } ==> (
            node_request(n) matches Ok(j)
            && j.get("op"@) == Some(JsonView::Str("level"@))
            && j.get("node_id"@) == Some(JsonView::UInt(n.node_id))
            && j.get("endpoint"@) == Some(JsonView::UInt(endpoint as u64))
            && j.get("level"@) == Some(JsonView::UInt(level as u64))
            && j.get("percent"@) == Some(JsonView::UInt(percent as u64))
            && j.get("transition"@) == Some(JsonView::UInt(transition as u64))
            && j->Object_0.len() == 6),
{
    reveal_strlit("op");
    reveal_strlit("node_id");
    reveal_strlit("endpoint");
    reveal_strlit("level");
    reveal_strlit("percent");
    reveal_strlit("transition");
    assert("node_id"@[0] != "percent"@[0]);
    let f = node_request(n)->Ok_0->Object_0;
    assert(f[0].0 == "op"@);
    assert(f[1].0 == "node_id"@);
    assert(f[2].0 == "endpoint"@);
    assert(f[3].0 == "level"@);
    assert(f[4].0 == "percent"@);
    assert(f[5].0 == "transition"@);
    law_first_field_is_found(f, "op"@, 0);
    law_first_field_is_found(f, "node_id"@, 1);
    law_first_field_is_found(f, "endpoint"@, 2);
    law_first_field_is_found(f, "level"@, 3);
    law_first_field_is_found(f, "percent"@, 4);
    law_first_field_is_found(f, "transition"@, 5);
}

/// The request of a colour names where it is set and what is set.
pub proof fn law_color_request_by_name(n: NodeOp)
    requires
        n.kind is Color,
    ensures
        n.kind matches NodeOpKind::Color { endpoint, color, transition } ==> (
            node_request(n) matches Ok(j)
            && j.get("op"@) == Some(JsonView::Str("color"@))
            && j.get("node_id"@) == Some(JsonView::UInt(n.node_id))
            && j.get("endpoint"@) == Some(JsonView::UInt(endpoint as u64))
            && j.get("hue_raw"@) == Some(JsonView::UInt(color.hue_raw as u64))
            && j.get("saturation_raw"@) == Some(JsonView::UInt(color.sat_raw as u64))
            && j.get("hue"@) == Some(JsonView::UInt(color.hue as u64))
            && j.get("saturation"@) == Some(JsonView::UInt(color.sat as u64))
            && j.get("transition"@) == Some(JsonView::UInt(transition as u64))
            && j.get("name"@)
                == match color.name { Some(s) => Some(JsonView::Str(s@)), None => None }
            && j.get("rgb"@)
                == match color.rgb { Some(s) => Some(JsonView::Str(s@)), None => None }),
{
    reveal_strlit("op");
    reveal_strlit("node_id");
    reveal_strlit("endpoint");
    reveal_strlit("hue_raw");
    reveal_strlit("saturation_raw");
    reveal_strlit("hue");
    reveal_strlit("saturation");
    reveal_strlit("transition");
    reveal_strlit("name");
    reveal_strlit("rgb");
    assert("node_id"@[0] != "hue_raw"@[0]);
    assert("hue"@[0] != "rgb"@[0]);
    assert("saturation"@[0] != "transition"@[0]);
    let f = node_request(n)->Ok_0->Object_0;
    assert(f[0].0 == "op"@);
    assert(f[1].0 == "node_id"@);
    assert(f[2].0 == "endpoint"@);
    assert(f[3].0 == "hue_raw"@);
    assert(f[4].0 == "saturation_raw"@);
    assert(f[5].0 == "hue"@);
    assert(f[6].0 == "saturation"@);
    assert(f[7].0 == "transition"@);
    law_first_field_is_found(f, "op"@, 0);
    law_first_field_is_found(f, "node_id"@, 1);
    law_first_field_is_found(f, "endpoint"@, 2);
    law_first_field_is_found(f, "hue_raw"@, 3);
    law_first_field_is_found(f, "saturation_raw"@, 4);
    law_first_field_is_found(f, "hue"@, 5);
    law_first_field_is_found(f, "saturation"@, 6);
    law_first_field_is_found(f, "transition"@, 7);
    let color = n.kind->Color_color;
    lemma_named_color(f, 8, color.name, color.rgb);
}

/// The request of a description names the node.
pub proof fn law_describe_request_by_name(node_id: u64)
    ensures
        node_request(NodeOp { node_id, kind: NodeOpKind::Describe }) matches Ok(j) && j.get("op"@)
            == Some(JsonView::Str("describe"@)) && j.get("node_id"@) == Some(
            JsonView::UInt(node_id),
        ),
{
    reveal_strlit("op");
    reveal_strlit("node_id");
    let f = node_request(NodeOp { node_id, kind: NodeOpKind::Describe })->Ok_0->Object_0;
    assert(f[0].0 == "op"@);
    assert(f[1].0 == "node_id"@);
    law_first_field_is_found(f, "op"@, 0);
    law_first_field_is_found(f, "node_id"@, 1);
}

/// The request of a command to a group names the group, the endpoint and the
/// command with its arguments.
pub proof fn law_group_invoke_request_by_name(g: GroupOp)
    requires
        g.kind is Invoke,
    ensures
        g.kind matches GroupOpKind::Invoke { cluster_in, command_in, args_in, .. } ==> (
            group_request(g).get("op"@) == Some(JsonView::Str("group_invoke"@))
            && group_request(g).get("group_id"@) == Some(JsonView::UInt(g.group_id as u64))
            && group_request(g).get("cluster"@) == Some(JsonView::Str(cluster_in@))
            && group_request(g).get("command"@) == Some(JsonView::Str(command_in@))
            && group_request(g).get("args"@) == Some(text_array(args_in@))
            && group_request(g).get("endpoint"@) == Some(JsonView::UInt(g.endpoint as u64))
            && group_request(g)->Object_0.len() == 6),
{
    reveal_strlit("op");
    reveal_strlit("group_id");
    reveal_strlit("cluster");
    reveal_strlit("command");
    reveal_strlit("args");
    reveal_strlit("endpoint");
    assert("group_id"@[0] != "endpoint"@[0]);
    assert("cluster"@[1] != "command"@[1]);
    let f = group_request(g)->Object_0;
    assert(f[0].0 == "op"@);
    assert(f[1].0 == "group_id"@);
    assert(f[2].0 == "cluster"@);
    assert(f[3].0 == "command"@);
    assert(f[4].0 == "args"@);
    assert(f[5].0 == "endpoint"@);
    law_first_field_is_found(f, "op"@, 0);
    law_first_field_is_found(f, "group_id"@, 1);
    law_first_field_is_found(f, "cluster"@, 2);
    law_first_field_is_found(f, "command"@, 3);
    law_first_field_is_found(f, "args"@, 4);
    law_first_field_is_found(f, "endpoint"@, 5);
}

/// The request of a temperature for a group names the group and what is set.
pub proof fn law_group_color_temp_request_by_name(g: GroupOp)
    requires
        g.kind is ColorTemp,
    ensures
        g.kind matches GroupOpKind::ColorTemp { kelvin, mireds, transition } ==> (
            group_request(g).get("op"@) == Some(JsonView::Str("group_color_temp"@))
            && group_request(g).get("group_id"@) == Some(JsonView::UInt(g.group_id as u64))
            && group_request(g).get("mireds"@) == Some(JsonView::UInt(mireds as u64))
            && group_request(g).get("kelvin"@) == Some(JsonView::UInt(kelvin as u64))
            && group_request(g).get("transition"@) == Some(JsonView::UInt(transition as u64))
            && group_request(g).get("endpoint"@) == Some(JsonView::UInt(g.endpoint as u64))
            && group_request(g)->Object_0.len() == 6),
{
    reveal_strlit("op");
    reveal_strlit("group_id");
    reveal_strlit("mireds");
    reveal_strlit("kelvin");
    reveal_strlit("transition");
    reveal_strlit("endpoint");
    assert("group_id"@[0] != "endpoint"@[0]);
    assert("mireds"@[0] != "kelvin"@[0]);
    let f = group_request(g)->Object_0;
    assert(f[0].0 == "op"@);
    assert(f[1].0 == "group_id"@);
    assert(f[2].0 == "mireds"@);
    assert(f[3].0 == "kelvin"@);
    assert(f[4].0 == "transition"@);
    assert(f[5].0 == "endpoint"@);
    law_first_field_is_found(f, "op"@, 0);
    law_first_field_is_found(f, "group_id"@, 1);
    law_first_field_is_found(f, "mireds"@, 2);
    law_first_field_is_found(f, "kelvin"@, 3);
    law_first_field_is_found(f, "transition"@, 4);
    law_first_field_is_found(f, "endpoint"@, 5);
}

/// The request of a level for a group names the group and what is set.
pub proof fn law_group_level_request_by_name(g: GroupOp)
    requires
        g.kind is Level,
    ensures
        g.kind matches GroupOpKind::Level { percent, level, transition } ==> (
            group_request(g).get("op"@) == Some(JsonView::Str("group_level"@))
            && group_request(g).get("group_id"@) == Some(JsonView::UInt(g.group_id as u64))
            && group_request(g).get("level"@) == Some(JsonView::UInt(level as u64))
            && group_request(g).get("percent"@) == Some(JsonView::UInt(percent as u64))
            && group_request(g).get("transition"@) == Some(JsonView::UInt(transition as u64))
            && group_request(g).get("endpoint"@) == Some(JsonView::UInt(g.endpoint as u64))
            && group_request(g)->Object_0.len() == 6),
{
    reveal_strlit("op");
    reveal_strlit("group_id");
    reveal_strlit("level");
    reveal_strlit("percent");
    reveal_strlit("transition");
    reveal_strlit("endpoint");
    assert("group_id"@[0] != "endpoint"@[0]);
    let f = group_request(g)->Object_0;
    assert(f[0].0 == "op"@);
    assert(f[1].0 == "group_id"@);
    assert(f[2].0 == "level"@);
    assert(f[3].0 == "percent"@);
    assert(f[4].0 == "transition"@);
    assert(f[5].0 == "endpoint"@);
    law_first_field_is_found(f, "op"@, 0);
    law_first_field_is_found(f, "group_id"@, 1);
    law_first_field_is_found(f, "level"@, 2);
    law_first_field_is_found(f, "percent"@, 3);
    law_first_field_is_found(f, "transition"@, 4);
    law_first_field_is_found(f, "endpoint"@, 5);
}

/// The request of a colour for a group names the group and what is set.
pub proof fn law_group_color_request_by_name(g: GroupOp)
    requires
        g.kind is Color,
    ensures
        g.kind matches GroupOpKind::Color { color, transition } ==> (
            group_request(g).get("op"@) == Some(JsonView::Str("group_color"@))
            && group_request(g).get("group_id"@) == Some(JsonView::UInt(g.group_id as u64))
            && group_request(g).get("hue_raw"@) == Some(JsonView::UInt(color.hue_raw as u64))
            && group_request(g).get("saturation_raw"@) == Some(JsonView::UInt(color.sat_raw as u64))
            && group_request(g).get("hue"@) == Some(JsonView::UInt(color.hue as u64))
            && group_request(g).get("saturation"@) == Some(JsonView::UInt(color.sat as u64))
            && group_request(g).get("transition"@) == Some(JsonView::UInt(transition as u64))
            && group_request(g).get("endpoint"@) == Some(JsonView::UInt(g.endpoint as u64))
            && group_request(g).get("name"@)
                == match color.name { Some(s) => Some(JsonView::Str(s@)), None => None }
            && group_request(g).get("rgb"@)
                == match color.rgb { Some(s) => Some(JsonView::Str(s@)), None => None }),
{
    reveal_strlit("op");
    reveal_strlit("group_id");
    reveal_strlit("hue_raw");
    reveal_strlit("saturation_raw");
    reveal_strlit("hue");
    reveal_strlit("saturation");
    reveal_strlit("transition");
    reveal_strlit("endpoint");
    reveal_strlit("name");
    reveal_strlit("rgb");
    assert("group_id"@[0] != "endpoint"@[0]);
    assert("hue"@[0] != "rgb"@[0]);
    assert("saturation"@[0] != "transition"@[0]);
    let f = group_request(g)->Object_0;
    assert(f[0].0 == "op"@);
    assert(f[1].0 == "group_id"@);
    assert(f[2].0 == "hue_raw"@);
    assert(f[3].0 == "saturation_raw"@);
    assert(f[4].0 == "hue"@);
    assert(f[5].0 == "saturation"@);
    assert(f[6].0 == "transition"@);
    assert(f[7].0 == "endpoint"@);
    law_first_field_is_found(f, "op"@, 0);
    law_first_field_is_found(f, "group_id"@, 1);
    law_first_field_is_found(f, "hue_raw"@, 2);
    law_first_field_is_found(f, "saturation_raw"@, 3);
    law_first_field_is_found(f, "hue"@, 4);
    law_first_field_is_found(f, "saturation"@, 5);
    law_first_field_is_found(f, "transition"@, 6);
    law_first_field_is_found(f, "endpoint"@, 7);
    let color = g.kind->Color_color;
    lemma_named_color(f, 8, color.name, color.rgb);
}

/// The request to give a group to nodes names the group, the nodes in order,
/// the key set, the name, the endpoint, the key and whether to bind anew.
pub proof fn law_provision_request_by_name(p: ProvisionParams)
    ensures
        provision_request(p).get("op"@) == Some(JsonView::Str("group_provision"@)),
        provision_request(p).get("group_id"@) == Some(JsonView::UInt(p.group_id as u64)),
        provision_request(p).get("node_ids"@) == Some(u64_array(p.node_ids@)),
        provision_request(p).get("keyset_id"@) == Some(JsonView::UInt(p.keyset_id as u64)),
        provision_request(p).get("name"@) == Some(JsonView::Str(p.name@)),
        provision_request(p).get("endpoint"@) == Some(JsonView::UInt(p.endpoint as u64)),
        provision_request(p).get("epoch_key"@)
            == Some(match p.epoch_key { Some(k) => JsonView::Str(k@), None => JsonView::Null }),
        provision_request(p).get("rebind"@) == Some(JsonView::Bool(p.rebind)),
        provision_request(p)->Object_0.len() == 8,
        request(DeviceOp::GroupProvision(p)) == Ok::<JsonView, Seq<char>>(provision_request(p)),
{
    reveal_strlit("op");
    reveal_strlit("group_id");
    reveal_strlit("node_ids");
    reveal_strlit("keyset_id");
    reveal_strlit("name");
    reveal_strlit("endpoint");
    reveal_strlit("epoch_key");
    reveal_strlit("rebind");
    assert("group_id"@[0] != "node_ids"@[0]);
    assert("group_id"@[0] != "endpoint"@[0]);
    assert("node_ids"@[0] != "endpoint"@[0]);
    assert("keyset_id"@[0] != "epoch_key"@[0]);
    let f = provision_request(p)->Object_0;
    assert(f[0].0 == "op"@);
    assert(f[1].0 == "group_id"@);
    assert(f[2].0 == "node_ids"@);
    assert(f[3].0 == "keyset_id"@);
    assert(f[4].0 == "name"@);
    assert(f[5].0 == "endpoint"@);
    assert(f[6].0 == "epoch_key"@);
    assert(f[7].0 == "rebind"@);
    law_first_field_is_found(f, "op"@, 0);
    law_first_field_is_found(f, "group_id"@, 1);
    law_first_field_is_found(f, "node_ids"@, 2);
    law_first_field_is_found(f, "keyset_id"@, 3);
    law_first_field_is_found(f, "name"@, 4);
    law_first_field_is_found(f, "endpoint"@, 5);
    law_first_field_is_found(f, "epoch_key"@, 6);
    law_first_field_is_found(f, "rebind"@, 7);
}

/// A group's bump is asked for by its name alone.
pub proof fn law_bump_request_by_name()
    ensures
        request(DeviceOp::GroupBump) matches Ok(j) && j.get("op"@) == Some(
            JsonView::Str("group_bump"@),
        ),
{
    law_first_field_is_found(request(DeviceOp::GroupBump)->Ok_0->Object_0, "op"@, 0);
}

/// An operation of a node or a group is asked for as such.
pub proof fn law_request_is_that_of_the_operation(op: DeviceOp)
    ensures
        op matches DeviceOp::Node(n) ==> request(op) == node_request(n),
        op matches DeviceOp::Group(g) ==> request(op) == Ok::<JsonView, Seq<char>>(group_request(g)),
{
}

/// A socket on the command line forces the daemon on that socket alone. Without
/// the option, a word for yes in the environment forces it, a word for no keeps
/// away from it, and otherwise it is tried.
pub proof fn law_option_outranks_the_environment(
    r: Route,
    flag: Option<Option<String>>,
    env_socket: Option<String>,
    env_enable: Option<String>,
    usual: Seq<String>,
)
    requires
        route_is(r, flag, env_socket, env_enable, usual),
    ensures
        flag matches Some(Some(path)) ==> (r matches Route::Forced(v) && v@.len() == 1 && v@[0]
            == path),
        flag == Some(None::<String>) ==> r is Forced,
        flag is None && env_enable is None ==> r is Auto,
        r is Direct <==> flag is None && (env_enable matches Some(w) && falsy(w@)),
        r is Auto <==> flag is None && (env_enable matches Some(w) ==> !truthy(w@) && !falsy(w@)),
        !(flag matches Some(Some(_))) ==> (env_socket matches Some(s) ==> (s@.len() > 0
            ==> (r matches Route::Forced(v) ==> v@ == seq![s]) && (r matches Route::Auto(v) ==> v@
            == seq![s]))),
        !(flag matches Some(Some(_))) && !(env_socket matches Some(s) && s@.len() > 0) ==> (
        r matches Route::Forced(v) ==> v@ == usual) && (r matches Route::Auto(v) ==> v@ == usual),
{
    if let Some(w) = env_enable {
        law_words_do_not_overlap(w@);
    }
}

/// Four words say yes and four say no, in whatever case they are written.
pub proof fn law_words_for_yes_and_no(v: Seq<char>)
    ensures
        truthy(v) <==> (seq!["1"@, "true"@, "yes"@, "on"@]).contains(text::lowered(v)),
        falsy(v) <==> (seq!["0"@, "false"@, "no"@, "off"@]).contains(text::lowered(v)),
{
    let yes = seq!["1"@, "true"@, "yes"@, "on"@];
    let no = seq!["0"@, "false"@, "no"@, "off"@];
    if truthy(v) {
        assert(yes[0] == text::lowered(v) || yes[1] == text::lowered(v) || yes[2] == text::lowered(v)
            || yes[3] == text::lowered(v));
    }
    if falsy(v) {
        assert(no[0] == text::lowered(v) || no[1] == text::lowered(v) || no[2] == text::lowered(v)
            || no[3] == text::lowered(v));
    }
}

/// The client waits two seconds longer than the daemon may take.
pub proof fn law_client_waits_longer_than_the_daemon()
    ensures
        CLIENT_SLACK_MS == 2_000,
{
}

/// A command that the daemon does not serve is refused by its name.
pub proof fn law_refusal_names_the_command(name: Seq<char>)
    ensures
        text::occurs(unsupported(name), name),
{
    let s = unsupported(name);
    let k: int = "`mat --matd` does not support the `"@.len() as int;
    assert(s.subrange(k, k + name.len()) =~= name);
    assert(text::occurs_at(s, name, k));
}

/// The names by which the operations are refused that the daemon does not
/// serve.
pub proof fn law_unserved_operations_have_names(op: DeviceOp)
    ensures
        op is GroupGrant ==> request(op) == Err::<JsonView, Seq<char>>("group grant"@),
        op is GroupRemove ==> request(op) == Err::<JsonView, Seq<char>>("group remove"@),
        op matches DeviceOp::Node(n) ==> (n.kind is DiagThread ==> request(op) == Err::<
            JsonView,
            Seq<char>,
        >("diag"@)),
        op matches DeviceOp::Node(n) ==> (n.kind is OpenWindow ==> request(op) == Err::<
            JsonView,
            Seq<char>,
        >("open-window"@)),
        op matches DeviceOp::Node(n) ==> (n.kind is RemoveFabric ==> request(op) == Err::<
            JsonView,
            Seq<char>,
        >("unpair"@)),
{
}

} // verus!
