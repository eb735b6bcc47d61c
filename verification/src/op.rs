//! Operations on a node and on a group: what each sends, and what it reports.
//!
//! The ids are resolved and the units converted when an operation is made; the
//! texts that were given are kept for the report.
use vstd::prelude::*;
use vstd::string::*;
use crate::body::{
    color_body,
    color_success,
    color_temp_body,
    color_temp_success,
    diag_thread_body,
    diag_thread_success,
    invoke_body,
    invoke_success,
    law_color_report_by_name,
    law_color_temp_report_by_name,
    law_invoke_report_by_name,
    law_level_report_by_name,
    law_read_report_by_name,
    law_thread_report_by_name,
    law_unpair_report_by_name,
    level_body,
    level_success,
    read_body,
    read_success,
    unpair_body,
    unpair_device,
    ResolvedColor,
};
use crate::conn::{
    fits,
    row_views,
    Call,
    CallView,
    NocAnswer,
    Payload,
    PayloadView,
    Progress,
    ProgressView,
    Reply,
    ATTR_CURRENT_FABRIC_INDEX,
    ATTR_ON_OFF,
    CLUSTER_COLOR_CONTROL,
    CLUSTER_LEVEL_CONTROL,
    CLUSTER_ON_OFF,
    CLUSTER_OPERATIONAL_CREDENTIALS,
    CLUSTER_THREAD_DIAG,
    CMD_MOVE_TO_COLOR_TEMPERATURE,
    CMD_MOVE_TO_HUE_AND_SATURATION,
    CMD_MOVE_TO_LEVEL,
    CMD_ON_OFF_OFF,
    CMD_ON_OFF_ON,
    CMD_REMOVE_FABRIC,
};
use crate::error::{
    error,
    group_ctx_unconfigured,
    group_unavailable,
    unresolved_op,
    ErrorKind,
    ErrorView,
    MatError,
};
use crate::group::{BumpOutcome, GroupOutcome};
use crate::json::{json_text, render, Json, JsonView};
use crate::ops::{
    describe,
    describe_next,
    describe_step,
    parts_list,
    value_view,
    Describe,
    DescribeView,
    NodeEndpoints,
};
use crate::text;
use crate::thread::{diag_thread, snapshot, ThreadAttributes};
use crate::tlv::{
    decoded,
    law_arguments_stand_under_their_positions,
    law_encoding_reads_back,
    arg_value_to_tlv,
    arg_views,
    copy_elems,
    elems,
    encode_command_fields,
    encoded,
    positional,
    ArgValue,
    ArgView,
    Elem,
    Tag,
};
use crate::units::{level_of, reciprocal, resolve_color_temp, resolve_level};

verus! {

/// What the tables of names say of a write.
#[derive(Debug, PartialEq, Eq)]
pub enum WriteClass {
    /// No such cluster or attribute.
    NotNative,
    /// The value does not fit, and why.
    Reject(String),
    Native { cluster: u32, attribute: u32, value: ArgValue, timed: bool },
}

/// What the tables of names say of a command.
#[derive(Debug, PartialEq, Eq)]
pub enum InvokeClass {
    /// No such cluster or command.
    NotNative,
    /// An argument does not fit, and why.
    Reject(String),
    Native { cluster: u32, command: u32, fields: Vec<ArgValue>, timed: bool },
}

/// An operation on one node.
#[derive(Debug, PartialEq, Eq)]
pub struct NodeOp {
    pub node_id: u64,
    pub kind: NodeOpKind,
}

/// What to do on a node.
#[derive(Debug, PartialEq, Eq)]
pub enum NodeOpKind {
    On { endpoint: u16 },
    Off { endpoint: u16 },
    Color { endpoint: u16, color: ResolvedColor, transition: u16 },
    ColorTemp { endpoint: u16, kelvin: u32, mireds: u16, transition: u16 },
    Level { endpoint: u16, percent: u8, level: u8, transition: u16 },
    Read { endpoint: u16, cluster_in: String, attribute_in: String, cluster: u32, attribute: u32 },
    /// A read of all attributes of a cluster.
    ReadCluster { endpoint: u16, cluster_in: String, cluster: u32 },
    Write {
        endpoint: u16,
        cluster_in: String,
        attribute_in: String,
        cluster: u32,
        attribute: u32,
        value_in: String,
        value: ArgValue,
        timed: bool,
    },
    Invoke {
        endpoint: u16,
        cluster_in: String,
        command_in: String,
        args_in: Vec<String>,
        cluster: u32,
        command: u32,
        fields_tlv: Option<Vec<Elem>>,
        timed: bool,
    },
    Describe,
    DiagThread { endpoint: u16 },
    OpenWindow { timeout: u32, iteration: u32, discriminator: u16 },
    /// Take this controller's fabric off the node.
    RemoveFabric,
}

/// The command that a class resolves to, and its fields where it has any.
pub open spec fn invoke_fields(fields: Seq<ArgValue>) -> Option<Seq<crate::tlv::ElemView>> {
    if fields.len() == 0 {
        None
    } else {
        Some(encoded(Tag::Anonymous, ArgView::Struct(positional(arg_views(fields)))))
    }
}

/// What some optional elements hold.
pub open spec fn tlv_view(tlv: Option<Vec<Elem>>) -> Option<Seq<crate::tlv::ElemView>> {
    match tlv {
        Some(v) => Some(elems(v@)),
        None => None,
    }
}

/// The failure of a class that resolves to nothing.
pub open spec fn refused(class: InvokeClass) -> Option<ErrorView> {
    match class {
        InvokeClass::NotNative => Some(unresolved_op()),
        InvokeClass::Reject(msg) => Some(error(ErrorKind::ParseError, msg@)),
        InvokeClass::Native { .. } => None,
    }
}

/// Resolves a command: its ids, its fields where it has any, and whether it is
/// timed.
pub fn resolve_invoke(class: InvokeClass) -> (r: Result<
    (u32, u32, Option<Vec<Elem>>, bool),
    MatError,
>)
    ensures
        r is Ok <==> refused(class) is None,
        r matches Err(e) ==> refused(class) == Some(e@),
        r matches Ok(t) ==> (class matches InvokeClass::Native { cluster, command, fields, timed }
            && t.0 == cluster && t.1 == command && tlv_view(t.2) == invoke_fields(fields@) && t.3
            == timed),
{
    match class {
        InvokeClass::NotNative => Err(MatError::unresolved_op()),
        InvokeClass::Reject(msg) => Err(MatError::parse_error(msg)),
        InvokeClass::Native { cluster, command, fields, timed } => {
            let tlv = if fields.len() == 0 {
                None
            } else {
                Some(encode_command_fields(&fields))
            };
            Ok((cluster, command, tlv, timed))
        },
    }
}

/// The mireds and the kelvin of a color temperature that is given in one of
/// them.
pub open spec fn color_temp_of(kelvin: Option<u32>, mireds: Option<u16>) -> (u16, u32) {
    match kelvin {
        Some(k) => ((reciprocal(k as nat) % 65_536) as u16, k),
        None => (mireds->0, reciprocal(mireds->0 as nat) as u32),
    }
}

/// Whether an operation is this read.
pub open spec fn is_read(
    k: NodeOpKind,
    endpoint: u16,
    cluster_in: Seq<char>,
    attribute_in: Seq<char>,
    cluster: u32,
    attribute: u32,
) -> bool {
    k matches NodeOpKind::Read {
        endpoint: ep,
        cluster_in: ci,
        attribute_in: ai,
        cluster: c,
        attribute: a,
    } && ep == endpoint && ci@ == cluster_in && ai@ == attribute_in && c == cluster && a
        == attribute
}

/// Whether an operation is this write.
pub open spec fn is_write(
    k: NodeOpKind,
    endpoint: u16,
    cluster_in: Seq<char>,
    attribute_in: Seq<char>,
    value_in: Seq<char>,
    class: WriteClass,
    timed_override: bool,
) -> bool {
    class matches WriteClass::Native { cluster, attribute, value, timed } && (
    k matches NodeOpKind::Write {
        endpoint: ep,
        cluster_in: ci,
        attribute_in: ai,
        cluster: c,
        attribute: a,
        value_in: vi,
        value: v,
        timed: t,
    } && ep == endpoint && ci@ == cluster_in && ai@ == attribute_in && c == cluster && a
        == attribute && vi@ == value_in && v == value && t == (timed || timed_override))
}

/// Whether an operation is this command.
pub open spec fn is_invoke(
    k: NodeOpKind,
    endpoint: u16,
    cluster_in: Seq<char>,
    command_in: Seq<char>,
    args: Seq<String>,
    class: InvokeClass,
    timed_override: bool,
) -> bool {
    class matches InvokeClass::Native { cluster, command, fields, timed } && (
    k matches NodeOpKind::Invoke {
        endpoint: ep,
        cluster_in: ci,
        command_in: co,
        args_in,
        cluster: c,
        command: cmd,
        fields_tlv,
        timed: t,
    } && ep == endpoint && ci@ == cluster_in && co@ == command_in && args_in@ == args && c
        == cluster && cmd == command && tlv_view(fields_tlv) == invoke_fields(fields@) && t == (
    timed || timed_override))
}

/// Whether a groupcast is this command.
pub open spec fn is_group_invoke(
    k: GroupOpKind,
    cluster_in: Seq<char>,
    command_in: Seq<char>,
    args: Seq<String>,
    class: InvokeClass,
) -> bool {
    class matches InvokeClass::Native { cluster, command, fields, .. } && (
    k matches GroupOpKind::Invoke {
        cluster_in: ci,
        command_in: co,
        args_in,
        cluster: c,
        command: cmd,
        fields_tlv,
    } && ci@ == cluster_in && co@ == command_in && args_in@ == args && c == cluster && cmd
        == command && tlv_view(fields_tlv) == invoke_fields(fields@))
}

/// The failure of a write that resolves to nothing.
pub open spec fn write_refused(class: WriteClass) -> Option<ErrorView> {
    match class {
        WriteClass::NotNative => Some(unresolved_op()),
        WriteClass::Reject(msg) => Some(error(ErrorKind::ParseError, msg@)),
        WriteClass::Native { .. } => None,
    }
}

impl NodeOpKind {
    /// A read of an attribute, where both names were resolved.
    pub fn read(
        endpoint: u16,
        cluster_in: &str,
        attribute_in: &str,
        cluster: Option<u32>,
        attribute: Option<u32>,
    ) -> (r: Result<NodeOpKind, MatError>)
        ensures
            r is Ok <==> cluster is Some && attribute is Some,
            r matches Err(e) ==> e@ == unresolved_op(),
            r matches Ok(k) ==> is_read(
                k,
                endpoint,
                cluster_in@,
                attribute_in@,
                cluster->0,
                attribute->0,
            ),
    {
        match (cluster, attribute) {
            (Some(cluster), Some(attribute)) => Ok(
                NodeOpKind::Read {
                    endpoint,
                    cluster_in: cluster_in.to_owned(),
                    attribute_in: attribute_in.to_owned(),
                    cluster,
                    attribute,
                },
            ),
            _ => Err(MatError::unresolved_op()),
        }
    }

    /// A read of all attributes of a cluster, where its name was resolved.
    pub fn read_cluster(endpoint: u16, cluster_in: &str, cluster: Option<u32>) -> (r: Result<
        NodeOpKind,
        MatError,
    >)
        ensures
            r is Ok <==> cluster is Some,
            r matches Err(e) ==> e@ == unresolved_op(),
            r matches Ok(k) ==> (k matches NodeOpKind::ReadCluster {
                endpoint: ep,
                cluster_in: ci,
                cluster: c,
            } && ep == endpoint && ci@ == cluster_in@ && Some(c) == cluster),
    {
        match cluster {
            Some(cluster) => Ok(
                NodeOpKind::ReadCluster { endpoint, cluster_in: cluster_in.to_owned(), cluster },
            ),
            None => Err(MatError::unresolved_op()),
        }
    }

    /// A write, as its class resolves it. `timed_override` makes it timed; it
    /// never makes it untimed.
    pub fn write(
        endpoint: u16,
        cluster_in: &str,
        attribute_in: &str,
        value_in: &str,
        class: WriteClass,
        timed_override: bool,
    ) -> (r: Result<NodeOpKind, MatError>)
        ensures
            r is Ok <==> write_refused(class) is None,
            r matches Err(e) ==> write_refused(class) == Some(e@),
            r matches Ok(k) ==> is_write(
                k,
                endpoint,
                cluster_in@,
                attribute_in@,
                value_in@,
                class,
                timed_override,
            ),
    {
        match class {
            WriteClass::NotNative => Err(MatError::unresolved_op()),
            WriteClass::Reject(msg) => Err(MatError::parse_error(msg)),
            WriteClass::Native { cluster, attribute, value, timed } => Ok(
                NodeOpKind::Write {
                    endpoint,
                    cluster_in: cluster_in.to_owned(),
                    attribute_in: attribute_in.to_owned(),
                    cluster,
                    attribute,
                    value_in: value_in.to_owned(),
                    value,
                    timed: timed || timed_override,
                },
            ),
        }
    }

    /// A command, as its class resolves it. `timed_override` makes it timed; it
    /// never makes it untimed.
    pub fn invoke(
        endpoint: u16,
        cluster_in: &str,
        command_in: &str,
        args: Vec<String>,
        class: InvokeClass,
        timed_override: bool,
    ) -> (r: Result<NodeOpKind, MatError>)
        ensures
            r is Ok <==> refused(class) is None,
            r matches Err(e) ==> refused(class) == Some(e@),
            r matches Ok(k) ==> is_invoke(
                k,
                endpoint,
                cluster_in@,
                command_in@,
                args@,
                class,
                timed_override,
            ),
    {
        match resolve_invoke(class) {
            Err(e) => Err(e),
            Ok(t) => Ok(
                NodeOpKind::Invoke {
                    endpoint,
                    cluster_in: cluster_in.to_owned(),
                    command_in: command_in.to_owned(),
                    args_in: args,
                    cluster: t.0,
                    command: t.1,
                    fields_tlv: t.2,
                    timed: t.3 || timed_override,
                },
            ),
        }
    }

    /// A color temperature in either unit.
    pub fn color_temp(
        endpoint: u16,
        kelvin: Option<u32>,
        mireds: Option<u16>,
        transition: u16,
    ) -> (k: NodeOpKind)
        requires
            kelvin is Some <==> mireds is None,
            kelvin matches Some(v) ==> v != 0,
            mireds matches Some(v) ==> v != 0,
        ensures
            k matches NodeOpKind::ColorTemp { endpoint: ep, kelvin: kv, mireds: m, transition: t }
                && ep == endpoint && t == transition && (m, kv) == color_temp_of(kelvin, mireds),
    {
        let (m, k) = resolve_color_temp(kelvin, mireds);
        NodeOpKind::ColorTemp { endpoint, kelvin: k, mireds: m, transition }
    }

    /// A level in percent.
    pub fn level(endpoint: u16, percent: u8, transition: u16) -> (k: NodeOpKind)
        ensures
            k == (NodeOpKind::Level {
                endpoint,
                percent,
                level: (level_of(percent as nat) % 256) as u8,
                transition,
            }),
    {
        NodeOpKind::Level { endpoint, percent, level: resolve_level(percent), transition }
    }

    /// Whether a time budget limits the operation.
    pub open spec fn budgeted(self) -> bool {
        !(self is DiagThread || self is OpenWindow)
    }

    /// Whether a time budget limits the operation: every one but the Thread
    /// diagnosis and the opening of a window.
    pub fn budget_applies(&self) -> (r: bool)
        ensures
            r == self.budgeted(),
    {
        match self {
            NodeOpKind::DiagThread { .. } => false,
            NodeOpKind::OpenWindow { .. } => false,
            _ => true,
        }
    }

    /// The name of the operation.
    pub open spec fn label(self) -> Seq<char> {
        match self {
            NodeOpKind::On { .. } => "on"@,
            NodeOpKind::Off { .. } => "off"@,
            NodeOpKind::Color { .. } => "color"@,
            NodeOpKind::ColorTemp { .. } => "color_temp"@,
            NodeOpKind::Level { .. } => "level"@,
            NodeOpKind::Read { .. } => "read"@,
            NodeOpKind::ReadCluster { .. } => "read_cluster"@,
            NodeOpKind::Write { .. } => "write"@,
            NodeOpKind::Invoke { .. } => "invoke"@,
            NodeOpKind::Describe => "describe"@,
            NodeOpKind::DiagThread { .. } => "diag_thread"@,
            NodeOpKind::OpenWindow { .. } => "open_window"@,
            NodeOpKind::RemoveFabric => "remove_fabric"@,
        }
    }

    /// The name of the operation, as the daemon spells it.
    pub fn name(&self) -> (s: &'static str)
        ensures
            s@ == self.label(),
    {
        match self {
            NodeOpKind::On { .. } => "on",
            NodeOpKind::Off { .. } => "off",
            NodeOpKind::Color { .. } => "color",
            NodeOpKind::ColorTemp { .. } => "color_temp",
            NodeOpKind::Level { .. } => "level",
            NodeOpKind::Read { .. } => "read",
            NodeOpKind::ReadCluster { .. } => "read_cluster",
            NodeOpKind::Write { .. } => "write",
            NodeOpKind::Invoke { .. } => "invoke",
            NodeOpKind::Describe => "describe",
            NodeOpKind::DiagThread { .. } => "diag_thread",
            NodeOpKind::OpenWindow { .. } => "open_window",
            NodeOpKind::RemoveFabric => "remove_fabric",
        }
    }
}

/// A groupcast: no reply comes, so only the sending is reported.
#[derive(Debug, PartialEq, Eq)]
pub struct GroupOp {
    pub group_id: u16,
    pub endpoint: u16,
    pub kind: GroupOpKind,
}

/// What to send to a group.
#[derive(Debug, PartialEq, Eq)]
pub enum GroupOpKind {
    Invoke {
        cluster_in: String,
        command_in: String,
        args_in: Vec<String>,
        cluster: u32,
        command: u32,
        fields_tlv: Option<Vec<Elem>>,
    },
    Color { color: ResolvedColor, transition: u16 },
    ColorTemp { kelvin: u32, mireds: u16, transition: u16 },
    Level { percent: u8, level: u8, transition: u16 },
}

/// What giving a group to nodes needs. The epoch key is 32 hex digits, or none
/// to have one made.
#[derive(Debug, PartialEq, Eq)]
pub struct ProvisionParams {
    pub group_id: u16,
    pub node_ids: Vec<u64>,
    pub keyset_id: u16,
    pub name: String,
    pub endpoint: u16,
    pub epoch_key: Option<String>,
    pub rebind: bool,
}

/// The payload of some optional elements.
pub open spec fn tlv_payload(tlv: Option<Vec<Elem>>) -> PayloadView {
    match tlv {
        Some(v) => PayloadView::Elems(elems(v@)),
        None => PayloadView::Empty,
    }
}

fn payload_of(tlv: &Option<Vec<Elem>>) -> (p: Payload)
    ensures
        p@ == tlv_payload(*tlv),
{
    match tlv {
        Some(v) => Payload::Elems(copy_elems(v)),
        None => Payload::Empty,
    }
}

/// What a color sends: cluster, command and fields.
pub open spec fn color_wire(color: ResolvedColor, transition: u16) -> (u32, u32, PayloadView) {
    (
        CLUSTER_COLOR_CONTROL,
        CMD_MOVE_TO_HUE_AND_SATURATION,
        PayloadView::MoveToHueAndSaturation {
            hue: color.hue_raw,
            saturation: color.sat_raw,
            transition,
        },
    )
}

/// What a color temperature sends.
pub open spec fn color_temp_wire(mireds: u16, transition: u16) -> (u32, u32, PayloadView) {
    (
        CLUSTER_COLOR_CONTROL,
        CMD_MOVE_TO_COLOR_TEMPERATURE,
        PayloadView::MoveToColorTemperature { mireds, transition },
    )
}

/// What a level sends.
pub open spec fn level_wire(level: u8, transition: u16) -> (u32, u32, PayloadView) {
    (CLUSTER_LEVEL_CONTROL, CMD_MOVE_TO_LEVEL, PayloadView::MoveToLevel { level, transition })
}

/// What a groupcast sends: cluster, command and fields.
pub open spec fn group_wire(kind: GroupOpKind) -> (u32, u32, PayloadView) {
    match kind {
        GroupOpKind::Invoke { cluster, command, fields_tlv, .. } => (
            cluster,
            command,
            tlv_payload(fields_tlv),
        ),
        GroupOpKind::Color { color, transition } => color_wire(color, transition),
        GroupOpKind::ColorTemp { mireds, transition, .. } => color_temp_wire(mireds, transition),
        GroupOpKind::Level { level, transition, .. } => level_wire(level, transition),
    }
}

/// What a color sends.
pub fn shortcut_color(color: &ResolvedColor, transition: u16) -> (w: (u32, u32, Payload))
    ensures
        (w.0, w.1, w.2@) == color_wire(*color, transition),
{
    (
        CLUSTER_COLOR_CONTROL,
        CMD_MOVE_TO_HUE_AND_SATURATION,
        Payload::MoveToHueAndSaturation {
            hue: color.hue_raw,
            saturation: color.sat_raw,
            transition,
        },
    )
}

/// What a color temperature sends.
pub fn shortcut_color_temp(mireds: u16, transition: u16) -> (w: (u32, u32, Payload))
    ensures
        (w.0, w.1, w.2@) == color_temp_wire(mireds, transition),
{
    (
        CLUSTER_COLOR_CONTROL,
        CMD_MOVE_TO_COLOR_TEMPERATURE,
        Payload::MoveToColorTemperature { mireds, transition },
    )
}

/// What a level sends.
pub fn shortcut_level(level: u8, transition: u16) -> (w: (u32, u32, Payload))
    ensures
        (w.0, w.1, w.2@) == level_wire(level, transition),
{
    (CLUSTER_LEVEL_CONTROL, CMD_MOVE_TO_LEVEL, Payload::MoveToLevel { level, transition })
}

impl GroupOpKind {
    /// A command, as its class resolves it. A groupcast is never timed.
    pub fn invoke(cluster_in: &str, command_in: &str, args: Vec<String>, class: InvokeClass) -> (r:
        Result<GroupOpKind, MatError>)
        ensures
            r is Ok <==> refused(class) is None,
            r matches Err(e) ==> refused(class) == Some(e@),
            r matches Ok(k) ==> is_group_invoke(k, cluster_in@, command_in@, args@, class),
    {
        match resolve_invoke(class) {
            Err(e) => Err(e),
            Ok(t) => Ok(
                GroupOpKind::Invoke {
                    cluster_in: cluster_in.to_owned(),
                    command_in: command_in.to_owned(),
                    args_in: args,
                    cluster: t.0,
                    command: t.1,
                    fields_tlv: t.2,
                },
            ),
        }
    }

    /// A color temperature in either unit.
    pub fn color_temp(kelvin: Option<u32>, mireds: Option<u16>, transition: u16) -> (k: GroupOpKind)
        requires
            kelvin is Some <==> mireds is None,
            kelvin matches Some(v) ==> v != 0,
            mireds matches Some(v) ==> v != 0,
        ensures
            k matches GroupOpKind::ColorTemp { kelvin: kv, mireds: m, transition: t } && t
                == transition && (m, kv) == color_temp_of(kelvin, mireds),
    {
        let (m, k) = resolve_color_temp(kelvin, mireds);
        GroupOpKind::ColorTemp { kelvin: k, mireds: m, transition }
    }

    /// A level in percent.
    pub fn level(percent: u8, transition: u16) -> (k: GroupOpKind)
        ensures
            k == (GroupOpKind::Level {
                percent,
                level: (level_of(percent as nat) % 256) as u8,
                transition,
            }),
    {
        GroupOpKind::Level { percent, level: resolve_level(percent), transition }
    }

    /// The name of the groupcast.
    pub open spec fn label(self) -> Seq<char> {
        match self {
            GroupOpKind::Invoke { .. } => "group_invoke"@,
            GroupOpKind::Color { .. } => "group_color"@,
            GroupOpKind::ColorTemp { .. } => "group_color_temp"@,
            GroupOpKind::Level { .. } => "group_level"@,
        }
    }

    /// The name of the groupcast, as the daemon spells it.
    pub fn name(&self) -> (s: &'static str)
        ensures
            s@ == self.label(),
    {
        match self {
            GroupOpKind::Invoke { .. } => "group_invoke",
            GroupOpKind::Color { .. } => "group_color",
            GroupOpKind::ColorTemp { .. } => "group_color_temp",
            GroupOpKind::Level { .. } => "group_level",
        }
    }

    /// What the groupcast sends.
    pub fn wire(&self) -> (w: (u32, u32, Payload))
        ensures
            (w.0, w.1, w.2@) == group_wire(*self),
    {
        match self {
            GroupOpKind::Invoke { cluster, command, fields_tlv, .. } => (
                *cluster,
                *command,
                payload_of(fields_tlv),
            ),
            GroupOpKind::Color { color, transition } => shortcut_color(color, *transition),
            GroupOpKind::ColorTemp { mireds, transition, .. } => shortcut_color_temp(
                *mireds,
                *transition,
            ),
            GroupOpKind::Level { level, transition, .. } => shortcut_level(*level, *transition),
        }
    }
}

/// What a node operation reports: an object, or what the report of a read of a
/// cluster, of a write, of the endpoints or of a window is made of.
#[derive(Debug, PartialEq, Eq)]
pub enum Body {
    Object(Json),
    ReadCluster {
        node_id: u64,
        endpoint: u16,
        cluster: String,
        cluster_id: u32,
        rows: Vec<(u32, Json)>,
    },
    Write { node_id: u64, endpoint: u16, cluster: String, attribute: String, value: String },
    Describe { node_id: u64, endpoints: NodeEndpoints },
    OpenWindow { node_id: u64, manual_code: String, qr_payload: String, timeout: u32 },
}

/// What a report says.
pub enum BodyView {
    Object(JsonView),
    ReadCluster {
        node_id: u64,
        endpoint: u16,
        cluster: Seq<char>,
        cluster_id: u32,
        rows: Seq<(u32, JsonView)>,
    },
    Write {
        node_id: u64,
        endpoint: u16,
        cluster: Seq<char>,
        attribute: Seq<char>,
        value: Seq<char>,
    },
    Describe { node_id: u64, endpoints: Seq<(u16, Seq<u64>)> },
    OpenWindow { node_id: u64, manual_code: Seq<char>, qr_payload: Seq<char>, timeout: u32 },
}

impl View for Body {
    type V = BodyView;

    open spec fn view(&self) -> BodyView {
        match *self {
            Body::Object(j) => BodyView::Object(j@),
            Body::ReadCluster {
                node_id,
                endpoint,
                cluster,
                cluster_id,
                rows,
            } => BodyView::ReadCluster {
                node_id,
                endpoint,
                cluster: cluster@,
                cluster_id,
                rows: row_views(rows@),
            },
            Body::Write { node_id, endpoint, cluster, attribute, value } => BodyView::Write {
                node_id,
                endpoint,
                cluster: cluster@,
                attribute: attribute@,
                value: value@,
            },
            Body::Describe { node_id, endpoints } => BodyView::Describe {
                node_id,
                endpoints: endpoints@,
            },
            Body::OpenWindow {
                node_id,
                manual_code,
                qr_payload,
                timeout,
            } => BodyView::OpenWindow {
                node_id,
                manual_code: manual_code@,
                qr_payload: qr_payload@,
                timeout,
            },
        }
    }
}

/// Where a node operation stands.
#[derive(Debug, PartialEq, Eq)]
pub enum NodePhase {
    /// Its only call is out.
    Single,
    Describe(Describe),
    /// The index of the own fabric is being read.
    FabricIndex,
    /// The fabric of this index is being removed.
    Removing(u8),
}

/// What a phase of a node operation says.
pub enum NodePhaseView {
    Single,
    Describe(DescribeView),
    FabricIndex,
    Removing(u8),
}

impl View for NodePhase {
    type V = NodePhaseView;

    open spec fn view(&self) -> NodePhaseView {
        match *self {
            NodePhase::Single => NodePhaseView::Single,
            NodePhase::Describe(d) => NodePhaseView::Describe(d@),
            NodePhase::FabricIndex => NodePhaseView::FabricIndex,
            NodePhase::Removing(i) => NodePhaseView::Removing(i),
        }
    }
}

impl NodePhase {
    /// A walk over the endpoints has one left to visit.
    pub open spec fn wf(self) -> bool {
        self matches NodePhase::Describe(d) ==> d.wf()
    }
}

/// An invoke on an endpoint that is not timed.
pub open spec fn untimed(endpoint: u16, w: (u32, u32, PayloadView)) -> CallView {
    CallView::Invoke { endpoint, cluster: w.0, command: w.1, fields: w.2, timed: false }
}

/// The first call of a node operation.
pub open spec fn first_call(kind: NodeOpKind) -> CallView {
    match kind {
        NodeOpKind::On { endpoint } => untimed(
            endpoint,
            (CLUSTER_ON_OFF, CMD_ON_OFF_ON, PayloadView::Empty),
        ),
        NodeOpKind::Off { endpoint } => untimed(
            endpoint,
            (CLUSTER_ON_OFF, CMD_ON_OFF_OFF, PayloadView::Empty),
        ),
        NodeOpKind::Color { endpoint, color, transition } => untimed(
            endpoint,
            color_wire(color, transition),
        ),
        NodeOpKind::ColorTemp { endpoint, mireds, transition, .. } => untimed(
            endpoint,
            color_temp_wire(mireds, transition),
        ),
        NodeOpKind::Level { endpoint, level, transition, .. } => untimed(
            endpoint,
            level_wire(level, transition),
        ),
        NodeOpKind::Read { endpoint, cluster, attribute, .. } => if cluster == CLUSTER_ON_OFF
            && attribute == ATTR_ON_OFF {
            CallView::ReadOnOff { endpoint }
        } else {
            CallView::ReadJson { endpoint, cluster, attribute }
        },
        NodeOpKind::ReadCluster { endpoint, cluster, .. } => CallView::ReadCluster {
            endpoint,
            cluster,
        },
        NodeOpKind::Write { endpoint, cluster, attribute, value, timed, .. } => CallView::WriteTlv {
            endpoint,
            cluster,
            attribute,
            data: PayloadView::Elems(encoded(Tag::Anonymous, value@)),
            timed,
        },
        NodeOpKind::Invoke {
            endpoint,
            cluster,
            command,
            fields_tlv,
            timed,
            ..
        } => CallView::Invoke {
            endpoint,
            cluster,
            command,
            fields: tlv_payload(fields_tlv),
            timed,
        },
        NodeOpKind::Describe => parts_list(),
        NodeOpKind::DiagThread { endpoint } => CallView::ReadCluster {
            endpoint,
            cluster: CLUSTER_THREAD_DIAG,
        },
        NodeOpKind::OpenWindow { timeout, iteration, discriminator } => CallView::OpenWindow {
            timeout_s: if timeout <= 65_535 {
                timeout as u16
            } else {
                65_535
            },
            discriminator,
            iterations: iteration,
        },
        NodeOpKind::RemoveFabric => CallView::ReadJson {
            endpoint: 0,
            cluster: CLUSTER_OPERATIONAL_CREDENTIALS,
            attribute: ATTR_CURRENT_FABRIC_INDEX,
        },
    }
}

/// The phase in which a node operation begins.
pub open spec fn first_phase(kind: NodeOpKind) -> NodePhaseView {
    match kind {
        NodeOpKind::Describe => NodePhaseView::Describe(DescribeView::Parts),
        NodeOpKind::RemoveFabric => NodePhaseView::FabricIndex,
        _ => NodePhaseView::Single,
    }
}

/// Whether a reply answers the call that a node operation waits for.
pub open spec fn node_expects(kind: NodeOpKind, phase: NodePhaseView, reply: Reply) -> bool {
    match phase {
        NodePhaseView::Single => !(kind is Describe) && !(kind is RemoveFabric) && fits(
            first_call(kind),
            reply,
        ),
        NodePhaseView::Describe(_) => reply is Value,
        NodePhaseView::FabricIndex => reply is Value,
        NodePhaseView::Removing(_) => reply is Noc,
    }
}

/// The value that a read gave.
pub open spec fn read_value(reply: Reply) -> Result<JsonView, ErrorView> {
    match reply {
        Reply::OnOff(Ok(b)) => Ok(JsonView::Bool(b)),
        Reply::OnOff(Err(e)) => Err(e@),
        Reply::Value(Ok(v)) => Ok(v@),
        Reply::Value(Err(e)) => Err(e@),
        _ => Err(error(ErrorKind::Other, Seq::empty())),
    }
}

/// The report of an operation whose command was carried out.
pub open spec fn command_body(op: NodeOp) -> BodyView {
    match op.kind {
        NodeOpKind::On { endpoint } => BodyView::Object(
            invoke_body(op.node_id, endpoint, "onoff"@, "on"@),
        ),
        NodeOpKind::Off { endpoint } => BodyView::Object(
            invoke_body(op.node_id, endpoint, "onoff"@, "off"@),
        ),
        NodeOpKind::Color { endpoint, color, transition } => BodyView::Object(
            color_body(op.node_id, endpoint, color, transition),
        ),
        NodeOpKind::ColorTemp { endpoint, kelvin, mireds, transition } => BodyView::Object(
            color_temp_body(op.node_id, endpoint, kelvin, mireds, transition),
        ),
        NodeOpKind::Level { endpoint, percent, level, transition } => BodyView::Object(
            level_body(op.node_id, endpoint, percent, level, transition),
        ),
        NodeOpKind::Write {
            endpoint,
            cluster_in,
            attribute_in,
            value_in,
            ..
        } => BodyView::Write {
            node_id: op.node_id,
            endpoint,
            cluster: cluster_in@,
            attribute: attribute_in@,
            value: value_in@,
        },
        NodeOpKind::Invoke { endpoint, cluster_in, command_in, .. } => BodyView::Object(
            invoke_body(op.node_id, endpoint, cluster_in@, command_in@),
        ),
        _ => BodyView::Object(JsonView::Null),
    }
}

/// The end of an operation with one call.
pub open spec fn single_end(op: NodeOp, attrs: ThreadAttributes, reply: Reply) -> ProgressView<
    NodePhaseView,
    BodyView,
> {
    match op.kind {
        NodeOpKind::Read { endpoint, cluster_in, attribute_in, .. } => match read_value(reply) {
            Err(e) => ProgressView::Fail(e),
            Ok(v) => ProgressView::Done(
                BodyView::Object(read_body(op.node_id, endpoint, cluster_in@, attribute_in@, v)),
            ),
        },
        NodeOpKind::ReadCluster { endpoint, cluster_in, cluster } => match reply->Rows_0 {
            Err(e) => ProgressView::Fail(e@),
            Ok(rows) => ProgressView::Done(
                BodyView::ReadCluster {
                    node_id: op.node_id,
                    endpoint,
                    cluster: cluster_in@,
                    cluster_id: cluster,
                    rows: row_views(rows@),
                },
            ),
        },
        NodeOpKind::DiagThread { endpoint } => match reply->Rows_0 {
            Err(e) => ProgressView::Fail(e@),
            Ok(rows) => ProgressView::Done(
                BodyView::Object(
                    diag_thread_body(
                        op.node_id,
                        endpoint,
                        snapshot(row_views(rows@), attrs).fields,
                        Seq::empty(),
                    ),
                ),
            ),
        },
        NodeOpKind::OpenWindow { timeout, .. } => match reply->Codes_0 {
            Err(e) => ProgressView::Fail(e@),
            Ok(codes) => ProgressView::Done(
                BodyView::OpenWindow {
                    node_id: op.node_id,
                    manual_code: codes.0@,
                    qr_payload: codes.1@,
                    timeout,
                },
            ),
        },
        _ => match reply->Unit_0 {
            Err(e) => ProgressView::Fail(e@),
            Ok(_) => ProgressView::Done(command_body(op)),
        },
    }
}

/// The index of the own fabric in what was read.
pub open spec fn fabric_index(v: JsonView) -> Result<u8, ErrorView> {
    match v.as_u64() {
        Some(n) if n <= 255 => Ok(n as u8),
        _ => Err(
            error(ErrorKind::ParseError, "current-fabric-index is not a u8: "@ + json_text(v)),
        ),
    }
}

/// The refusal of a node to remove the fabric.
pub open spec fn not_removed(node_id: u64, status: u8, index: u8) -> ErrorView {
    error(
        ErrorKind::DeviceRejected,
        "RemoveFabric rejected by node "@ + text::dec(node_id as nat) + ": NOCResponse status 0x"@
            + text::hex2(status) + " (fabric_index "@ + text::dec(index as nat) + ")"@,
    )
}

/// The call that removes the fabric of an index.
pub open spec fn remove_fabric_call(index: u8) -> CallView {
    CallView::InvokeForNoc {
        endpoint: 0,
        cluster: CLUSTER_OPERATIONAL_CREDENTIALS,
        command: CMD_REMOVE_FABRIC,
        fields: PayloadView::RemoveFabric { fabric_index: index },
        timed: false,
    }
}

/// What follows in a node operation when a reply came in.
pub open spec fn node_step(
    op: NodeOp,
    attrs: ThreadAttributes,
    phase: NodePhaseView,
    reply: Reply,
) -> ProgressView<NodePhaseView, BodyView> {
    match phase {
        NodePhaseView::Single => single_end(op, attrs, reply),
        NodePhaseView::Describe(d) => match describe_step(d, value_view(reply->Value_0)) {
            ProgressView::Call(next, c) => ProgressView::Call(NodePhaseView::Describe(next), c),
            ProgressView::Done(endpoints) => ProgressView::Done(
                BodyView::Describe { node_id: op.node_id, endpoints },
            ),
            ProgressView::Fail(e) => ProgressView::Fail(e),
        },
        NodePhaseView::FabricIndex => match reply->Value_0 {
            Err(e) => ProgressView::Fail(e@),
            Ok(v) => match fabric_index(v@) {
                Err(e) => ProgressView::Fail(e),
                Ok(i) => ProgressView::Call(NodePhaseView::Removing(i), remove_fabric_call(i)),
            },
        },
        NodePhaseView::Removing(i) => match reply->Noc_0 {
            Err(e) => ProgressView::Fail(e@),
            Ok(NocAnswer::Unreadable(what)) => ProgressView::Fail(
                error(ErrorKind::ParseError, "RemoveFabric response: "@ + what@),
            ),
            Ok(NocAnswer::Status(s)) => if s == 0 {
                ProgressView::Done(BodyView::Object(unpair_body(i)))
            } else {
                ProgressView::Fail(not_removed(op.node_id, s, i))
            },
        },
    }
}

fn invoke_call(endpoint: u16, w: (u32, u32, Payload)) -> (c: Call)
    ensures
        c@ == untimed(endpoint, (w.0, w.1, w.2@)),
{
    Call::Invoke { endpoint, cluster: w.0, command: w.1, fields: w.2, timed: false }
}

/// Begins a node operation.
pub fn run_node_op(op: &NodeOp) -> (r: (NodePhase, Call))
    ensures
        r.0@ == first_phase(op.kind),
        r.0.wf(),
        r.1@ == first_call(op.kind),
{
    let call = match &op.kind {
        NodeOpKind::On { endpoint } => invoke_call(
            *endpoint,
            (CLUSTER_ON_OFF, CMD_ON_OFF_ON, Payload::Empty),
        ),
        NodeOpKind::Off { endpoint } => invoke_call(
            *endpoint,
            (CLUSTER_ON_OFF, CMD_ON_OFF_OFF, Payload::Empty),
        ),
        NodeOpKind::Color { endpoint, color, transition } => invoke_call(
            *endpoint,
            shortcut_color(color, *transition),
        ),
        NodeOpKind::ColorTemp { endpoint, mireds, transition, .. } => invoke_call(
            *endpoint,
            shortcut_color_temp(*mireds, *transition),
        ),
        NodeOpKind::Level { endpoint, level, transition, .. } => invoke_call(
            *endpoint,
            shortcut_level(*level, *transition),
        ),
        NodeOpKind::Read { endpoint, cluster, attribute, .. } => if *cluster == CLUSTER_ON_OFF
            && *attribute == ATTR_ON_OFF {
            Call::ReadOnOff { endpoint: *endpoint }
        } else {
            Call::ReadJson { endpoint: *endpoint, cluster: *cluster, attribute: *attribute }
        },
        NodeOpKind::ReadCluster { endpoint, cluster, .. } => Call::ReadCluster {
            endpoint: *endpoint,
            cluster: *cluster,
        },
        NodeOpKind::Write { endpoint, cluster, attribute, value, timed, .. } => Call::WriteTlv {
            endpoint: *endpoint,
            cluster: *cluster,
            attribute: *attribute,
            data: Payload::Elems(arg_value_to_tlv(value)),
            timed: *timed,
        },
        NodeOpKind::Invoke { endpoint, cluster, command, fields_tlv, timed, .. } => Call::Invoke {
            endpoint: *endpoint,
            cluster: *cluster,
            command: *command,
            fields: payload_of(fields_tlv),
            timed: *timed,
        },
        NodeOpKind::Describe => {
            let (d, c) = describe();
            return (NodePhase::Describe(d), c);
        },
        NodeOpKind::DiagThread { endpoint } => Call::ReadCluster {
            endpoint: *endpoint,
            cluster: CLUSTER_THREAD_DIAG,
        },
        NodeOpKind::OpenWindow { timeout, iteration, discriminator } => Call::OpenWindow {
            timeout_s: if *timeout <= 65_535 {
                *timeout as u16
            } else {
                65_535
            },
            discriminator: *discriminator,
            iterations: *iteration,
        },
        NodeOpKind::RemoveFabric => {
            return (
                NodePhase::FabricIndex,
                Call::ReadJson {
                    endpoint: 0,
                    cluster: CLUSTER_OPERATIONAL_CREDENTIALS,
                    attribute: ATTR_CURRENT_FABRIC_INDEX,
                },
            );
        },
    };
    (NodePhase::Single, call)
}

fn report_command(op: &NodeOp) -> (b: Body)
    ensures
        b@ == command_body(*op),
{
    match &op.kind {
        NodeOpKind::On { endpoint } => Body::Object(
            invoke_success(op.node_id, *endpoint, "onoff", "on"),
        ),
        NodeOpKind::Off { endpoint } => Body::Object(
            invoke_success(op.node_id, *endpoint, "onoff", "off"),
        ),
        NodeOpKind::Color { endpoint, color, transition } => Body::Object(
            color_success(op.node_id, *endpoint, color, *transition),
        ),
        NodeOpKind::ColorTemp { endpoint, kelvin, mireds, transition } => Body::Object(
            color_temp_success(op.node_id, *endpoint, *kelvin, *mireds, *transition),
        ),
        NodeOpKind::Level { endpoint, percent, level, transition } => Body::Object(
            level_success(op.node_id, *endpoint, *percent, *level, *transition),
        ),
        NodeOpKind::Write { endpoint, cluster_in, attribute_in, value_in, .. } => Body::Write {
            node_id: op.node_id,
            endpoint: *endpoint,
            cluster: cluster_in.clone(),
            attribute: attribute_in.clone(),
            value: value_in.clone(),
        },
        NodeOpKind::Invoke { endpoint, cluster_in, command_in, .. } => Body::Object(
            invoke_success(op.node_id, *endpoint, cluster_in.as_str(), command_in.as_str()),
        ),
        _ => Body::Object(Json::Null),
    }
}

fn end_single(op: &NodeOp, attrs: &ThreadAttributes, reply: Reply) -> (r: Progress<NodePhase, Body>)
    requires
        node_expects(op.kind, NodePhaseView::Single, reply),
    ensures
        r@ == single_end(*op, *attrs, reply),
        !(r is Call),
{
    match &op.kind {
        NodeOpKind::Read { endpoint, cluster_in, attribute_in, cluster, attribute } => {
            let value = if *cluster == CLUSTER_ON_OFF && *attribute == ATTR_ON_OFF {
                match reply.on_off() {
                    Err(e) => {
                        return Progress::Fail(e);
                    },
                    Ok(b) => Json::Bool(b),
                }
            } else {
                match reply.value() {
                    Err(e) => {
                        return Progress::Fail(e);
                    },
                    Ok(v) => v,
                }
            };
            Progress::Done(
                Body::Object(
                    read_success(
                        op.node_id,
                        *endpoint,
                        cluster_in.as_str(),
                        attribute_in.as_str(),
                        value,
                    ),
                ),
            )
        },
        NodeOpKind::ReadCluster { endpoint, cluster_in, cluster } => match reply.rows() {
            Err(e) => Progress::Fail(e),
            Ok(rows) => Progress::Done(
                Body::ReadCluster {
                    node_id: op.node_id,
                    endpoint: *endpoint,
                    cluster: cluster_in.clone(),
                    cluster_id: *cluster,
                    rows,
                },
            ),
        },
        NodeOpKind::DiagThread { endpoint } => match reply.rows() {
            Err(e) => Progress::Fail(e),
            Ok(rows) => {
                let snap = diag_thread(&rows, attrs);
                let none: Vec<Json> = Vec::new();
                assert(crate::json::json_views(none@) =~= Seq::empty());
                Progress::Done(
                    Body::Object(
                        diag_thread_success(op.node_id, *endpoint, snap.fields, none),
                    ),
                )
            },
        },
        NodeOpKind::OpenWindow { timeout, .. } => match reply.codes() {
            Err(e) => Progress::Fail(e),
            Ok(codes) => Progress::Done(
                Body::OpenWindow {
                    node_id: op.node_id,
                    manual_code: codes.0,
                    qr_payload: codes.1,
                    timeout: *timeout,
                },
            ),
        },
        _ => match reply.unit() {
            Err(e) => Progress::Fail(e),
            Ok(_) => Progress::Done(report_command(op)),
        },
    }
}

/// Goes on with a node operation when a reply came in.
pub fn run_node_op_next(
    op: &NodeOp,
    attrs: &ThreadAttributes,
    phase: NodePhase,
    reply: Reply,
) -> (r: Progress<NodePhase, Body>)
    requires
        phase.wf(),
        node_expects(op.kind, phase@, reply),
    ensures
        r@ == node_step(*op, *attrs, phase@, reply),
        r matches Progress::Call(next, _) ==> next.wf(),
{
    match phase {
        NodePhase::Single => end_single(op, attrs, reply),
        NodePhase::Describe(d) => match describe_next(d, reply.value()) {
            Progress::Call(next, c) => Progress::Call(NodePhase::Describe(next), c),
            Progress::Done(endpoints) => Progress::Done(
                Body::Describe { node_id: op.node_id, endpoints },
            ),
            Progress::Fail(e) => Progress::Fail(e),
        },
        NodePhase::FabricIndex => match reply.value() {
            Err(e) => Progress::Fail(e),
            Ok(v) => {
                if let Some(n) = v.as_u64() {
                    if n <= 255 {
                        let i: u8 = n as u8;
                        return Progress::Call(
                            NodePhase::Removing(i),
                            Call::InvokeForNoc {
                                endpoint: 0,
                                cluster: CLUSTER_OPERATIONAL_CREDENTIALS,
                                command: CMD_REMOVE_FABRIC,
                                fields: Payload::RemoveFabric { fabric_index: i },
                                timed: false,
                            },
                        );
                    }
                }
                Progress::Fail(
                    MatError::parse_error(
                        "current-fabric-index is not a u8: ".to_owned().concat(&render(&v)),
                    ),
                )
            },
        },
        NodePhase::Removing(i) => match reply.noc() {
            Err(e) => Progress::Fail(e),
            Ok(NocAnswer::Unreadable(what)) => Progress::Fail(
                MatError::parse_error("RemoveFabric response: ".to_owned().concat(&what)),
            ),
            Ok(NocAnswer::Status(s)) => if s == 0 {
                Progress::Done(Body::Object(unpair_device(i)))
            } else {
                Progress::Fail(
                    MatError::new(
                        ErrorKind::DeviceRejected,
                        "RemoveFabric rejected by node ".to_owned().concat(
                            &text::decimal(op.node_id),
                        ).concat(": NOCResponse status 0x").concat(&text::hex_byte(s)).concat(
                            " (fabric_index ",
                        ).concat(&text::decimal(i as u64)).concat(")"),
                    ),
                )
            },
        },
    }
}

/// A failed reply ends a node operation with that failure unchanged.
pub proof fn law_failures_pass_through(
    op: NodeOp,
    attrs: ThreadAttributes,
    phase: NodePhaseView,
    reply: Reply,
    e: MatError,
)
    requires
        node_expects(op.kind, phase, reply),
        reply == Reply::Unit(Err(e)) || reply == Reply::OnOff(Err(e)) || reply == Reply::Value(
            Err(e),
        ) || reply == Reply::Rows(Err(e)) || reply == Reply::Codes(Err(e)) || reply == Reply::Noc(
            Err(e),
        ),
    ensures
        node_step(op, attrs, phase, reply) == ProgressView::<NodePhaseView, BodyView>::Fail(e@),
{
}

/// The fabric that a node removes is the one whose index it reported.
pub proof fn law_removes_the_reported_fabric(
    op: NodeOp,
    attrs: ThreadAttributes,
    v: Json,
    phase: NodePhaseView,
    c: CallView,
)
    requires
        node_step(op, attrs, NodePhaseView::FabricIndex, Reply::Value(Ok(v)))
            == ProgressView::<NodePhaseView, BodyView>::Call(phase, c),
    ensures
        v@.as_u64() matches Some(n) && n <= 255 && c == remove_fabric_call(n as u8) && phase
            == NodePhaseView::Removing(n as u8),
{
}

/// A color, a color temperature and a level are sent to a node and to a group
/// in the same way.
pub proof fn law_node_and_group_share_the_wire(
    endpoint: u16,
    color: ResolvedColor,
    kelvin: u32,
    mireds: u16,
    percent: u8,
    level: u8,
    transition: u16,
)
    ensures
        first_call(NodeOpKind::Color { endpoint, color, transition }) == untimed(
            endpoint,
            group_wire(GroupOpKind::Color { color, transition }),
        ),
        first_call(NodeOpKind::ColorTemp { endpoint, kelvin, mireds, transition }) == untimed(
            endpoint,
            group_wire(GroupOpKind::ColorTemp { kelvin, mireds, transition }),
        ),
        first_call(NodeOpKind::Level { endpoint, percent, level, transition }) == untimed(
            endpoint,
            group_wire(GroupOpKind::Level { percent, level, transition }),
        ),
{
}

/// Begins a groupcast: what to send, or the failure where the controller has no
/// group context.
pub fn run_group_op(op: &GroupOp, configured: bool) -> (r: Result<(u32, u32, Payload), MatError>)
    ensures
        r is Ok <==> configured,
        r matches Err(e) ==> e@ == group_ctx_unconfigured(),
        r matches Ok(w) ==> (w.0, w.1, w.2@) == group_wire(op.kind),
{
    if configured {
        Ok(op.kind.wire())
    } else {
        Err(MatError::group_ctx_unconfigured())
    }
}

/// What is reported of a groupcast that went out.
#[derive(Debug, PartialEq, Eq)]
pub struct SentBody {
    pub group_id: u16,
    pub endpoint: u16,
    pub echo: SentEcho,
    /// The interfaces that it went out on.
    pub egress: Vec<String>,
}

/// What a report repeats of a groupcast.
#[derive(Debug, PartialEq, Eq)]
pub enum SentEcho {
    Invoke { cluster: String, command: String },
    Color { color: ResolvedColor, transition: u16 },
    ColorTemp { kelvin: u32, mireds: u16, transition: u16 },
    Level { percent: u8, level: u8, transition: u16 },
}

/// What a report repeats of a groupcast: a command by the names that were
/// given, a shortcut by what it was made of.
pub open spec fn repeats(echo: SentEcho, kind: GroupOpKind) -> bool {
    match (echo, kind) {
        (
            SentEcho::Invoke { cluster, command },
            GroupOpKind::Invoke { cluster_in, command_in, .. },
        ) => cluster@ == cluster_in@ && command@ == command_in@,
        (
            SentEcho::Color { color, transition },
            GroupOpKind::Color { color: c, transition: t },
        ) => color == c && transition == t,
        (
            SentEcho::ColorTemp { kelvin, mireds, transition },
            GroupOpKind::ColorTemp { kelvin: k, mireds: m, transition: t },
        ) => kelvin == k && mireds == m && transition == t,
        (
            SentEcho::Level { percent, level, transition },
            GroupOpKind::Level { percent: p, level: l, transition: t },
        ) => percent == p && level == l && transition == t,
        _ => false,
    }
}

impl GroupOp {
    /// What is reported of the groupcast once it went out.
    pub fn sent_body(&self, egress: Vec<String>) -> (b: SentBody)
        ensures
            b.group_id == self.group_id,
            b.endpoint == self.endpoint,
            b.egress == egress,
            repeats(b.echo, self.kind),
    {
        let echo = match &self.kind {
            GroupOpKind::Invoke { cluster_in, command_in, .. } => SentEcho::Invoke {
                cluster: cluster_in.clone(),
                command: command_in.clone(),
            },
            GroupOpKind::Color { color, transition } => SentEcho::Color {
                color: color.clone(),
                transition: *transition,
            },
            GroupOpKind::ColorTemp { kelvin, mireds, transition } => SentEcho::ColorTemp {
                kelvin: *kelvin,
                mireds: *mireds,
                transition: *transition,
            },
            GroupOpKind::Level { percent, level, transition } => SentEcho::Level {
                percent: *percent,
                level: *level,
                transition: *transition,
            },
        };
        SentBody { group_id: self.group_id, endpoint: self.endpoint, echo, egress }
    }
}

/// Ends a groupcast: the report with the interfaces that it went out on, or why
/// it did not.
pub fn group_op_sent(op: &GroupOp, outcome: Result<GroupOutcome, MatError>) -> (r: Result<
    SentBody,
    MatError,
>)
    ensures
        outcome matches Err(e) ==> r == Err::<SentBody, MatError>(e),
        outcome matches Ok(GroupOutcome::Sent { egress }) ==> (r matches Ok(b) && b.group_id
            == op.group_id && b.endpoint == op.endpoint && b.egress == egress && repeats(
            b.echo,
            op.kind,
        )),
        outcome matches Ok(GroupOutcome::Unavailable(reason)) ==> (r matches Err(e) && e@
            == group_unavailable(reason@)),
{
    match outcome {
        Err(e) => Err(e),
        Ok(GroupOutcome::Sent { egress }) => Ok(op.sent_body(egress)),
        Ok(GroupOutcome::Unavailable(reason)) => Err(MatError::group_unavailable(&reason)),
    }
}

/// Ends a jump of the group counter: from where to where, or why not. Without
/// a group context there is no outcome.
pub fn run_group_bump(outcome: Option<BumpOutcome>) -> (r: Result<(u32, u32), MatError>)
    ensures
        match outcome {
            None => r matches Err(e) && e@ == group_ctx_unconfigured(),
            Some(BumpOutcome::Bumped { from, to }) => r == Ok::<(u32, u32), MatError>((from, to)),
            Some(BumpOutcome::Unavailable(reason)) => r matches Err(e) && e@ == group_unavailable(
                reason@,
            ),
        },
{
    match outcome {
        None => Err(MatError::group_ctx_unconfigured()),
        Some(BumpOutcome::Bumped { from, to }) => Ok((from, to)),
        Some(BumpOutcome::Unavailable(reason)) => Err(MatError::group_unavailable(&reason)),
    }
}

/// A switch, a colour, a temperature and a level go to the endpoint that was
/// asked for, each as its command of its cluster and with the values that were
/// asked for.
pub proof fn law_commands_go_where_they_were_asked(
    endpoint: u16,
    color: ResolvedColor,
    kelvin: u32,
    mireds: u16,
    percent: u8,
    level: u8,
    transition: u16,
)
    ensures
        first_call(NodeOpKind::On { endpoint }) == (CallView::Invoke {
            endpoint,
            cluster: 0x0006,
            command: 0x01,
            fields: PayloadView::Empty,
            timed: false,
        }),
        first_call(NodeOpKind::Off { endpoint }) == (CallView::Invoke {
            endpoint,
            cluster: 0x0006,
            command: 0x00,
            fields: PayloadView::Empty,
            timed: false,
        }),
        first_call(NodeOpKind::Color { endpoint, color, transition }) == (CallView::Invoke {
            endpoint,
            cluster: 0x0300,
            command: 0x06,
            fields: PayloadView::MoveToHueAndSaturation {
                hue: color.hue_raw,
                saturation: color.sat_raw,
                transition,
            },
            timed: false,
        }),
        first_call(NodeOpKind::ColorTemp { endpoint, kelvin, mireds, transition }) == (
        CallView::Invoke {
            endpoint,
            cluster: 0x0300,
            command: 0x0A,
            fields: PayloadView::MoveToColorTemperature { mireds, transition },
            timed: false,
        }),
        first_call(NodeOpKind::Level { endpoint, percent, level, transition }) == (
        CallView::Invoke {
            endpoint,
            cluster: 0x0008,
            command: 0x00,
            fields: PayloadView::MoveToLevel { level, transition },
            timed: false,
        }),
{
}

/// A read asks for the attribute, or the cluster, that was asked for; a switch
/// is read as a truth value.
pub proof fn law_reads_go_where_they_were_asked(kind: NodeOpKind)
    ensures
        kind matches NodeOpKind::Read { endpoint, cluster, attribute, .. } ==> first_call(kind)
            == if cluster == 0x0006 && attribute == 0 {
            CallView::ReadOnOff { endpoint }
        } else {
            CallView::ReadJson { endpoint, cluster, attribute }
        },
        kind matches NodeOpKind::ReadCluster { endpoint, cluster, .. } ==> first_call(kind) == (
        CallView::ReadCluster { endpoint, cluster }),
        kind matches NodeOpKind::DiagThread { endpoint } ==> first_call(kind) == (
        CallView::ReadCluster { endpoint, cluster: 0x0035 }),
        kind is Describe ==> first_call(kind) == (CallView::ReadJson {
            endpoint: 0,
            cluster: 0x001D,
            attribute: 3,
        }),
{
}

/// A write sends the value that was asked for: its payload reads as that value
/// and nothing more.
pub proof fn law_write_sends_the_value(kind: NodeOpKind)
    requires
        kind is Write,
    ensures
        kind matches NodeOpKind::Write { endpoint, cluster, attribute, value, timed, .. } && (
        first_call(kind) matches CallView::WriteTlv {
            endpoint: ep,
            cluster: cl,
            attribute: at,
            data,
            timed: t,
        } && ep == endpoint && cl == cluster && at == attribute && t == timed && (
        data matches PayloadView::Elems(v) && decoded(v, 0) == Some(
            (Tag::Anonymous, value@, v.len() as int),
        ))),
{
    law_encoding_reads_back(Tag::Anonymous, kind->Write_value@);
}

/// A command is sent as it was classified: its cluster, its command, its
/// arguments one by one under their positions, timed if either asks for it. The
/// same holds of a command to a group.
pub proof fn law_invoke_sends_the_arguments(
    k: NodeOpKind,
    g: GroupOpKind,
    endpoint: u16,
    cluster_in: Seq<char>,
    command_in: Seq<char>,
    args: Seq<String>,
    class: InvokeClass,
    timed_override: bool,
)
    requires
        is_invoke(k, endpoint, cluster_in, command_in, args, class, timed_override),
        is_group_invoke(g, cluster_in, command_in, args, class),
    ensures
        class matches InvokeClass::Native { cluster, command, fields, timed } && (first_call(
            k,
        ) matches CallView::Invoke {
            endpoint: ep,
            cluster: cl,
            command: co,
            fields: data,
            timed: t,
        } && ep == endpoint && cl == cluster && co == command && t == (timed || timed_override)
            && sends_arguments(data, fields@)) && group_wire(g).0 == cluster && group_wire(g).1
            == command && sends_arguments(group_wire(g).2, fields@),
{
    if let InvokeClass::Native { fields, .. } = class {
        let s = ArgView::Struct(positional(arg_views(fields@)));
        law_encoding_reads_back(Tag::Anonymous, s);
        assert forall|i: int| 0 <= i < fields@.len() implies (#[trigger] positional(
            arg_views(fields@),
        )[i]).1 == fields@[i]@ && (i < 256 ==> positional(arg_views(fields@))[i].0 == i) by {
            law_arguments_stand_under_their_positions(arg_views(fields@), i);
        }
    }
}

/// Whether a payload is that of some arguments: none at all, or a struct with
/// each argument under its position.
pub open spec fn sends_arguments(data: PayloadView, fields: Seq<ArgValue>) -> bool {
    if fields.len() == 0 {
        data is Empty
    } else {
        data matches PayloadView::Elems(v) && (decoded(v, 0) matches Some((tag, x, n)) && tag
            == Tag::Anonymous && n == v.len() && (x matches ArgView::Struct(s) && s.len()
            == fields.len() && forall|i: int|
            0 <= i < s.len() ==> (#[trigger] s[i]).1 == fields[i]@ && (i < 256 ==> s[i].0 == i)))
    }
}

/// A group's colour, temperature and level are sent with the values that were
/// asked for.
pub proof fn law_group_commands_carry_their_values(
    color: ResolvedColor,
    kelvin: u32,
    mireds: u16,
    percent: u8,
    level: u8,
    transition: u16,
)
    ensures
        group_wire(GroupOpKind::Color { color, transition }) == (
            0x0300u32,
            0x06u32,
            PayloadView::MoveToHueAndSaturation {
                hue: color.hue_raw,
                saturation: color.sat_raw,
                transition,
            },
        ),
        group_wire(GroupOpKind::ColorTemp { kelvin, mireds, transition }) == (
            0x0300u32,
            0x0Au32,
            PayloadView::MoveToColorTemperature { mireds, transition },
        ),
        group_wire(GroupOpKind::Level { percent, level, transition }) == (
            0x0008u32,
            0x00u32,
            PayloadView::MoveToLevel { level, transition },
        ),
{
}

/// A window is opened for the time that was asked for, or for as long as
/// sixteen bits of seconds allow, with the discriminator and the iterations that
/// were asked for.
pub proof fn law_window_is_opened_as_asked(timeout: u32, iteration: u32, discriminator: u16)
    ensures
        first_call(NodeOpKind::OpenWindow { timeout, iteration, discriminator }) matches CallView::OpenWindow {
            timeout_s,
            discriminator: d,
            iterations,
        } && d == discriminator && iterations == iteration && (timeout <= 65_535 ==> timeout_s
            == timeout) && (timeout > 65_535 ==> timeout_s == 65_535),
{
}

/// To leave its fabric a node is asked which one it is in, and then told to
/// remove that one; the report names it.
pub proof fn law_leaving_removes_the_current_fabric(
    op: NodeOp,
    attrs: ThreadAttributes,
    v: Json,
    n: u8,
)
    requires
        op.kind is RemoveFabric,
        v@ == JsonView::UInt(n as u64),
    ensures
        first_call(op.kind) == (CallView::ReadJson { endpoint: 0, cluster: 0x003E, attribute: 5 }),
        node_step(op, attrs, NodePhaseView::FabricIndex, Reply::Value(Ok(v))) == ProgressView::<
            NodePhaseView,
            BodyView,
        >::Call(
            NodePhaseView::Removing(n),
            CallView::InvokeForNoc {
                endpoint: 0,
                cluster: 0x003E,
                command: 0x0A,
                fields: PayloadView::RemoveFabric { fabric_index: n },
                timed: false,
            },
        ),
        node_step(
            op,
            attrs,
            NodePhaseView::Removing(n),
            Reply::Noc(Ok(NocAnswer::Status(0))),
        ) matches ProgressView::Done(BodyView::Object(b)) && b.get("fabric_index"@) == Some(
            JsonView::UInt(n as u64),
        ) && b.get("removed"@) == Some(JsonView::Bool(true)),
        forall|s: u8|
            s != 0 ==> (#[trigger] node_step(
                op,
                attrs,
                NodePhaseView::Removing(n),
                Reply::Noc(Ok(NocAnswer::Status(s))),
            ) matches ProgressView::Fail(e) && e.kind == ErrorKind::DeviceRejected),
{
    law_unpair_report_by_name(n);
}

/// The report of a command that the node took names the node, the endpoint and
/// what was done, in the caller's own words.
pub proof fn law_report_names_the_command(op: NodeOp, attrs: ThreadAttributes)
    requires
        op.kind is On || op.kind is Off || op.kind is Invoke || op.kind is Write || op.kind is Color
            || op.kind is ColorTemp || op.kind is Level,
    ensures
        node_step(op, attrs, NodePhaseView::Single, Reply::Unit(Ok(()))) matches ProgressView::Done(
            b,
        ) && (match op.kind {
            NodeOpKind::On { endpoint } => is_report(b, op.node_id, endpoint, "onoff"@, "on"@),
            NodeOpKind::Off { endpoint } => is_report(b, op.node_id, endpoint, "onoff"@, "off"@),
            NodeOpKind::Invoke { endpoint, cluster_in, command_in, .. } => is_report(
                b,
                op.node_id,
                endpoint,
                cluster_in@,
                command_in@,
            ),
            NodeOpKind::Color { endpoint, color, transition } => is_report(
                b,
                op.node_id,
                endpoint,
                "colorcontrol"@,
                "move-to-hue-and-saturation"@,
            ) && b->Object_0.get("hue_raw"@) == Some(JsonView::UInt(color.hue_raw as u64))
                && b->Object_0.get("saturation_raw"@) == Some(
                JsonView::UInt(color.sat_raw as u64),
            ) && b->Object_0.get("transition"@) == Some(JsonView::UInt(transition as u64)),
            NodeOpKind::ColorTemp { endpoint, kelvin, mireds, transition } => is_report(
                b,
                op.node_id,
                endpoint,
                "colorcontrol"@,
                "move-to-color-temperature"@,
            ) && b->Object_0.get("kelvin"@) == Some(JsonView::UInt(kelvin as u64))
                && b->Object_0.get("mireds"@) == Some(JsonView::UInt(mireds as u64))
                && b->Object_0.get("transition"@) == Some(JsonView::UInt(transition as u64)),
            NodeOpKind::Level { endpoint, percent, level, transition } => is_report(
                b,
                op.node_id,
                endpoint,
                "levelcontrol"@,
                "move-to-level"@,
            ) && b->Object_0.get("percent"@) == Some(JsonView::UInt(percent as u64))
                && b->Object_0.get("level"@) == Some(JsonView::UInt(level as u64))
                && b->Object_0.get("transition"@) == Some(JsonView::UInt(transition as u64)),
            NodeOpKind::Write { endpoint, cluster_in, attribute_in, value_in, .. } => b == (
            BodyView::Write {
                node_id: op.node_id,
                endpoint,
                cluster: cluster_in@,
                attribute: attribute_in@,
                value: value_in@,
            }),
            _ => true,
        }),
{
    match op.kind {
        NodeOpKind::On { endpoint } => {
            law_invoke_report_by_name(op.node_id, endpoint, "onoff"@, "on"@);
        },
        NodeOpKind::Off { endpoint } => {
            law_invoke_report_by_name(op.node_id, endpoint, "onoff"@, "off"@);
        },
        NodeOpKind::Invoke { endpoint, cluster_in, command_in, .. } => {
            law_invoke_report_by_name(op.node_id, endpoint, cluster_in@, command_in@);
        },
        NodeOpKind::Color { endpoint, color, transition } => {
            law_color_report_by_name(op.node_id, endpoint, color, transition);
        },
        NodeOpKind::ColorTemp { endpoint, kelvin, mireds, transition } => {
            law_color_temp_report_by_name(op.node_id, endpoint, kelvin, mireds, transition);
        },
        NodeOpKind::Level { endpoint, percent, level, transition } => {
            law_level_report_by_name(op.node_id, endpoint, percent, level, transition);
        },
        _ => {},
    }
}

/// Whether a report is that of a command on an endpoint of a node.
pub open spec fn is_report(
    b: BodyView,
    node_id: u64,
    endpoint: u16,
    cluster: Seq<char>,
    command: Seq<char>,
) -> bool {
    b matches BodyView::Object(j) && j.get("node_id"@) == Some(JsonView::UInt(node_id)) && j.get(
        "endpoint"@,
    ) == Some(JsonView::UInt(endpoint as u64)) && j.get("cluster"@) == Some(
        JsonView::Str(cluster),
    ) && j.get("command"@) == Some(JsonView::Str(command)) && j.get("status"@) == Some(
        JsonView::Str("success"@),
    )
}

/// The report of a read holds the value that the node gave, under the names
/// that the caller used.
pub proof fn law_report_holds_what_was_read(op: NodeOp, attrs: ThreadAttributes, reply: Reply)
    ensures
        op.kind matches NodeOpKind::Read { endpoint, cluster_in, attribute_in, .. } ==> (
        reply matches Reply::Value(Ok(v)) ==> (node_step(
            op,
            attrs,
            NodePhaseView::Single,
            reply,
        ) matches ProgressView::Done(BodyView::Object(b)) && b.get("node_id"@) == Some(
            JsonView::UInt(op.node_id),
        ) && b.get("endpoint"@) == Some(JsonView::UInt(endpoint as u64)) && b.get("cluster"@)
            == Some(JsonView::Str(cluster_in@)) && b.get("attribute"@) == Some(
            JsonView::Str(attribute_in@),
        ) && b.get("value"@) == Some(v@))),
        op.kind is Read ==> (reply matches Reply::OnOff(Ok(on)) ==> (node_step(
            op,
            attrs,
            NodePhaseView::Single,
            reply,
        ) matches ProgressView::Done(BodyView::Object(b)) && b.get("value"@) == Some(
            JsonView::Bool(on),
        ))),
        op.kind matches NodeOpKind::ReadCluster { endpoint, cluster_in, cluster } ==> (
        reply matches Reply::Rows(Ok(rows)) ==> node_step(
            op,
            attrs,
            NodePhaseView::Single,
            reply,
        ) == ProgressView::<NodePhaseView, BodyView>::Done(
            BodyView::ReadCluster {
                node_id: op.node_id,
                endpoint,
                cluster: cluster_in@,
                cluster_id: cluster,
                rows: row_views(rows@),
            },
        )),
        op.kind matches NodeOpKind::OpenWindow { timeout, .. } ==> (reply matches Reply::Codes(
            Ok(codes),
        ) ==> node_step(op, attrs, NodePhaseView::Single, reply) == ProgressView::<
            NodePhaseView,
            BodyView,
        >::Done(
            BodyView::OpenWindow {
                node_id: op.node_id,
                manual_code: codes.0@,
                qr_payload: codes.1@,
                timeout,
            },
        )),
        op.kind matches NodeOpKind::DiagThread { endpoint } ==> (reply matches Reply::Rows(
            Ok(rows),
        ) ==> (node_step(op, attrs, NodePhaseView::Single, reply) matches ProgressView::Done(
            BodyView::Object(b),
        ) && b.get("node_id"@) == Some(JsonView::UInt(op.node_id)) && b.get("endpoint"@) == Some(
            JsonView::UInt(endpoint as u64),
        ) && b.get("thread"@) == Some(snapshot(row_views(rows@), attrs).fields))),
{
    match op.kind {
        NodeOpKind::Read { endpoint, cluster_in, attribute_in, .. } => {
            if let Ok(v) = read_value(reply) {
                law_read_report_by_name(op.node_id, endpoint, cluster_in@, attribute_in@, v);
            }
        },
        NodeOpKind::DiagThread { endpoint } => {
            if let Reply::Rows(Ok(rows)) = reply {
                law_thread_report_by_name(
                    op.node_id,
                    endpoint,
                    snapshot(row_views(rows@), attrs).fields,
                    Seq::empty(),
                );
            }
        },
        _ => {},
    }
}

/// A temperature in kelvin keeps that value and is sent as the nearest number
/// of mireds; one in mireds is sent as it is, with the nearest number of kelvin
/// beside it.
pub proof fn law_color_temp_is_kept_in_its_unit(kelvin: Option<u32>, mireds: Option<u16>)
    requires
        kelvin is Some <==> mireds is None,
        kelvin matches Some(k) ==> 16 <= k <= 1_000_000,
        mireds matches Some(m) ==> m > 0,
    ensures
        kelvin matches Some(k) ==> color_temp_of(kelvin, mireds).1 == k && 2 * (k * color_temp_of(
            kelvin,
            mireds,
        ).0) <= 2_000_000 + k && 2_000_000 <= 2 * (k * color_temp_of(kelvin, mireds).0) + k,
        mireds matches Some(m) ==> color_temp_of(kelvin, mireds).0 == m && 2 * (m * color_temp_of(
            kelvin,
            mireds,
        ).1) <= 2_000_000 + m && 2_000_000 <= 2 * (m * color_temp_of(kelvin, mireds).1) + m,
{
    match kelvin {
        Some(k) => {
            crate::units::law_reciprocal_is_nearest(k as nat);
            crate::units::law_reciprocal_fits_u16(k as nat);
        },
        None => {
            let m: nat = mireds->0 as nat;
            crate::units::law_reciprocal_is_nearest(m);
            assert(reciprocal(m) <= 2_000_000) by (nonlinear_arith)
                requires
                    m > 0,
                    2 * (m * reciprocal(m)) <= 2_000_000 + m,
                    m <= 65_535,
            ;
        },
    }
}

/// An operation that was refused says so: an unknown name as one that cannot
/// be resolved, a bad argument in its own words.
pub proof fn law_refusals_are_parse_errors(i: InvokeClass, w: WriteClass)
    ensures
        refused(i) is None <==> i is Native,
        write_refused(w) is None <==> w is Native,
        refused(i) matches Some(e) ==> e.kind == ErrorKind::ParseError,
        write_refused(w) matches Some(e) ==> e.kind == ErrorKind::ParseError,
        i matches InvokeClass::Reject(m) ==> refused(i)->0.detail == m@,
        w matches WriteClass::Reject(m) ==> write_refused(w)->0.detail == m@,
{
}

/// A temperature of less than sixteen kelvin is cut to sixteen bits.
pub proof fn law_color_temp_is_cut_to_its_width(k: u32)
    requires
        k > 0,
    ensures
        color_temp_of(Some(k), None) == ((reciprocal(k as nat) - 65_536 * (reciprocal(k as nat)
            / 65_536)) as u16, k),
{
}

/// What was sent to a group is told as it was asked for.
pub proof fn law_echo_repeats_what_was_asked(echo: SentEcho, kind: GroupOpKind)
    requires
        repeats(echo, kind),
    ensures
        kind matches GroupOpKind::Invoke { cluster_in, command_in, .. } ==> (
        echo matches SentEcho::Invoke { cluster, command } && cluster@ == cluster_in@ && command@
            == command_in@),
        kind matches GroupOpKind::Color { color, transition } ==> echo == (SentEcho::Color {
            color,
            transition,
        }),
        kind matches GroupOpKind::ColorTemp { kelvin, mireds, transition } ==> echo == (
        SentEcho::ColorTemp { kelvin, mireds, transition }),
        kind matches GroupOpKind::Level { percent, level, transition } ==> echo == (
        SentEcho::Level { percent, level, transition }),
{
}

/// The report of a description names the node and holds what the walk found.
pub proof fn law_description_is_that_of_the_node(
    op: NodeOp,
    attrs: ThreadAttributes,
    d: DescribeView,
    v: Json,
)
    ensures
        describe_step(d, Ok(v@)) matches ProgressView::Done(endpoints) ==> node_step(
            op,
            attrs,
            NodePhaseView::Describe(d),
            Reply::Value(Ok(v)),
        ) == ProgressView::<NodePhaseView, BodyView>::Done(
            BodyView::Describe { node_id: op.node_id, endpoints },
        ),
        describe_step(d, Ok(v@)) matches ProgressView::Call(next, c) ==> node_step(
            op,
            attrs,
            NodePhaseView::Describe(d),
            Reply::Value(Ok(v)),
        ) == ProgressView::<NodePhaseView, BodyView>::Call(NodePhaseView::Describe(next), c),
{
}

/// An operation starts with its own step: a description with the parts, a
/// leaving with the fabric, anything else with its single call.
pub proof fn law_operation_starts_with_its_step(kind: NodeOpKind, index: JsonView)
    ensures
        kind is Describe ==> first_phase(kind) == NodePhaseView::Describe(DescribeView::Parts),
        kind is RemoveFabric ==> first_phase(kind) == NodePhaseView::FabricIndex,
        !(kind is Describe) && !(kind is RemoveFabric) ==> first_phase(kind)
            == NodePhaseView::Single,
        fabric_index(index) is Ok <==> (index matches JsonView::UInt(n) && n <= 255),
        fabric_index(index) matches Ok(i) ==> index == JsonView::UInt(i as u64),
        fabric_index(index) matches Err(e) ==> e.kind == ErrorKind::ParseError,
{
}

/// Each operation has its name.
pub proof fn law_operations_have_their_names(k: NodeOpKind, g: GroupOpKind)
    ensures
        k is On ==> k.label() == "on"@,
        k is Off ==> k.label() == "off"@,
        k is Color ==> k.label() == "color"@,
        k is ColorTemp ==> k.label() == "color_temp"@,
        k is Level ==> k.label() == "level"@,
        k is Read ==> k.label() == "read"@,
        k is ReadCluster ==> k.label() == "read_cluster"@,
        k is Write ==> k.label() == "write"@,
        k is Invoke ==> k.label() == "invoke"@,
        k is Describe ==> k.label() == "describe"@,
        k is DiagThread ==> k.label() == "diag_thread"@,
        k is OpenWindow ==> k.label() == "open_window"@,
        k is RemoveFabric ==> k.label() == "remove_fabric"@,
        g is Invoke ==> g.label() == "group_invoke"@,
        g is Color ==> g.label() == "group_color"@,
        g is ColorTemp ==> g.label() == "group_color_temp"@,
        g is Level ==> g.label() == "group_level"@,
{
}

/// A read and a write are made of what they were given and what their names
/// stand for, each in its place; a write is timed if either asks for it.
pub proof fn law_operations_are_made_of_what_was_given(
    r: NodeOpKind,
    w: NodeOpKind,
    endpoint: u16,
    cluster_in: Seq<char>,
    attribute_in: Seq<char>,
    cluster: u32,
    attribute: u32,
    value_in: Seq<char>,
    class: WriteClass,
    timed_override: bool,
)
    requires
        is_read(r, endpoint, cluster_in, attribute_in, cluster, attribute),
        is_write(w, endpoint, cluster_in, attribute_in, value_in, class, timed_override),
    ensures
        r matches NodeOpKind::Read {
            endpoint: e,
            cluster_in: ci,
            attribute_in: ai,
            cluster: c,
            attribute: a,
        } && e == endpoint && ci@ == cluster_in && ai@ == attribute_in && c == cluster && a
            == attribute,
        class matches WriteClass::Native { cluster: wc, attribute: wa, value: wv, timed } && (
        w matches NodeOpKind::Write {
            endpoint: e,
            cluster_in: ci,
            attribute_in: ai,
            cluster: c,
            attribute: a,
            value_in: vi,
            value: v,
            timed: t,
        } && e == endpoint && ci@ == cluster_in && ai@ == attribute_in && vi@ == value_in && c == wc
            && a == wa && v == wv && (t <==> timed || timed_override)),
{
}

} // verus!
