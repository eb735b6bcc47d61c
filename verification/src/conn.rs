//! The calls on a node's session, as data.
//!
//! An operation says which call it wants next and is handed the reply. The
//! payloads that the controller encodes itself are named by their arguments.
use vstd::prelude::*;
use vstd::pervasive::unreached;
use vstd::string::*;
use crate::error::{ErrorView, MatError};
use crate::json::{Json, JsonView};
use crate::tlv::{elems, AclEntry, Elem, ElemView, ReadEnd};

verus! {

pub const CLUSTER_GROUPS: u32 = 0x0004;

pub const CLUSTER_ON_OFF: u32 = 0x0006;

pub const CLUSTER_LEVEL_CONTROL: u32 = 0x0008;

pub const CLUSTER_DESCRIPTOR: u32 = 0x001D;

pub const CLUSTER_ACCESS_CONTROL: u32 = 0x001F;

pub const CLUSTER_GENERAL_DIAG: u32 = 0x0033;

pub const CLUSTER_THREAD_DIAG: u32 = 0x0035;

pub const CLUSTER_OPERATIONAL_CREDENTIALS: u32 = 0x003E;

pub const CLUSTER_GROUP_KEY_MANAGEMENT: u32 = 0x003F;

pub const CLUSTER_COLOR_CONTROL: u32 = 0x0300;

pub const ATTR_ON_OFF: u32 = 0x0000;

pub const ATTR_SERVER_LIST: u32 = 0x0001;

pub const ATTR_PARTS_LIST: u32 = 0x0003;

pub const ATTR_ACL: u32 = 0x0000;

pub const ATTR_GROUP_KEY_MAP: u32 = 0x0000;

pub const ATTR_NETWORK_INTERFACES: u32 = 0x0000;

pub const ATTR_CURRENT_FABRIC_INDEX: u32 = 0x0005;

pub const CMD_ON_OFF_OFF: u32 = 0x00;

pub const CMD_ON_OFF_ON: u32 = 0x01;

pub const CMD_ON_OFF_TOGGLE: u32 = 0x02;

pub const CMD_MOVE_TO_LEVEL: u32 = 0x00;

pub const CMD_MOVE_TO_HUE_AND_SATURATION: u32 = 0x06;

pub const CMD_MOVE_TO_COLOR_TEMPERATURE: u32 = 0x0A;

pub const CMD_ADD_GROUP: u32 = 0x00;

pub const CMD_REMOVE_GROUP: u32 = 0x03;

pub const CMD_KEY_SET_WRITE: u32 = 0x00;

pub const CMD_KEY_SET_REMOVE: u32 = 0x03;

pub const CMD_REMOVE_FABRIC: u32 = 0x0A;

/// The data of a command or of a write.
#[derive(Debug, PartialEq, Eq)]
pub enum Payload {
    Empty,
    /// These elements.
    Elems(Vec<Elem>),
    MoveToHueAndSaturation { hue: u8, saturation: u8, transition: u16 },
    MoveToColorTemperature { mireds: u16, transition: u16 },
    MoveToLevel { level: u8, transition: u16 },
    /// A key set with one epoch key.
    KeySetWrite { keyset_id: u16, epoch_key: [u8; 16] },
    /// A key set with its epoch keys and their start times.
    KeySetWriteMulti { keyset_id: u16, epochs: Vec<([u8; 16], u64)> },
    /// The whole map of groups to key sets.
    GroupKeyMap(Vec<(u16, u16)>),
    AddGroup { group_id: u16, name: String },
    RemoveFabric { fabric_index: u8 },
}

/// What a payload holds.
pub enum PayloadView {
    Empty,
    Elems(Seq<ElemView>),
    MoveToHueAndSaturation { hue: u8, saturation: u8, transition: u16 },
    MoveToColorTemperature { mireds: u16, transition: u16 },
    MoveToLevel { level: u8, transition: u16 },
    KeySetWrite { keyset_id: u16, epoch_key: [u8; 16] },
    KeySetWriteMulti { keyset_id: u16, epochs: Seq<([u8; 16], u64)> },
    GroupKeyMap(Seq<(u16, u16)>),
    AddGroup { group_id: u16, name: Seq<char> },
    RemoveFabric { fabric_index: u8 },
}

impl View for Payload {
    type V = PayloadView;

    open spec fn view(&self) -> PayloadView {
        match *self {
            Payload::Empty => PayloadView::Empty,
            Payload::Elems(v) => PayloadView::Elems(elems(v@)),
            Payload::MoveToHueAndSaturation {
                hue,
                saturation,
                transition,
            } => PayloadView::MoveToHueAndSaturation { hue, saturation, transition },
            Payload::MoveToColorTemperature {
                mireds,
                transition,
            } => PayloadView::MoveToColorTemperature { mireds, transition },
            Payload::MoveToLevel { level, transition } => PayloadView::MoveToLevel {
                level,
                transition,
            },
            Payload::KeySetWrite { keyset_id, epoch_key } => PayloadView::KeySetWrite {
                keyset_id,
                epoch_key,
            },
            Payload::KeySetWriteMulti { keyset_id, epochs } => PayloadView::KeySetWriteMulti {
                keyset_id,
                epochs: epochs@,
            },
            Payload::GroupKeyMap(m) => PayloadView::GroupKeyMap(m@),
            Payload::AddGroup { group_id, name } => PayloadView::AddGroup {
                group_id,
                name: name@,
            },
            Payload::RemoveFabric { fabric_index } => PayloadView::RemoveFabric { fabric_index },
        }
    }
}

/// A change of the access-control list of a node.
#[derive(Debug, Clone, Copy, PartialEq, Eq, Structural)]
pub enum AclEdit {
    /// Add the entry that lets a group operate the node.
    Grant(u16),
    /// Take the entries of a group out.
    Withdraw(u16),
}

/// A call on a node's session.
#[derive(Debug, PartialEq, Eq)]
pub enum Call {
    ReadOnOff { endpoint: u16 },
    Invoke { endpoint: u16, cluster: u32, command: u32, fields: Payload, timed: bool },
    /// An invoke whose reply has data.
    InvokeForData { endpoint: u16, cluster: u32, command: u32, fields: Payload, timed: bool },
    /// An invoke whose reply is that of the operational-credentials cluster.
    InvokeForNoc { endpoint: u16, cluster: u32, command: u32, fields: Payload, timed: bool },
    ReadJson { endpoint: u16, cluster: u32, attribute: u32 },
    /// A read of all attributes of a cluster.
    ReadCluster { endpoint: u16, cluster: u32 },
    WriteTlv { endpoint: u16, cluster: u32, attribute: u32, data: Payload, timed: bool },
    OpenWindow { timeout_s: u16, discriminator: u16, iterations: u32 },
    /// A read of the access-control list, for an edit of it.
    ReadAcl(AclEdit),
}

/// What a call says.
pub enum CallView {
    ReadOnOff { endpoint: u16 },
    Invoke { endpoint: u16, cluster: u32, command: u32, fields: PayloadView, timed: bool },
    InvokeForData { endpoint: u16, cluster: u32, command: u32, fields: PayloadView, timed: bool },
    InvokeForNoc { endpoint: u16, cluster: u32, command: u32, fields: PayloadView, timed: bool },
    ReadJson { endpoint: u16, cluster: u32, attribute: u32 },
    ReadCluster { endpoint: u16, cluster: u32 },
    WriteTlv { endpoint: u16, cluster: u32, attribute: u32, data: PayloadView, timed: bool },
    OpenWindow { timeout_s: u16, discriminator: u16, iterations: u32 },
    ReadAcl(AclEdit),
}

impl View for Call {
    type V = CallView;

    open spec fn view(&self) -> CallView {
        match *self {
            Call::ReadOnOff { endpoint } => CallView::ReadOnOff { endpoint },
            Call::Invoke { endpoint, cluster, command, fields, timed } => CallView::Invoke {
                endpoint,
                cluster,
                command,
                fields: fields@,
                timed,
            },
            Call::InvokeForData {
                endpoint,
                cluster,
                command,
                fields,
                timed,
            } => CallView::InvokeForData { endpoint, cluster, command, fields: fields@, timed },
            Call::InvokeForNoc {
                endpoint,
                cluster,
                command,
                fields,
                timed,
            } => CallView::InvokeForNoc { endpoint, cluster, command, fields: fields@, timed },
            Call::ReadJson { endpoint, cluster, attribute } => CallView::ReadJson {
                endpoint,
                cluster,
                attribute,
            },
            Call::ReadCluster { endpoint, cluster } => CallView::ReadCluster { endpoint, cluster },
            Call::WriteTlv { endpoint, cluster, attribute, data, timed } => CallView::WriteTlv {
                endpoint,
                cluster,
                attribute,
                data: data@,
                timed,
            },
            Call::OpenWindow { timeout_s, discriminator, iterations } => CallView::OpenWindow {
                timeout_s,
                discriminator,
                iterations,
            },
            Call::ReadAcl(e) => CallView::ReadAcl(e),
        }
    }
}

/// Whether a call replaces the access-control list.
pub open spec fn writes_acl(c: CallView) -> bool {
    c is WriteTlv && c->WriteTlv_cluster == CLUSTER_ACCESS_CONTROL && c->WriteTlv_attribute
        == ATTR_ACL
}

/// An answer of the operational-credentials cluster.
#[derive(Debug, PartialEq, Eq)]
pub enum NocAnswer {
    Status(u8),
    /// What is wrong with an answer that could not be read.
    Unreadable(String),
}

/// The reply to a call.
#[derive(Debug, PartialEq, Eq)]
pub enum Reply {
    Unit(Result<(), MatError>),
    OnOff(Result<bool, MatError>),
    /// The elements of a reply with data, and how the input ended.
    Data(Result<(Vec<Elem>, ReadEnd), MatError>),
    Noc(Result<NocAnswer, MatError>),
    Value(Result<Json, MatError>),
    /// The attributes of a cluster and their values.
    Rows(Result<Vec<(u32, Json)>, MatError>),
    /// The manual code and the QR payload of a window.
    Codes(Result<(String, String), MatError>),
    /// The entries to write for the edit, or none where it changes nothing.
    Acl(Result<Option<Vec<AclEntry>>, MatError>),
}

/// The view of the rows of a cluster.
pub open spec fn row_views(rows: Seq<(u32, Json)>) -> Seq<(u32, JsonView)> {
    Seq::new(rows.len(), |i: int| (rows[i].0, rows[i].1@))
}

/// Whether a reply has the shape that a call asks for.
pub open spec fn fits(c: CallView, r: Reply) -> bool {
    match c {
        CallView::ReadOnOff { .. } => r is OnOff,
        CallView::Invoke { .. } => r is Unit,
        CallView::InvokeForData { .. } => r is Data,
        CallView::InvokeForNoc { .. } => r is Noc,
        CallView::ReadJson { .. } => r is Value,
        CallView::ReadCluster { .. } => r is Rows,
        CallView::WriteTlv { .. } => r is Unit,
        CallView::OpenWindow { .. } => r is Codes,
        CallView::ReadAcl(_) => r is Acl,
    }
}

impl Reply {
    /// The reply to an invoke or a write.
    pub fn unit(self) -> (r: Result<(), MatError>)
        requires
            self is Unit,
        ensures
            r == self->Unit_0,
    {
        match self {
            Reply::Unit(r) => r,
            _ => unreached(),
        }
    }

    /// The reply to a read of the on/off state.
    pub fn on_off(self) -> (r: Result<bool, MatError>)
        requires
            self is OnOff,
        ensures
            r == self->OnOff_0,
    {
        match self {
            Reply::OnOff(r) => r,
            _ => unreached(),
        }
    }

    /// The data of a reply.
    pub fn data(self) -> (r: Result<(Vec<Elem>, ReadEnd), MatError>)
        requires
            self is Data,
        ensures
            r == self->Data_0,
    {
        match self {
            Reply::Data(r) => r,
            _ => unreached(),
        }
    }

    /// The answer of the operational-credentials cluster.
    pub fn noc(self) -> (r: Result<NocAnswer, MatError>)
        requires
            self is Noc,
        ensures
            r == self->Noc_0,
    {
        match self {
            Reply::Noc(r) => r,
            _ => unreached(),
        }
    }

    /// The value of an attribute.
    pub fn value(self) -> (r: Result<Json, MatError>)
        requires
            self is Value,
        ensures
            r == self->Value_0,
    {
        match self {
            Reply::Value(r) => r,
            _ => unreached(),
        }
    }

    /// The attributes of a cluster.
    pub fn rows(self) -> (r: Result<Vec<(u32, Json)>, MatError>)
        requires
            self is Rows,
        ensures
            r == self->Rows_0,
    {
        match self {
            Reply::Rows(r) => r,
            _ => unreached(),
        }
    }

    /// The codes of a window.
    pub fn codes(self) -> (r: Result<(String, String), MatError>)
        requires
            self is Codes,
        ensures
            r == self->Codes_0,
    {
        match self {
            Reply::Codes(r) => r,
            _ => unreached(),
        }
    }

    /// The entries to write for an edit of the access-control list.
    pub fn acl(self) -> (r: Result<Option<Vec<AclEntry>>, MatError>)
        requires
            self is Acl,
        ensures
            r == self->Acl_0,
    {
        match self {
            Reply::Acl(r) => r,
            _ => unreached(),
        }
    }
}

/// Where an operation stands after a reply: at the next call, with what it has
/// to remember, or at its end.
#[derive(Debug, PartialEq, Eq)]
pub enum Progress<S, T> {
    Call(S, Call),
    Done(T),
    Fail(MatError),
}

/// What the progress of an operation says.
pub enum ProgressView<S, T> {
    Call(S, CallView),
    Done(T),
    Fail(ErrorView),
}

impl<S: View, T: View> View for Progress<S, T> {
    type V = ProgressView<S::V, T::V>;

    open spec fn view(&self) -> ProgressView<S::V, T::V> {
        match *self {
            Progress::Call(s, c) => ProgressView::Call(s@, c@),
            Progress::Done(t) => ProgressView::Done(t@),
            Progress::Fail(e) => ProgressView::Fail(e@),
        }
    }
}

/// The endpoint that a call goes to; the access-control list and the
/// commissioning window are at the root.
pub open spec fn endpoint_of(c: CallView) -> u16 {
    match c {
        CallView::ReadOnOff { endpoint } => endpoint,
        CallView::Invoke { endpoint, .. } => endpoint,
        CallView::InvokeForData { endpoint, .. } => endpoint,
        CallView::InvokeForNoc { endpoint, .. } => endpoint,
        CallView::ReadJson { endpoint, .. } => endpoint,
        CallView::ReadCluster { endpoint, .. } => endpoint,
        CallView::WriteTlv { endpoint, .. } => endpoint,
        CallView::OpenWindow { .. } | CallView::ReadAcl(_) => 0,
    }
}

/// A call is seen as what it sends.
pub proof fn law_calls_are_seen_as_they_are(c: Call)
    ensures
        c matches Call::ReadOnOff { endpoint } ==> c@ == (CallView::ReadOnOff { endpoint }),
        c matches Call::Invoke { endpoint, cluster, command, fields, timed } ==> c@ == (
        CallView::Invoke { endpoint, cluster, command, fields: fields@, timed }),
        c matches Call::InvokeForData { endpoint, cluster, command, fields, timed } ==> c@ == (
        CallView::InvokeForData { endpoint, cluster, command, fields: fields@, timed }),
        c matches Call::InvokeForNoc { endpoint, cluster, command, fields, timed } ==> c@ == (
        CallView::InvokeForNoc { endpoint, cluster, command, fields: fields@, timed }),
        c matches Call::ReadJson { endpoint, cluster, attribute } ==> c@ == (CallView::ReadJson {
            endpoint,
            cluster,
            attribute,
        }),
        c matches Call::ReadCluster { endpoint, cluster } ==> c@ == (CallView::ReadCluster {
            endpoint,
            cluster,
        }),
        c matches Call::WriteTlv { endpoint, cluster, attribute, data, timed } ==> c@ == (
        CallView::WriteTlv { endpoint, cluster, attribute, data: data@, timed }),
        c matches Call::OpenWindow { timeout_s, discriminator, iterations } ==> c@ == (
        CallView::OpenWindow { timeout_s, discriminator, iterations }),
        c matches Call::ReadAcl(e) ==> c@ == CallView::ReadAcl(e),
{
}

/// A payload is seen as what it holds.
pub proof fn law_payloads_are_seen_as_they_are(p: Payload)
    ensures
        p is Empty ==> p@ is Empty,
        p matches Payload::Elems(v) ==> p@ == PayloadView::Elems(elems(v@)),
        p matches Payload::MoveToHueAndSaturation { hue, saturation, transition } ==> p@ == (
        PayloadView::MoveToHueAndSaturation { hue, saturation, transition }),
        p matches Payload::MoveToColorTemperature { mireds, transition } ==> p@ == (
        PayloadView::MoveToColorTemperature { mireds, transition }),
        p matches Payload::MoveToLevel { level, transition } ==> p@ == (PayloadView::MoveToLevel {
            level,
            transition,
        }),
        p matches Payload::KeySetWrite { keyset_id, epoch_key } ==> p@ == (
        PayloadView::KeySetWrite { keyset_id, epoch_key }),
        p matches Payload::KeySetWriteMulti { keyset_id, epochs } ==> p@ == (
        PayloadView::KeySetWriteMulti { keyset_id, epochs: epochs@ }),
        p matches Payload::GroupKeyMap(m) ==> p@ == PayloadView::GroupKeyMap(m@),
        p matches Payload::AddGroup { group_id, name } ==> p@ == (PayloadView::AddGroup {
            group_id,
            name: name@,
        }),
        p matches Payload::RemoveFabric { fabric_index } ==> p@ == (PayloadView::RemoveFabric {
            fabric_index,
        }),
{
}

/// Each call has its own sort of reply.
pub proof fn law_reply_is_of_the_sort_of_the_call(c: CallView, r: Reply)
    requires
        fits(c, r),
    ensures
        c is ReadOnOff <==> r is OnOff,
        c is Invoke || c is WriteTlv <==> r is Unit,
        c is InvokeForData <==> r is Data,
        c is InvokeForNoc <==> r is Noc,
        c is ReadJson <==> r is Value,
        c is ReadCluster <==> r is Rows,
        c is OpenWindow <==> r is Codes,
        c is ReadAcl <==> r is Acl,
{
}

} // verus!
