//! The Thread diagnosis of a node, read from one cluster as a whole.
use vstd::prelude::*;
use vstd::string::*;
use crate::conn::row_views;
use crate::error::{error, ErrorKind, ErrorView, MatError};
use crate::json::{
    field_views,
    insert_field,
    json_views,
    law_first_field_is_found,
    law_ordering_keeps_the_last_value,
    law_put_changes_one_field,
    lemma_container_views,
    lemma_ordered_swap,
    order_fields,
    lookup,
    ordered,
    put_field,
    str_field,
    u64_field,
    Json,
    JsonView,
};
use crate::text;

verus! {

/// A list-of-struct attribute whose fields have names.
#[derive(Debug, Clone, Copy, PartialEq, Eq, Structural)]
pub enum Table {
    Neighbor,
    Route,
}

/// The table of an attribute: everything but the neighbours is the routes.
pub fn table_fields_for(attr_name: &str) -> (t: Table)
    ensures
        t == if attr_name@ == "neighbor-table"@ {
            Table::Neighbor
        } else {
            Table::Route
        },
{
    if text::same(attr_name, "neighbor-table") {
        Table::Neighbor
    } else {
        Table::Route
    }
}

/// The name of a field of a table.
pub open spec fn field_name(t: Table, id: u8) -> Option<Seq<char>> {
    match t {
        Table::Neighbor => match id {
            0 => Some("ExtAddress"@),
            1 => Some("Age"@),
            2 => Some("Rloc16"@),
            3 => Some("LinkFrameCounter"@),
            4 => Some("MleFrameCounter"@),
            5 => Some("Lqi"@),
            6 => Some("AverageRssi"@),
            7 => Some("LastRssi"@),
            8 => Some("FrameErrorRate"@),
            9 => Some("MessageErrorRate"@),
            10 => Some("RxOnWhenIdle"@),
            11 => Some("FullThreadDevice"@),
            12 => Some("FullNetworkData"@),
            13 => Some("IsChild"@),
            _ => None,
        },
        Table::Route => match id {
            0 => Some("ExtAddress"@),
            1 => Some("Rloc16"@),
            2 => Some("RouterId"@),
            3 => Some("NextHop"@),
            4 => Some("PathCost"@),
            5 => Some("LQIIn"@),
            6 => Some("LQIOut"@),
            7 => Some("Age"@),
            8 => Some("Allocated"@),
            9 => Some("LinkEstablished"@),
            _ => None,
        },
    }
}

fn name_of_field(t: Table, id: u8) -> (r: Option<&'static str>)
    ensures
        r is Some <==> field_name(t, id) is Some,
        r matches Some(n) ==> field_name(t, id) == Some(n@),
{
    match t {
        Table::Neighbor => match id {
            0 => Some("ExtAddress"),
            1 => Some("Age"),
            2 => Some("Rloc16"),
            3 => Some("LinkFrameCounter"),
            4 => Some("MleFrameCounter"),
            5 => Some("Lqi"),
            6 => Some("AverageRssi"),
            7 => Some("LastRssi"),
            8 => Some("FrameErrorRate"),
            9 => Some("MessageErrorRate"),
            10 => Some("RxOnWhenIdle"),
            11 => Some("FullThreadDevice"),
            12 => Some("FullNetworkData"),
            13 => Some("IsChild"),
            _ => None,
        },
        Table::Route => match id {
            0 => Some("ExtAddress"),
            1 => Some("Rloc16"),
            2 => Some("RouterId"),
            3 => Some("NextHop"),
            4 => Some("PathCost"),
            5 => Some("LQIIn"),
            6 => Some("LQIOut"),
            7 => Some("Age"),
            8 => Some("Allocated"),
            9 => Some("LinkEstablished"),
            _ => None,
        },
    }
}

/// The name for a key that spells a field id; any other key stays.
pub open spec fn renamed_key(t: Table, key: Seq<char>) -> Seq<char> {
    match text::byte_val(key) {
        Some(id) => match field_name(t, id) {
            Some(name) => name,
            None => key,
        },
        None => key,
    }
}

fn rename_key(t: Table, key: &String) -> (r: String)
    ensures
        r@ == renamed_key(t, key@),
{
    match text::parse_byte(key.as_str()) {
        Some(id) => match name_of_field(t, id) {
            Some(name) => name.to_owned(),
            None => key.clone(),
        },
        None => key.clone(),
    }
}

/// An object's fields under their names: of two that get one name the later
/// one stays.
pub open spec fn renamed_fields(t: Table, fields: Seq<(Seq<char>, JsonView)>) -> Seq<
    (Seq<char>, JsonView),
>
    decreases fields.len(),
{
    if fields.len() == 0 {
        Seq::empty()
    } else {
        put_field(
            renamed_fields(t, fields.drop_last()),
            renamed_key(t, fields.last().0),
            fields.last().1,
        )
    }
}

/// A row of a table with its fields named, in the order of its keys; what is no
/// object stays.
pub open spec fn renamed_row(t: Table, v: JsonView) -> JsonView {
    match v {
        JsonView::Object(fields) => JsonView::Object(renamed_fields(t, ordered(fields))),
        _ => v,
    }
}

/// A table with the fields of its rows named; what is no list stays.
pub open spec fn renamed_table(t: Table, v: JsonView) -> JsonView {
    match v {
        JsonView::Array(items) => JsonView::Array(
            Seq::new(items.len(), |i: int| renamed_row(t, items[i])),
        ),
        _ => v,
    }
}

/// Names the fields of a row.
pub fn rename_struct_fields(v: &Json, t: Table) -> (r: Json)
    ensures
        r@ == renamed_row(t, v@),
{
    match v {
        Json::Object(fields) => {
            proof {
                lemma_container_views(*v);
            }
            let fields = order_fields(fields);
            let ghost all = field_views(fields@);
            let mut out: Vec<(String, Json)> = Vec::new();
            assert(field_views(out@) =~= Seq::empty());
            let mut i: usize = 0;
            while i < fields.len()
                invariant
                    i <= fields.len(),
                    all == field_views(fields@),
                    field_views(out@) == renamed_fields(t, all.take(i as int)),
                decreases fields.len() - i,
            {
                assert(all.take(i + 1).drop_last() =~= all.take(i as int));
                assert(all.take(i + 1).last() == (fields@[i as int].0@, fields@[i as int].1@));
                insert_field(&mut out, rename_key(t, &fields[i].0), fields[i].1.clone());
                i += 1;
            }
            assert(all.take(i as int) =~= all);
            let r = Json::Object(out);
            proof {
                lemma_container_views(r);
            }
            r
        },
        _ => v.clone(),
    }
}

/// Names the fields of the rows of a table.
pub fn rename_struct_array(v: &Json, t: Table) -> (r: Json)
    ensures
        r@ == renamed_table(t, v@),
{
    match v {
        Json::Array(items) => {
            proof {
                lemma_container_views(*v);
            }
            let mut out: Vec<Json> = Vec::new();
            let mut i: usize = 0;
            while i < items.len()
                invariant
                    i <= items.len(),
                    out.len() == i,
                    forall|k: int|
                        0 <= k < i ==> (#[trigger] out@[k])@ == renamed_row(t, items@[k]@),
                decreases items.len() - i,
            {
                out.push(rename_struct_fields(&items[i], t));
                i += 1;
            }
            let r = Json::Array(out);
            proof {
                lemma_container_views(r);
                assert(json_views(out@) =~= Seq::new(
                    items@.len(),
                    |k: int| renamed_row(t, json_views(items@)[k]),
                ));
            }
            r
        },
        _ => v.clone(),
    }
}

/// In which order the fields of a row stand does not matter: two with different
/// keys may change places.
pub proof fn law_field_order_does_not_matter(
    t: Table,
    fields: Seq<(Seq<char>, JsonView)>,
    i: int,
)
    requires
        0 <= i < fields.len() - 1,
        fields[i].0 != fields[i + 1].0,
    ensures
        renamed_row(
            t,
            JsonView::Object(fields.update(i, fields[i + 1]).update(i + 1, fields[i])),
        ) == renamed_row(t, JsonView::Object(fields)),
{
    lemma_ordered_swap(fields, i);
}

/// Naming the fields of a table changes neither its rows' number nor what is
/// no object among them.
pub proof fn law_naming_keeps_rows(t: Table, items: Seq<JsonView>, i: int)
    requires
        0 <= i < items.len(),
    ensures
        renamed_table(t, JsonView::Array(items))->Array_0.len() == items.len(),
        !(items[i] is Object) ==> renamed_table(t, JsonView::Array(items))->Array_0[i] == items[i],
{
}

/// The ids of the attributes of the Thread diagnosis that are known.
#[derive(Debug, Clone, Copy, PartialEq, Eq, Structural)]
pub struct ThreadAttributes {
    pub routing_role: Option<u32>,
    pub network_name: Option<u32>,
    pub extended_pan_id: Option<u32>,
    pub pan_id: Option<u32>,
    pub partition_id: Option<u32>,
    pub channel: Option<u32>,
    pub leader_router_id: Option<u32>,
    pub mesh_local_prefix: Option<u32>,
    pub neighbor_table: Option<u32>,
    pub route_table: Option<u32>,
}

/// What the Thread diagnosis found. A read of the whole cluster reports no
/// failure of a single attribute, so nothing is ever marked unavailable.
#[derive(Debug, PartialEq, Eq)]
pub struct ThreadSnapshot {
    /// An object.
    pub fields: Json,
    pub unavailable: Vec<(String, ErrorKind)>,
}

/// What a snapshot holds.
pub struct SnapshotView {
    pub fields: JsonView,
    pub unavailable: Seq<(Seq<char>, ErrorKind)>,
}

impl View for ThreadSnapshot {
    type V = SnapshotView;

    open spec fn view(&self) -> SnapshotView {
        SnapshotView {
            fields: self.fields@,
            unavailable: Seq::new(
                self.unavailable@.len(),
                |i: int| (self.unavailable@[i].0@, self.unavailable@[i].1),
            ),
        }
    }
}

/// The value of an attribute: the last row of its id.
pub open spec fn row_value(rows: Seq<(u32, JsonView)>, id: u32) -> Option<JsonView>
    decreases rows.len(),
{
    if rows.len() == 0 {
        None
    } else if rows.last().0 == id {
        Some(rows.last().1)
    } else {
        row_value(rows.drop_last(), id)
    }
}

/// The value of an attribute that may be unknown or not reported.
pub open spec fn reported(rows: Seq<(u32, JsonView)>, id: Option<u32>) -> Option<JsonView> {
    match id {
        Some(id) => row_value(rows, id),
        None => None,
    }
}

/// A scalar of the snapshot, null where it was not reported.
pub open spec fn scalar(rows: Seq<(u32, JsonView)>, id: Option<u32>) -> JsonView {
    match reported(rows, id) {
        Some(v) => v,
        None => JsonView::Null,
    }
}

/// A table of the snapshot, null where it was not reported.
pub open spec fn table(rows: Seq<(u32, JsonView)>, id: Option<u32>, t: Table) -> JsonView {
    match reported(rows, id) {
        Some(v) => renamed_table(t, v),
        None => JsonView::Null,
    }
}

/// The snapshot of the rows of the cluster.
pub open spec fn snapshot(rows: Seq<(u32, JsonView)>, a: ThreadAttributes) -> SnapshotView {
    SnapshotView {
        fields: JsonView::Object(
            Seq::<(Seq<char>, JsonView)>::empty()
                .push(("routing_role"@, scalar(rows, a.routing_role)))
                .push(("network_name"@, scalar(rows, a.network_name)))
                .push(("extended_pan_id"@, scalar(rows, a.extended_pan_id)))
                .push(("pan_id"@, scalar(rows, a.pan_id)))
                .push(("partition_id"@, scalar(rows, a.partition_id)))
                .push(("channel"@, scalar(rows, a.channel)))
                .push(("leader_router_id"@, scalar(rows, a.leader_router_id)))
                .push(("mesh_local_prefix"@, scalar(rows, a.mesh_local_prefix)))
                .push(("neighbor_table"@, table(rows, a.neighbor_table, Table::Neighbor)))
                .push(("route_table"@, table(rows, a.route_table, Table::Route))),
        ),
        unavailable: Seq::empty(),
    }
}

fn find_row<'a>(rows: &'a Vec<(u32, Json)>, id: Option<u32>) -> (r: Option<&'a Json>)
    ensures
        r is Some <==> reported(row_views(rows@), id) is Some,
        r matches Some(v) ==> reported(row_views(rows@), id) == Some(v@),
{
    let want: u32 = match id {
        Some(id) => id,
        None => {
            return None;
        },
    };
    let ghost all = row_views(rows@);
    let mut i: usize = rows.len();
    assert(all.take(i as int) =~= all);
    while i > 0
        invariant
            i <= rows.len(),
            id == Some(want),
            all == row_views(rows@),
            row_value(all, want) == row_value(all.take(i as int), want),
        decreases i,
    {
        i -= 1;
        assert(all.take(i + 1).drop_last() =~= all.take(i as int));
        assert(all.take(i + 1).last() == (rows@[i as int].0, rows@[i as int].1@));
        if rows[i].0 == want {
            return Some(&rows[i].1);
        }
    }
    None
}

fn read_scalar(rows: &Vec<(u32, Json)>, id: Option<u32>) -> (r: Json)
    ensures
        r@ == scalar(row_views(rows@), id),
{
    match find_row(rows, id) {
        Some(v) => v.clone(),
        None => Json::Null,
    }
}

fn read_table(rows: &Vec<(u32, Json)>, id: Option<u32>, t: Table) -> (r: Json)
    ensures
        r@ == table(row_views(rows@), id, t),
{
    match find_row(rows, id) {
        Some(v) => rename_struct_array(v, t),
        None => Json::Null,
    }
}

/// Shapes the rows of the cluster into a snapshot.
pub fn diag_thread(rows: &Vec<(u32, Json)>, a: &ThreadAttributes) -> (s: ThreadSnapshot)
    ensures
        s@ == snapshot(row_views(rows@), *a),
{
    let fields = Json::object().with("routing_role", read_scalar(rows, a.routing_role)).with(
        "network_name",
        read_scalar(rows, a.network_name),
    ).with("extended_pan_id", read_scalar(rows, a.extended_pan_id)).with(
        "pan_id",
        read_scalar(rows, a.pan_id),
    ).with("partition_id", read_scalar(rows, a.partition_id)).with(
        "channel",
        read_scalar(rows, a.channel),
    ).with("leader_router_id", read_scalar(rows, a.leader_router_id)).with(
        "mesh_local_prefix",
        read_scalar(rows, a.mesh_local_prefix),
    ).with("neighbor_table", read_table(rows, a.neighbor_table, Table::Neighbor)).with(
        "route_table",
        read_table(rows, a.route_table, Table::Route),
    );
    let s = ThreadSnapshot { fields, unavailable: Vec::new() };
    assert(s@.unavailable =~= Seq::empty());
    s
}

/// The interface type of a Thread radio.
pub const IFACE_TYPE_THREAD: u64 = 4;

/// How a node is found again among the neighbours of others.
#[derive(Debug, PartialEq, Eq)]
pub struct Identity {
    pub ext_address: String,
    pub ipv6: Vec<String>,
}

/// What an identity says.
pub struct IdentityView {
    pub ext_address: Seq<char>,
    pub ipv6: Seq<Seq<char>>,
}

impl View for Identity {
    type V = IdentityView;

    open spec fn view(&self) -> IdentityView {
        IdentityView { ext_address: self.ext_address@, ipv6: text::texts(self.ipv6@) }
    }
}

/// The texts among some values, in order.
pub open spec fn texts_in(items: Seq<JsonView>) -> Seq<Seq<char>>
    decreases items.len(),
{
    if items.len() == 0 {
        Seq::empty()
    } else {
        match items.last().as_str() {
            Some(s) => texts_in(items.drop_last()).push(s),
            None => texts_in(items.drop_last()),
        }
    }
}

/// The addresses of an interface; none where there is no list.
pub open spec fn addresses_of(item: JsonView) -> Seq<Seq<char>> {
    match item.get("6"@) {
        Some(JsonView::Array(items)) => texts_in(items),
        _ => Seq::empty(),
    }
}

/// The identity that an interface gives: that of a Thread radio with a
/// hardware address.
pub open spec fn identity_of(item: JsonView) -> Option<IdentityView> {
    if u64_field(item, "7"@) == Some(IFACE_TYPE_THREAD) {
        match str_field(item, "4"@) {
            Some(hw) => Some(IdentityView { ext_address: hw, ipv6: addresses_of(item) }),
            None => None,
        }
    } else {
        None
    }
}

/// The identity that the first fitting interface gives.
pub open spec fn first_identity(items: Seq<JsonView>) -> Option<IdentityView>
    decreases items.len(),
{
    if items.len() == 0 {
        None
    } else {
        match identity_of(items[0]) {
            Some(id) => Some(id),
            None => first_identity(items.skip(1)),
        }
    }
}

/// The identity in a list of network interfaces.
pub open spec fn identity_in(v: JsonView) -> Option<IdentityView> {
    match v {
        JsonView::Array(items) => first_identity(items),
        _ => None,
    }
}

/// What an identity that may be missing says.
pub open spec fn identity_view(id: Option<Identity>) -> Option<IdentityView> {
    match id {
        Some(id) => Some(id@),
        None => None,
    }
}

fn collect_texts(items: &Vec<Json>) -> (r: Vec<String>)
    ensures
        text::texts(r@) == texts_in(json_views(items@)),
{
    let ghost all = json_views(items@);
    let mut r: Vec<String> = Vec::new();
    assert(text::texts(r@) =~= Seq::empty());
    let mut i: usize = 0;
    while i < items.len()
        invariant
            i <= items.len(),
            all == json_views(items@),
            text::texts(r@) == texts_in(all.take(i as int)),
        decreases items.len() - i,
    {
        assert(all.take(i + 1).drop_last() =~= all.take(i as int));
        assert(all.take(i + 1).last() == items@[i as int]@);
        if let Some(s) = items[i].as_str() {
            let ghost before = text::texts(r@);
            r.push(s.clone());
            assert(text::texts(r@) =~= before.push(s@));
        }
        i += 1;
    }
    assert(all.take(i as int) =~= all);
    r
}

fn read_identity(item: &Json) -> (r: Option<Identity>)
    ensures
        identity_view(r) == identity_of(item@),
{
    match item.u64_field("7") {
        Some(n) => if n != IFACE_TYPE_THREAD {
            return None;
        },
        None => {
            return None;
        },
    }
    let hw = match item.get("4") {
        Some(v) => match v.as_str() {
            Some(s) => s.clone(),
            None => {
                return None;
            },
        },
        None => {
            return None;
        },
    };
    let ipv6 = match item.get("6") {
        Some(v) => match v.as_array() {
            Some(items) => collect_texts(items),
            None => Vec::new(),
        },
        None => Vec::new(),
    };
    assert(text::texts(ipv6@) =~= addresses_of(item@));
    Some(Identity { ext_address: hw, ipv6 })
}

/// The identity in a list of network interfaces; none where no interface is a
/// Thread radio with a hardware address, or there is no list.
pub fn thread_identity(v: &Json) -> (r: Option<Identity>)
    ensures
        identity_view(r) == identity_in(v@),
{
    let items = match v.as_array() {
        Some(items) => items,
        None => {
            return None;
        },
    };
    let ghost all = json_views(items@);
    assert(all.skip(0) =~= all);
    let mut i: usize = 0;
    while i < items.len()
        invariant
            i <= items.len(),
            all == json_views(items@),
            identity_in(v@) == first_identity(all.skip(i as int)),
        decreases items.len() - i,
    {
        let id = read_identity(&items[i]);
        proof {
            assert(all.skip(i as int)[0] == items@[i as int]@);
            assert(all.skip(i as int).skip(1) =~= all.skip(i + 1));
        }
        if id.is_some() {
            return id;
        }
        i += 1;
    }
    None
}

/// The Thread signals of a node.
#[derive(Debug, Clone, Copy, PartialEq, Eq, Structural)]
pub struct ThreadCheck {
    pub neighbor_count: usize,
    pub best_lqi: Option<u8>,
    pub routing_role: Option<i64>,
}

/// The best link quality among some neighbours, each cut to a byte.
pub open spec fn best_lqi(rows: Seq<JsonView>) -> Option<u8>
    decreases rows.len(),
{
    if rows.len() == 0 {
        None
    } else {
        match (best_lqi(rows.drop_last()), u64_field(rows.last(), "Lqi"@)) {
            (best, None) => best,
            (None, Some(n)) => Some((n % 256) as u8),
            (Some(b), Some(n)) => if b <= n % 256 {
                Some((n % 256) as u8)
            } else {
                Some(b)
            },
        }
    }
}

/// The Thread signals in a snapshot.
pub open spec fn thread_check(fields: JsonView) -> Result<ThreadCheck, ErrorView> {
    match fields.get("neighbor_table"@) {
        Some(JsonView::Array(rows)) => Ok(
            ThreadCheck {
                neighbor_count: rows.len() as usize,
                best_lqi: best_lqi(rows),
                routing_role: match fields.get("routing_role"@) {
                    Some(v) => v.as_i64(),
                    None => None,
                },
            },
        ),
        _ => Err(
            error(
                ErrorKind::Other,
                "neighbor-table not reported by node (unsupported cluster or read failed)"@,
            ),
        ),
    }
}

fn find_best_lqi(rows: &Vec<Json>) -> (best: Option<u8>)
    ensures
        best == best_lqi(json_views(rows@)),
{
    let ghost all = json_views(rows@);
    let mut best: Option<u8> = None;
    let mut i: usize = 0;
    while i < rows.len()
        invariant
            i <= rows.len(),
            all == json_views(rows@),
            best == best_lqi(all.take(i as int)),
        decreases rows.len() - i,
    {
        assert(all.take(i + 1).drop_last() =~= all.take(i as int));
        assert(all.take(i + 1).last() == rows@[i as int]@);
        if let Some(n) = rows[i].u64_field("Lqi") {
            let q: u8 = (n % 256) as u8;
            best = match best {
                None => Some(q),
                Some(b) => if b <= q {
                    Some(q)
                } else {
                    Some(b)
                },
            };
        }
        i += 1;
    }
    assert(all.take(i as int) =~= all);
    best
}

/// The Thread signals in a snapshot, or the failure where the neighbours were
/// not reported.
pub fn thread_check_from_snapshot(snap: &ThreadSnapshot) -> (r: Result<ThreadCheck, MatError>)
    ensures
        r matches Ok(c) ==> thread_check(snap.fields@) == Ok::<ThreadCheck, ErrorView>(c),
        r matches Err(e) ==> thread_check(snap.fields@) == Err::<ThreadCheck, ErrorView>(e@),
{
    if let Some(v) = snap.fields.get("neighbor_table") {
        if let Some(rows) = v.as_array() {
            let routing_role = match snap.fields.get("routing_role") {
                Some(v) => v.as_i64(),
                None => None,
            };
            return Ok(
                ThreadCheck {
                    neighbor_count: rows.len(),
                    best_lqi: find_best_lqi(rows),
                    routing_role,
                },
            );
        }
    }
    Err(
        MatError::fixed(
            ErrorKind::Other,
            "neighbor-table not reported by node (unsupported cluster or read failed)",
        ),
    )
}

/// The best link quality is that of some neighbour, and no neighbour's is
/// better.
pub proof fn law_best_lqi_is_the_maximum(rows: Seq<JsonView>, i: int)
    requires
        0 <= i < rows.len(),
    ensures
        u64_field(rows[i], "Lqi"@) matches Some(n) ==> (best_lqi(rows) matches Some(b) && n % 256
            <= b),
        best_lqi(rows) matches Some(b) ==> exists|k: int|
            0 <= k < rows.len() && (#[trigger] u64_field(rows[k], "Lqi"@) matches Some(n) && n % 256
                == b),
    decreases rows.len(),
{
    let front = rows.drop_last();
    if front.len() > 0 {
        let j = if i < front.len() {
            i
        } else {
            0
        };
        law_best_lqi_is_the_maximum(front, j);
        if best_lqi(front) is Some {
            let k = choose|k: int|
                0 <= k < front.len() && (#[trigger] u64_field(front[k], "Lqi"@) matches Some(n) && n
                    % 256 == best_lqi(front)->0);
            assert(u64_field(rows[k], "Lqi"@) == u64_field(front[k], "Lqi"@));
        }
    }
    assert(u64_field(rows[rows.len() - 1], "Lqi"@) == u64_field(rows.last(), "Lqi"@));
}

/// Whether a value is that of the last row of an attribute, or null where no
/// row is of it.
pub open spec fn is_last_value(rows: Seq<(u32, JsonView)>, id: Option<u32>, v: JsonView) -> bool {
    ||| exists|j: int|
        0 <= j < rows.len() && id == Some((#[trigger] rows[j]).0) && v == rows[j].1
            && forall|k: int|
            j < k < rows.len() ==> id != Some((#[trigger] rows[k]).0)
    ||| v is Null && forall|j: int| 0 <= j < rows.len() ==> id != Some((#[trigger] rows[j]).0)
}

proof fn lemma_last_value(rows: Seq<(u32, JsonView)>, id: Option<u32>)
    ensures
        is_last_value(rows, id, scalar(rows, id)),
    decreases rows.len(),
{
    if let Some(want) = id {
        if rows.len() > 0 {
            let front = rows.drop_last();
            if rows.last().0 == want {
                assert(rows[rows.len() - 1] == rows.last());
            } else {
                lemma_last_value(front, id);
                if exists|j: int|
                    0 <= j < front.len() && id == Some((#[trigger] front[j]).0) && scalar(front, id)
                        == front[j].1 && forall|k: int|
                        j < k < front.len() ==> id != Some((#[trigger] front[k]).0) {
                    let j = choose|j: int|
                        0 <= j < front.len() && id == Some((#[trigger] front[j]).0) && scalar(
                            front,
                            id,
                        ) == front[j].1 && forall|k: int|
                            j < k < front.len() ==> id != Some((#[trigger] front[k]).0);
                    assert(rows[j] == front[j]);
                    assert forall|k: int| j < k < rows.len() implies id != Some(
                        (#[trigger] rows[k]).0,
                    ) by {
                        if k < front.len() {
                            assert(front[k] == rows[k]);
                        }
                    }
                } else {
                    assert forall|j: int| 0 <= j < rows.len() implies id != Some(
                        (#[trigger] rows[j]).0,
                    ) by {
                        if j < front.len() {
                            assert(front[j] == rows[j]);
                        }
                    }
                }
            }
        }
    }
}

/// The report has each scalar under its name: what the last row of its
/// attribute holds, and null where there is none.
pub proof fn law_report_holds_each_scalar(rows: Seq<(u32, JsonView)>, a: ThreadAttributes)
    ensures
        snapshot(rows, a).fields.get("routing_role"@) matches Some(v)
            && is_last_value(rows, a.routing_role, v),
        snapshot(rows, a).fields.get("network_name"@) matches Some(v)
            && is_last_value(rows, a.network_name, v),
        snapshot(rows, a).fields.get("extended_pan_id"@) matches Some(v)
            && is_last_value(rows, a.extended_pan_id, v),
        snapshot(rows, a).fields.get("pan_id"@) matches Some(v) && is_last_value(rows, a.pan_id, v),
        snapshot(rows, a).fields.get("partition_id"@) matches Some(v)
            && is_last_value(rows, a.partition_id, v),
        snapshot(rows, a).fields.get("channel"@) matches Some(v)
            && is_last_value(rows, a.channel, v),
        snapshot(rows, a).fields.get("leader_router_id"@) matches Some(v)
            && is_last_value(rows, a.leader_router_id, v),
        snapshot(rows, a).fields.get("mesh_local_prefix"@) matches Some(v)
            && is_last_value(rows, a.mesh_local_prefix, v),
{
    lemma_last_value(rows, a.routing_role);
    lemma_last_value(rows, a.network_name);
    lemma_last_value(rows, a.extended_pan_id);
    lemma_last_value(rows, a.pan_id);
    lemma_last_value(rows, a.partition_id);
    lemma_last_value(rows, a.channel);
    lemma_last_value(rows, a.leader_router_id);
    lemma_last_value(rows, a.mesh_local_prefix);
    reveal_strlit("routing_role");
    reveal_strlit("network_name");
    reveal_strlit("extended_pan_id");
    reveal_strlit("pan_id");
    reveal_strlit("partition_id");
    reveal_strlit("channel");
    reveal_strlit("leader_router_id");
    reveal_strlit("mesh_local_prefix");
    reveal_strlit("neighbor_table");
    reveal_strlit("route_table");
    assert("routing_role"@[0] != "network_name"@[0]);
    assert("routing_role"@[0] != "partition_id"@[0]);
    assert("network_name"@[0] != "partition_id"@[0]);
    let f = snapshot(rows, a).fields->Object_0;
    assert(f[0].0 == "routing_role"@);
    assert(f[1].0 == "network_name"@);
    assert(f[2].0 == "extended_pan_id"@);
    assert(f[3].0 == "pan_id"@);
    assert(f[4].0 == "partition_id"@);
    assert(f[5].0 == "channel"@);
    assert(f[6].0 == "leader_router_id"@);
    assert(f[7].0 == "mesh_local_prefix"@);
    assert(f[8].0 == "neighbor_table"@);
    assert(f[9].0 == "route_table"@);
    law_first_field_is_found(f, "routing_role"@, 0);
    law_first_field_is_found(f, "network_name"@, 1);
    law_first_field_is_found(f, "extended_pan_id"@, 2);
    law_first_field_is_found(f, "pan_id"@, 3);
    law_first_field_is_found(f, "partition_id"@, 4);
    law_first_field_is_found(f, "channel"@, 5);
    law_first_field_is_found(f, "leader_router_id"@, 6);
    law_first_field_is_found(f, "mesh_local_prefix"@, 7);
}

/// The report has each table under its name: the list that the last row of its
/// attribute holds, row by row under the names of its fields. Nothing else
/// stands in the report, and nothing is marked unavailable.
pub proof fn law_report_holds_each_table(rows: Seq<(u32, JsonView)>, a: ThreadAttributes)
    ensures
        is_last_value(rows, a.neighbor_table, scalar(rows, a.neighbor_table)),
        snapshot(rows, a).fields.get("neighbor_table"@) == Some(
            renamed_table(Table::Neighbor, scalar(rows, a.neighbor_table)),
        ),
        is_last_value(rows, a.route_table, scalar(rows, a.route_table)),
        snapshot(rows, a).fields.get("route_table"@) == Some(
            renamed_table(Table::Route, scalar(rows, a.route_table)),
        ),
        snapshot(rows, a).fields->Object_0.len() == 10,
        snapshot(rows, a).unavailable.len() == 0,
{
    lemma_last_value(rows, a.neighbor_table);
    lemma_last_value(rows, a.route_table);
    reveal_strlit("routing_role");
    reveal_strlit("network_name");
    reveal_strlit("extended_pan_id");
    reveal_strlit("pan_id");
    reveal_strlit("partition_id");
    reveal_strlit("channel");
    reveal_strlit("leader_router_id");
    reveal_strlit("mesh_local_prefix");
    reveal_strlit("neighbor_table");
    reveal_strlit("route_table");
    assert("routing_role"@[0] != "network_name"@[0]);
    assert("routing_role"@[0] != "partition_id"@[0]);
    assert("network_name"@[0] != "partition_id"@[0]);
    let f = snapshot(rows, a).fields->Object_0;
    assert(f[0].0 == "routing_role"@);
    assert(f[1].0 == "network_name"@);
    assert(f[2].0 == "extended_pan_id"@);
    assert(f[3].0 == "pan_id"@);
    assert(f[4].0 == "partition_id"@);
    assert(f[5].0 == "channel"@);
    assert(f[6].0 == "leader_router_id"@);
    assert(f[7].0 == "mesh_local_prefix"@);
    assert(f[8].0 == "neighbor_table"@);
    assert(f[9].0 == "route_table"@);
    law_first_field_is_found(f, "neighbor_table"@, 8);
    law_first_field_is_found(f, "route_table"@, 9);
}

/// The fields of a neighbour and of a route have these names, in the order of
/// their ids; any other key stays.
pub proof fn law_fields_have_their_names(id: nat)
    ensures
        id < 14 ==> renamed_key(Table::Neighbor, text::dec(id)) == seq![
            "ExtAddress"@,
            "Age"@,
            "Rloc16"@,
            "LinkFrameCounter"@,
            "MleFrameCounter"@,
            "Lqi"@,
            "AverageRssi"@,
            "LastRssi"@,
            "FrameErrorRate"@,
            "MessageErrorRate"@,
            "RxOnWhenIdle"@,
            "FullThreadDevice"@,
            "FullNetworkData"@,
            "IsChild"@,
        ][id as int],
        id < 10 ==> renamed_key(Table::Route, text::dec(id)) == seq![
            "ExtAddress"@,
            "Rloc16"@,
            "RouterId"@,
            "NextHop"@,
            "PathCost"@,
            "LQIIn"@,
            "LQIOut"@,
            "Age"@,
            "Allocated"@,
            "LinkEstablished"@,
        ][id as int],
        14 <= id ==> renamed_key(Table::Neighbor, text::dec(id)) == text::dec(id),
        10 <= id ==> renamed_key(Table::Route, text::dec(id)) == text::dec(id),
{
    text::law_decimal_reads_back(id);
    if id > 255 {
        text::law_large_decimal_is_no_byte(id);
    }
}

/// The value under a name is that of the last field that gets the name, the
/// one at `i`; none is there where `i` is before the first.
proof fn lemma_name_is_found(
    t: Table,
    fields: Seq<(Seq<char>, JsonView)>,
    name: Seq<char>,
    i: int,
)
    requires
        -1 <= i < fields.len(),
        i >= 0 ==> renamed_key(t, fields[i].0) == name,
        forall|k: int| i < k < fields.len() ==> renamed_key(t, (#[trigger] fields[k]).0) != name,
    ensures
        i >= 0 ==> lookup(renamed_fields(t, fields), name) == Some(fields[i].1),
        i == -1 ==> lookup(renamed_fields(t, fields), name) is None,
    decreases fields.len(),
{
    if fields.len() > 0 {
        let front = fields.drop_last();
        let last = fields[fields.len() - 1];
        law_put_changes_one_field(
            renamed_fields(t, front),
            renamed_key(t, last.0),
            last.1,
            name,
        );
        if i < front.len() {
            assert(renamed_key(t, last.0) != name);
            assert forall|k: int| i < k < front.len() implies renamed_key(
                t,
                (#[trigger] front[k]).0,
            ) != name by {
                assert(front[k] == fields[k]);
            }
            lemma_name_is_found(t, front, name, i);
        }
    }
}

/// A row keeps every value, under the name of its field: where no other field
/// of the row has that name, it is found there.
pub proof fn law_row_keeps_each_value(t: Table, fields: Seq<(Seq<char>, JsonView)>, i: int)
    requires
        0 <= i < fields.len(),
        forall|k: int|
            0 <= k < fields.len() && k != i ==> renamed_key(t, (#[trigger] fields[k]).0)
                != renamed_key(t, fields[i].0),
    ensures
        renamed_row(t, JsonView::Object(fields)).get(renamed_key(t, fields[i].0)) == Some(
            fields[i].1,
        ),
{
    let key = fields[i].0;
    let name = renamed_key(t, key);
    let sorted = ordered(fields);
    assert forall|k: int| i < k < fields.len() implies (#[trigger] fields[k]).0 != key by {}
    law_ordering_keeps_the_last_value(fields, key);
    crate::json::law_nothing_else_is_found(JsonView::Object(sorted), key);
    let j = choose|j: int|
        0 <= j < sorted.len() && (#[trigger] sorted[j]).0 == key && Some(sorted[j].1) == Some(
            fields[i].1,
        );
    assert forall|k: int| j < k < sorted.len() implies renamed_key(t, (#[trigger] sorted[k]).0)
        != name by {
        lemma_sorted_key_is_a_key(fields, k);
        let m = choose|m: int| 0 <= m < fields.len() && (#[trigger] fields[m]).0 == sorted[k].0;
        if m == i {
            text::lemma_precedes_total(key, key);
            assert(text::precedes(sorted[j].0, sorted[k].0));
        }
    }
    lemma_name_is_found(t, sorted, name, j);
}

proof fn lemma_sorted_key_is_a_key(fields: Seq<(Seq<char>, JsonView)>, k: int)
    requires
        0 <= k < ordered(fields).len(),
    ensures
        exists|m: int| 0 <= m < fields.len() && (#[trigger] fields[m]).0 == ordered(fields)[k].0,
{
    let key = ordered(fields)[k].0;
    if forall|m: int| 0 <= m < fields.len() ==> (#[trigger] fields[m]).0 != key {
        law_ordering_keeps_the_last_value(fields, key);
        let sorted = ordered(fields);
        crate::json::lemma_key_is_found(sorted, k);
    }
}

/// The texts among some values are those values that are texts, in order.
pub proof fn law_texts_are_kept_in_order(items: Seq<JsonView>)
    ensures
        texts_in(items) == items.filter(|v: JsonView| v is Str).map_values(
            |v: JsonView| v->Str_0,
        ),
    decreases items.len(),
{
    reveal(Seq::filter);
    let is_text = |v: JsonView| v is Str;
    let held = |v: JsonView| v->Str_0;
    if items.len() > 0 {
        law_texts_are_kept_in_order(items.drop_last());
        let kept = items.drop_last().filter(is_text);
        assert(kept.push(items.last()).map_values(held) =~= kept.map_values(held).push(
            held(items.last()),
        ));
    }
    assert(texts_in(items) =~= items.filter(is_text).map_values(held));
}

/// An interface gives an identity if it is a Thread radio (type 4 under 7) with
/// a hardware address (under 4): that address, with the addresses under 6.
pub proof fn law_identity_is_that_of_a_thread_radio(item: JsonView)
    ensures
        identity_of(item) is Some <==> item.get("7"@) == Some(JsonView::UInt(4)) && (item.get("4"@)
            matches Some(v) && v is Str),
        identity_of(item) matches Some(id) ==> item.get("4"@) == Some(
            JsonView::Str(id.ext_address),
        ) && id.ipv6 == (match item.get("6"@) {
            Some(JsonView::Array(items)) => items.filter(|v: JsonView| v is Str).map_values(
                |v: JsonView| v->Str_0,
            ),
            _ => Seq::empty(),
        }),
{
    if let Some(JsonView::Array(items)) = item.get("6"@) {
        law_texts_are_kept_in_order(items);
    }
}

/// The first interface that gives an identity is taken.
pub proof fn law_first_thread_radio_is_taken(items: Seq<JsonView>, i: int)
    requires
        0 <= i < items.len(),
        identity_of(items[i]) is Some,
        forall|k: int| 0 <= k < i ==> identity_of(#[trigger] items[k]) is None,
    ensures
        identity_in(JsonView::Array(items)) == identity_of(items[i]),
    decreases i,
{
    if i > 0 {
        let rest = items.skip(1);
        assert(identity_of(items[0]) is None);
        assert(rest[i - 1] == items[i]);
        assert forall|k: int| 0 <= k < i - 1 implies identity_of(#[trigger] rest[k]) is None by {
            assert(rest[k] == items[k + 1]);
        }
        law_first_thread_radio_is_taken(rest, i - 1);
    }
}

/// The signals of a report: how many neighbours it lists, the best quality
/// among them and its routing role. Without a list there are none.
pub proof fn law_signals_are_those_of_the_report(fields: JsonView)
    ensures
        thread_check(fields) is Ok <==> (fields.get("neighbor_table"@) matches Some(v)
            && v is Array),
        thread_check(fields) matches Ok(c) ==> c.neighbor_count == fields.get(
            "neighbor_table"@,
        )->0->Array_0.len() as usize && c.best_lqi == best_lqi(
            fields.get("neighbor_table"@)->0->Array_0,
        ) && (c.routing_role matches Some(r) ==> (fields.get("routing_role"@) matches Some(v)
            && v.as_i64() == Some(r))),
        thread_check(fields) matches Ok(c) ==> (c.routing_role is None <==> !(fields.get(
            "routing_role"@,
        ) matches Some(v) && v.as_i64() is Some)),
        thread_check(fields) matches Err(e) ==> e.kind == ErrorKind::Other,
{
}

} // verus!
