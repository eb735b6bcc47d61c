//! The list of devices: those that offer themselves, and those of the ledger.
use vstd::prelude::*;
use vstd::string::*;
use crate::error::{error, ErrorKind, MatError};
use crate::json::{
    json_views,
    law_first_field_is_found,
    lemma_lookup_absent,
    nullable,
    text_or_null,
    with_field,
    Json,
    JsonView,
};

verus! {

/// A node of the ledger.
#[derive(Debug, PartialEq, Eq)]
pub struct NodeRecord {
    pub node_id: u64,
    pub address: Option<String>,
    pub commissioned_at: String,
}

/// Whether a node of the ledger was looked for, and what was found.
#[derive(Debug, PartialEq, Eq)]
pub enum Reach {
    /// It was not looked for.
    NotAsked,
    /// The search failed.
    Unknown,
    Found { live_address: Option<String> },
    Missing,
}

/// The entry of a node of the ledger. A found node has its live address where
/// there is one; a missing one keeps the old address and is marked as stale.
pub open spec fn entry(n: NodeRecord, reach: Reach) -> JsonView {
    let base = Seq::<(Seq<char>, JsonView)>::empty().push(
        ("state"@, JsonView::Str("commissioned"@)),
    ).push(("node_id"@, JsonView::UInt(n.node_id))).push(
        ("commissioned_at"@, JsonView::Str(n.commissioned_at@)),
    );
    JsonView::Object(
        match reach {
            Reach::NotAsked => base.push(("address"@, text_or_null(n.address))),
            Reach::Unknown => base.push(("address"@, text_or_null(n.address))).push(
                ("reachable"@, JsonView::Null),
            ),
            Reach::Found { live_address } => base.push(
                ("reachable"@, JsonView::Bool(true)),
            ).push(
                (
                    "address"@,
                    match live_address {
                        Some(a) => JsonView::Str(a@),
                        None => text_or_null(n.address),
                    },
                ),
            ),
            Reach::Missing => base.push(("reachable"@, JsonView::Bool(false))).push(
                ("address"@, text_or_null(n.address)),
            ).push(("stale"@, JsonView::Bool(true))),
        },
    )
}

/// The entry of a node of the ledger.
pub fn commissioned_entry(n: &NodeRecord, reach: &Reach) -> (j: Json)
    ensures
        j@ == entry(*n, *reach),
{
    let base = Json::object().with("state", Json::text("commissioned")).with(
        "node_id",
        Json::UInt(n.node_id),
    ).with("commissioned_at", Json::text(&n.commissioned_at));
    match reach {
        Reach::NotAsked => base.with("address", nullable(&n.address)),
        Reach::Unknown => base.with("address", nullable(&n.address)).with("reachable", Json::Null),
        Reach::Found { live_address } => {
            let address = match live_address {
                Some(a) => Json::text(a),
                None => nullable(&n.address),
            };
            base.with("reachable", Json::Bool(true)).with("address", address)
        },
        Reach::Missing => base.with("reachable", Json::Bool(false)).with(
            "address",
            nullable(&n.address),
        ).with("stale", Json::Bool(true)),
    }
}

/// Whether a node was looked for, and what was found: nothing is asked without
/// the wish to, and nothing is known where the search failed.
pub fn reach_of(probe: bool, searched: bool, reachable: bool, live_address: Option<String>) -> (r:
    Reach)
    ensures
        r == if !probe {
            Reach::NotAsked
        } else if !searched {
            Reach::Unknown
        } else if reachable {
            Reach::Found { live_address }
        } else {
            Reach::Missing
        },
{
    if !probe {
        Reach::NotAsked
    } else if !searched {
        Reach::Unknown
    } else if reachable {
        Reach::Found { live_address }
    } else {
        Reach::Missing
    }
}

/// The entry of a device that offers itself: what is known of it, and its
/// state.
pub fn commissionable_entry(device: Json) -> (j: Json)
    ensures
        j@ == with_field(device@, "state"@, JsonView::Str("commissionable"@)),
{
    device.set("state", Json::text("commissionable"))
}

/// The report of the devices: those that offer themselves first.
pub fn devices_body(commissionable: Vec<Json>, commissioned: Vec<Json>) -> (j: Json)
    ensures
        j@ == JsonView::Object(
            Seq::<(Seq<char>, JsonView)>::empty().push(
                (
                    "devices"@,
                    JsonView::Array(json_views(commissionable@) + json_views(commissioned@)),
                ),
            ),
        ),
{
    let ghost a = json_views(commissionable@);
    let ghost b = json_views(commissioned@);
    let mut all = commissionable;
    let mut rest = commissioned;
    all.append(&mut rest);
    assert(json_views(all@) =~= a + b);
    Json::object().with("devices", Json::array(all))
}

/// The failure of the search for devices.
pub fn browse_error(iface: &str, detail: &str) -> (e: MatError)
    ensures
        e@ == error(
            ErrorKind::Unreachable,
            "native commissionable browse failed on "@ + iface@ + ": "@ + detail@,
        ),
{
    MatError::new(
        ErrorKind::Unreachable,
        "native commissionable browse failed on ".to_owned().concat(iface).concat(": ").concat(
            detail,
        ),
    )
}

/// The entries of some devices that offer themselves.
pub open spec fn offered(devices: Seq<JsonView>) -> Seq<JsonView> {
    devices.map_values(|d: JsonView| with_field(d, "state"@, JsonView::Str("commissionable"@)))
}

/// The entries of the nodes of the ledger.
pub open spec fn enrolled(nodes: Seq<NodeRecord>, reach: Seq<Reach>) -> Seq<JsonView> {
    Seq::new(nodes.len(), |i: int| entry(nodes[i], reach[i]))
}

/// What the list of devices holds: those that offer themselves, then the nodes
/// of the ledger, each in the order given.
pub open spec fn devices(
    offers: Seq<JsonView>,
    nodes: Seq<NodeRecord>,
    reach: Seq<Reach>,
) -> JsonView {
    JsonView::Object(
        Seq::<(Seq<char>, JsonView)>::empty().push(
            ("devices"@, JsonView::Array(offered(offers) + enrolled(nodes, reach))),
        ),
    )
}

/// Lists the devices. No list is had without an interface to search on, nor
/// where the search for those that offer themselves failed; that the nodes of
/// the ledger could not be looked for only leaves their reach unknown.
pub fn run(
    iface: Option<&str>,
    browsed: Result<Vec<Json>, String>,
    nodes: &Vec<NodeRecord>,
    reach: &Vec<Reach>,
) -> (r: Result<Json, MatError>)
    requires
        reach.len() == nodes.len(),
    ensures
        match (iface, browsed) {
            (None, _) => r matches Err(e) && e@ == error(
                ErrorKind::Other,
                "discover: native backend not configured (internal)"@,
            ),
            (Some(name), Err(detail)) => r matches Err(e) && e@ == error(
                ErrorKind::Unreachable,
                "native commissionable browse failed on "@ + name@ + ": "@ + detail@,
            ),
            (Some(_), Ok(offers)) => r matches Ok(j) && j@ == devices(
                json_views(offers@),
                nodes@,
                reach@,
            ),
        },
{
    let name = match iface {
        None => {
            return Err(
                MatError::fixed(
                    ErrorKind::Other,
                    "discover: native backend not configured (internal)",
                ),
            );
        },
        Some(name) => name,
    };
    let mut offers = match browsed {
        Err(detail) => {
            return Err(browse_error(name, &detail));
        },
        Ok(offers) => offers,
    };
    let ghost given = json_views(offers@);
    let ghost n = given.len();
    let mut commissionable: Vec<Json> = Vec::new();
    while offers.len() > 0
        invariant
            n == given.len(),
            offers@.len() + commissionable@.len() == n,
            json_views(offers@) == given.skip(commissionable@.len() as int),
            json_views(commissionable@) == offered(given).take(commissionable@.len() as int),
        decreases offers.len(),
    {
        let ghost k = commissionable@.len() as int;
        let ghost before = json_views(commissionable@);
        let ghost rest = json_views(offers@);
        let d = offers.remove(0);
        assert(rest[0] == d@ && given.skip(k)[0] == given[k]);
        assert(json_views(offers@) =~= rest.skip(1));
        assert(rest.skip(1) =~= given.skip(k + 1));
        commissionable.push(commissionable_entry(d));
        assert(json_views(commissionable@) =~= before.push(offered(given)[k]));
        assert(offered(given).take(k + 1) =~= before.push(offered(given)[k]));
    }
    assert(offered(given).take(n as int) =~= offered(given));
    let mut commissioned: Vec<Json> = Vec::new();
    let mut i: usize = 0;
    while i < nodes.len()
        invariant
            i <= nodes.len(),
            reach.len() == nodes.len(),
            json_views(commissioned@) == enrolled(nodes@, reach@).take(i as int),
            commissioned@.len() == i,
        decreases nodes.len() - i,
    {
        let ghost before = json_views(commissioned@);
        commissioned.push(commissioned_entry(&nodes[i], &reach[i]));
        assert(json_views(commissioned@) =~= before.push(enrolled(nodes@, reach@)[i as int]));
        assert(enrolled(nodes@, reach@).take(i + 1) =~= before.push(
            enrolled(nodes@, reach@)[i as int],
        ));
        i += 1;
    }
    assert(enrolled(nodes@, reach@).take(i as int) =~= enrolled(nodes@, reach@));
    Ok(devices_body(commissionable, commissioned))
}

/// Every device that offers itself and every node of the ledger is listed,
/// whatever its reach: none is dropped.
pub proof fn law_no_device_is_dropped(
    offers: Seq<JsonView>,
    nodes: Seq<NodeRecord>,
    reach: Seq<Reach>,
)
    ensures
        devices(offers, nodes, reach) matches JsonView::Object(f) && f[0].1 matches JsonView::Array(
            list,
        ) && list.len() == offers.len() + nodes.len() && (forall|i: int|
            0 <= i < nodes.len() ==> #[trigger] list[offers.len() + i] == entry(
                nodes[i],
                reach[i],
            )),
{
}

/// Without a search the ledger is reported as it is: nothing is said of whether
/// a node answers.
pub proof fn law_unasked_entry_says_nothing_of_reach(n: NodeRecord)
    ensures
        entry(n, Reach::NotAsked).get("reachable"@) is None,
        entry(n, Reach::NotAsked).get("stale"@) is None,
{
    reveal_strlit("state");
    reveal_strlit("node_id");
    reveal_strlit("commissioned_at");
    reveal_strlit("address");
    reveal_strlit("reachable");
    reveal_strlit("stale");
    let f = entry(n, Reach::NotAsked)->Object_0;
    assert(f[0].0 == "state"@ && f[1].0 == "node_id"@ && f[2].0 == "commissioned_at"@ && f[3].0
        == "address"@);
    assert("reachable"@.len() == 9);
    assert("stale"@[3] != "state"@[3]);
    lemma_lookup_absent(f, "reachable"@);
    lemma_lookup_absent(f, "stale"@);
}

/// The entry of a node holds its number, when it was taken in, and its address:
/// the one at which it was just found, else the one that is on record. Whether
/// it can be reached stands there as far as it was asked and is known, and a
/// node that was not found is marked.
pub proof fn law_node_entry_by_name(n: NodeRecord, reach: Reach)
    ensures
        entry(n, reach).get("state"@) == Some(JsonView::Str("commissioned"@)),
        entry(n, reach).get("node_id"@) == Some(JsonView::UInt(n.node_id)),
        entry(n, reach).get("commissioned_at"@) == Some(JsonView::Str(n.commissioned_at@)),
        entry(n, reach).get("address"@) == Some(
            match reach {
                Reach::Found { live_address: Some(a) } => JsonView::Str(a@),
                _ => match n.address {
                    Some(a) => JsonView::Str(a@),
                    None => JsonView::Null,
                },
            },
        ),
        entry(n, reach).get("reachable"@) == match reach {
            Reach::NotAsked => None,
            Reach::Unknown => Some(JsonView::Null),
            Reach::Found { .. } => Some(JsonView::Bool(true)),
            Reach::Missing => Some(JsonView::Bool(false)),
        },
        entry(n, reach).get("stale"@) == match reach {
            Reach::Missing => Some(JsonView::Bool(true)),
            _ => None,
        },
{
    reveal_strlit("state");
    reveal_strlit("node_id");
    reveal_strlit("commissioned_at");
    reveal_strlit("address");
    reveal_strlit("reachable");
    reveal_strlit("stale");
    assert("state"@[3] != "stale"@[3]);
    assert("node_id"@[0] != "address"@[0]);
    let f = entry(n, reach)->Object_0;
    assert(f[0].0 == "state"@);
    assert(f[1].0 == "node_id"@);
    assert(f[2].0 == "commissioned_at"@);
    law_first_field_is_found(f, "state"@, 0);
    law_first_field_is_found(f, "node_id"@, 1);
    law_first_field_is_found(f, "commissioned_at"@, 2);
    match reach {
        Reach::NotAsked => {
            assert(f[3].0 == "address"@);
            law_first_field_is_found(f, "address"@, 3);
            lemma_lookup_absent(f, "reachable"@);
            lemma_lookup_absent(f, "stale"@);
        },
        Reach::Unknown => {
            assert(f[3].0 == "address"@);
            assert(f[4].0 == "reachable"@);
            law_first_field_is_found(f, "address"@, 3);
            law_first_field_is_found(f, "reachable"@, 4);
            lemma_lookup_absent(f, "stale"@);
        },
        Reach::Found { .. } => {
            assert(f[3].0 == "reachable"@);
            assert(f[4].0 == "address"@);
            law_first_field_is_found(f, "reachable"@, 3);
            law_first_field_is_found(f, "address"@, 4);
            lemma_lookup_absent(f, "stale"@);
        },
        Reach::Missing => {
            assert(f[3].0 == "reachable"@);
            assert(f[4].0 == "address"@);
            assert(f[5].0 == "stale"@);
            law_first_field_is_found(f, "reachable"@, 3);
            law_first_field_is_found(f, "address"@, 4);
            law_first_field_is_found(f, "stale"@, 5);
        },
    }
}

/// The devices that can be taken in come first, each as it was seen and marked
/// as such; the nodes follow in the order of the ledger.
pub proof fn law_devices_are_listed_in_order(
    offers: Seq<JsonView>,
    nodes: Seq<NodeRecord>,
    reach: Seq<Reach>,
    i: int,
    key: Seq<char>,
)
    requires
        0 <= i < offers.len(),
        offers[i] is Object,
    ensures
        devices(offers, nodes, reach).get("devices"@) matches Some(JsonView::Array(list))
            && list.len() == offers.len() + nodes.len() && list[i].get("state"@) == Some(
            JsonView::Str("commissionable"@),
        ) && (key != "state"@ ==> list[i].get(key) == offers[i].get(key)),
{
    law_first_field_is_found(devices(offers, nodes, reach)->Object_0, "devices"@, 0);
    crate::json::law_put_changes_one_field(
        offers[i]->Object_0,
        "state"@,
        JsonView::Str("commissionable"@),
        key,
    );
    crate::json::law_put_changes_one_field(
        offers[i]->Object_0,
        "state"@,
        JsonView::Str("commissionable"@),
        "state"@,
    );
}

} // verus!
