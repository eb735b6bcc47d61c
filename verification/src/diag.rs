//! The diagnosis of a node and of the mesh.
use vstd::prelude::*;
use vstd::string::*;
use crate::error::{all_checked, error, first_error, ErrorKind, ErrorView, MatError};
use crate::json::{json_views, Json, JsonView};
use crate::native_direct::{DiagImProbe, ProbeData};
use crate::probe::{instances, InstanceView, MatterInstance};
use crate::text;
use crate::thread::ThreadCheck;

verus! {

/// Numbers without those that came before, in order.
pub open spec fn distinct(ids: Seq<u64>) -> Seq<u64>
    decreases ids.len(),
{
    if ids.len() == 0 {
        Seq::empty()
    } else {
        let front = distinct(ids.drop_last());
        if front.contains(ids.last()) {
            front
        } else {
            front.push(ids.last())
        }
    }
}

fn has_id(v: &Vec<u64>, id: u64) -> (r: bool)
    ensures
        r == v@.contains(id),
{
    let mut i: usize = 0;
    while i < v.len()
        invariant
            i <= v.len(),
            forall|k: int| 0 <= k < i ==> v@[k] != id,
        decreases v.len() - i,
    {
        if v[i] == id {
            assert(v@[i as int] == id);
            return true;
        }
        i += 1;
    }
    false
}

/// Leaves out numbers that came before.
pub fn dedup_preserving_order(ids: &[u64]) -> (r: Vec<u64>)
    ensures
        r@ == distinct(ids@),
{
    let mut r: Vec<u64> = Vec::new();
    let mut i: usize = 0;
    while i < ids.len()
        invariant
            i <= ids.len(),
            r@ == distinct(ids@.take(i as int)),
        decreases ids.len() - i,
    {
        assert(ids@.take(i + 1).drop_last() =~= ids@.take(i as int));
        if !has_id(&r, ids[i]) {
            r.push(ids[i]);
        }
        i += 1;
    }
    assert(ids@.take(i as int) =~= ids@);
    r
}

/// Each number stays once, and no other comes in.
pub proof fn law_dedup_keeps_each_once(ids: Seq<u64>)
    ensures
        distinct(ids).no_duplicates(),
        forall|id: u64| distinct(ids).contains(id) <==> ids.contains(id),
    decreases ids.len(),
{
    if ids.len() > 0 {
        let front = ids.drop_last();
        law_dedup_keeps_each_once(front);
        assert forall|id: u64| distinct(ids).contains(id) <==> ids.contains(id) by {
            assert(distinct(front).contains(id) <==> front.contains(id));
            if ids.contains(id) {
                let i = choose|i: int| 0 <= i < ids.len() && ids[i] == id;
                if i < front.len() {
                    assert(front[i] == id);
                    let k = choose|k: int|
                        0 <= k < distinct(front).len() && distinct(front)[k] == id;
                    assert(distinct(ids)[k] == id);
                } else if distinct(front).contains(id) {
                } else {
                    assert(distinct(ids)[distinct(front).len() as int] == id);
                }
            }
            if distinct(ids).contains(id) {
                let k = choose|k: int| 0 <= k < distinct(ids).len() && distinct(ids)[k] == id;
                if k < distinct(front).len() {
                    assert(distinct(front)[k] == id);
                    let i = choose|i: int| 0 <= i < front.len() && front[i] == id;
                    assert(ids[i] == id);
                } else {
                    assert(ids[ids.len() - 1] == id);
                }
            }
        }
    }
}

/// The nodes to look at: all of the ledger, or those given, each once.
pub fn mesh_targets(given: &Vec<u64>, ledger: &Vec<u64>) -> (r: Vec<u64>)
    ensures
        given.len() == 0 ==> r@ == ledger@,
        given.len() > 0 ==> r@ == distinct(given@),
{
    if given.len() > 0 {
        return dedup_preserving_order(given.as_slice());
    }
    let mut r: Vec<u64> = Vec::new();
    let mut i: usize = 0;
    while i < ledger.len()
        invariant
            i <= ledger.len(),
            r@ == ledger@.take(i as int),
        decreases ledger.len() - i,
    {
        r.push(ledger[i]);
        assert(r@ =~= ledger@.take(i + 1));
        i += 1;
    }
    assert(ledger@.take(i as int) =~= ledger@);
    r
}

/// What one node gave to the picture of the mesh.
#[derive(Debug, PartialEq, Eq)]
pub struct MeshProbeItem {
    pub node_id: u64,
    pub result: Result<ProbeData, MatError>,
}

/// How many nodes failed with a kind.
pub open spec fn failed_with(items: Seq<MeshProbeItem>, kind: ErrorKind) -> nat
    decreases items.len(),
{
    if items.len() == 0 {
        0
    } else {
        failed_with(items.drop_last(), kind) + if items.last().result matches Err(e) && e.kind
            == kind {
            1nat
        } else {
            0nat
        }
    }
}

/// The kinds that nodes failed with, in the order in which they came up.
pub open spec fn kinds(items: Seq<MeshProbeItem>) -> Seq<ErrorKind>
    decreases items.len(),
{
    if items.len() == 0 {
        Seq::empty()
    } else {
        let front = kinds(items.drop_last());
        match items.last().result {
            Err(e) if !front.contains(e.kind) => front.push(e.kind),
            _ => front,
        }
    }
}

/// The kind among some that the most nodes failed with; of equals the first.
pub open spec fn most_frequent(items: Seq<MeshProbeItem>, ks: Seq<ErrorKind>) -> (ErrorKind, nat)
    decreases ks.len(),
{
    if ks.len() == 0 {
        (ErrorKind::Other, 0)
    } else {
        let best = most_frequent(items, ks.drop_last());
        let n = failed_with(items, ks.last());
        if n > best.1 {
            (ks.last(), n)
        } else {
            best
        }
    }
}

/// The failures of the nodes.
pub open spec fn failure_list(items: Seq<MeshProbeItem>) -> Seq<Seq<char>>
    decreases items.len(),
{
    if items.len() == 0 {
        Seq::empty()
    } else {
        let front = failure_list(items.drop_last());
        match items.last().result {
            Err(e) => front.push(
                "node "@ + text::dec(items.last().node_id as nat) + ": "@ + e.detail@,
            ),
            Ok(_) => front,
        }
    }
}

/// The failure of a picture that no node gave to.
pub open spec fn dominant(items: Seq<MeshProbeItem>) -> ErrorView {
    error(
        most_frequent(items, kinds(items)).0,
        "all "@ + text::dec(items.len()) + " mesh probes failed: "@ + text::joined(
            failure_list(items),
            "; "@,
        ),
    )
}

fn count_failed(items: &Vec<MeshProbeItem>, kind: ErrorKind) -> (n: usize)
    ensures
        n == failed_with(items@, kind),
{
    let mut n: usize = 0;
    let mut i: usize = 0;
    while i < items.len()
        invariant
            i <= items.len(),
            n <= i,
            n == failed_with(items@.take(i as int), kind),
        decreases items.len() - i,
    {
        assert(items@.take(i + 1).drop_last() =~= items@.take(i as int));
        if let Err(e) = &items[i].result {
            if e.kind == kind {
                n += 1;
            }
        }
        i += 1;
    }
    assert(items@.take(i as int) =~= items@);
    n
}

fn has_kind(v: &Vec<ErrorKind>, kind: ErrorKind) -> (r: bool)
    ensures
        r == v@.contains(kind),
{
    let mut i: usize = 0;
    while i < v.len()
        invariant
            i <= v.len(),
            forall|k: int| 0 <= k < i ==> v@[k] != kind,
        decreases v.len() - i,
    {
        if v[i] == kind {
            assert(v@[i as int] == kind);
            return true;
        }
        i += 1;
    }
    false
}

fn list_kinds(items: &Vec<MeshProbeItem>) -> (r: Vec<ErrorKind>)
    ensures
        r@ == kinds(items@),
{
    let mut r: Vec<ErrorKind> = Vec::new();
    let mut i: usize = 0;
    while i < items.len()
        invariant
            i <= items.len(),
            r@ == kinds(items@.take(i as int)),
        decreases items.len() - i,
    {
        assert(items@.take(i + 1).drop_last() =~= items@.take(i as int));
        if let Err(e) = &items[i].result {
            if !has_kind(&r, e.kind) {
                r.push(e.kind);
            }
        }
        i += 1;
    }
    assert(items@.take(i as int) =~= items@);
    r
}

fn pick_kind(items: &Vec<MeshProbeItem>) -> (k: ErrorKind)
    ensures
        k == most_frequent(items@, kinds(items@)).0,
{
    let ks = list_kinds(items);
    let mut best = ErrorKind::Other;
    let mut best_n: usize = 0;
    let mut i: usize = 0;
    while i < ks.len()
        invariant
            i <= ks.len(),
            (best, best_n as nat) == most_frequent(items@, ks@.take(i as int)),
        decreases ks.len() - i,
    {
        assert(ks@.take(i + 1).drop_last() =~= ks@.take(i as int));
        let n: usize = count_failed(items, ks[i]);
        if n > best_n {
            best = ks[i];
            best_n = n;
        }
        i += 1;
    }
    assert(ks@.take(i as int) =~= ks@);
    best
}

fn list_failures(items: &Vec<MeshProbeItem>) -> (r: Vec<String>)
    ensures
        text::texts(r@) == failure_list(items@),
{
    let mut r: Vec<String> = Vec::new();
    assert(text::texts(r@) =~= Seq::empty());
    let mut i: usize = 0;
    while i < items.len()
        invariant
            i <= items.len(),
            text::texts(r@) == failure_list(items@.take(i as int)),
        decreases items.len() - i,
    {
        assert(items@.take(i + 1).drop_last() =~= items@.take(i as int));
        if let Err(e) = &items[i].result {
            let ghost before = text::texts(r@);
            let line = "node ".to_owned().concat(&text::decimal(items[i].node_id)).concat(
                ": ",
            ).concat(&e.detail);
            let ghost lv = line@;
            r.push(line);
            assert(text::texts(r@) =~= before.push(lv));
        }
        i += 1;
    }
    assert(items@.take(i as int) =~= items@);
    r
}

/// The failure of a picture that no node gave to: of the kind that came most
/// often, and of equals the one that came first.
pub fn dominant_error(items: &Vec<MeshProbeItem>) -> (e: MatError)
    ensures
        e@ == dominant(items@),
{
    MatError::new(
        pick_kind(items),
        "all ".to_owned().concat(&text::decimal(items.len() as u64)).concat(
            " mesh probes failed: ",
        ).concat(&text::join(&list_failures(items), "; ")),
    )
}

/// Whether every one of some nodes failed.
pub open spec fn all_failed(items: Seq<MeshProbeItem>) -> bool {
    items.len() > 0 && forall|i: int|
        0 <= i < items.len() ==> (#[trigger] items[i]).result is Err
}

/// Fails the picture of the mesh only where every node failed; a picture of no
/// nodes is empty.
pub fn mesh(items: &Vec<MeshProbeItem>) -> (r: Result<(), MatError>)
    ensures
        r is Err <==> all_failed(items@),
        r matches Err(e) ==> e@ == dominant(items@),
{
    if items.len() == 0 {
        return Ok(());
    }
    let mut i: usize = 0;
    while i < items.len()
        invariant
            i <= items.len(),
            forall|k: int| 0 <= k < i ==> (#[trigger] items@[k]).result is Err,
        decreases items.len() - i,
    {
        if items[i].result.is_ok() {
            assert(!(items@[i as int].result is Err));
            return Ok(());
        }
        i += 1;
    }
    Err(dominant_error(items))
}

proof fn lemma_most_frequent(items: Seq<MeshProbeItem>, ks: Seq<ErrorKind>, i: int)
    requires
        0 <= i < ks.len(),
    ensures
        failed_with(items, ks[i]) <= most_frequent(items, ks).1,
        most_frequent(items, ks).1 > 0 ==> most_frequent(items, ks).1 == failed_with(
            items,
            most_frequent(items, ks).0,
        ),
    decreases ks.len(),
{
    reveal_with_fuel(most_frequent, 2);
    let front = ks.drop_last();
    if front.len() > 0 {
        lemma_most_frequent(
            items,
            front,
            if i < front.len() {
                i
            } else {
                0
            },
        );
    }
}

proof fn lemma_kinds_cover(items: Seq<MeshProbeItem>, i: int)
    requires
        0 <= i < items.len(),
        items[i].result is Err,
    ensures
        kinds(items).contains(items[i].result->Err_0.kind),
        failed_with(items, items[i].result->Err_0.kind) > 0,
    decreases items.len(),
{
    let front = items.drop_last();
    let k = items[i].result->Err_0.kind;
    if i < front.len() {
        lemma_kinds_cover(front, i);
        let j = choose|j: int| 0 <= j < kinds(front).len() && kinds(front)[j] == k;
        assert(kinds(items)[j] == k);
    } else if kinds(front).contains(k) {
    } else {
        assert(kinds(items)[kinds(front).len() as int] == k);
    }
}

/// No kind came more often than the one of the failure.
pub proof fn law_dominant_kind_is_most_frequent(items: Seq<MeshProbeItem>, i: int)
    requires
        0 <= i < items.len(),
        items[i].result is Err,
    ensures
        failed_with(items, items[i].result->Err_0.kind) <= failed_with(items, dominant(items).kind),
{
    lemma_kinds_cover(items, i);
    let ks = kinds(items);
    let k = items[i].result->Err_0.kind;
    let j = choose|j: int| 0 <= j < ks.len() && ks[j] == k;
    lemma_most_frequent(items, ks, j);
}

proof fn lemma_most_frequent_is_first(items: Seq<MeshProbeItem>, ks: Seq<ErrorKind>) -> (p: int)
    requires
        most_frequent(items, ks).1 > 0,
    ensures
        0 <= p < ks.len(),
        ks[p] == most_frequent(items, ks).0,
        forall|q: int|
            0 <= q < p ==> failed_with(items, #[trigger] ks[q]) < most_frequent(items, ks).1,
    decreases ks.len(),
{
    let front = ks.drop_last();
    let best = most_frequent(items, front);
    if failed_with(items, ks.last()) > best.1 {
        assert forall|q: int| 0 <= q < ks.len() - 1 implies failed_with(items, #[trigger] ks[q])
            < most_frequent(items, ks).1 by {
            assert(front[q] == ks[q]);
            lemma_most_frequent(items, front, q);
        }
        ks.len() - 1
    } else {
        let p = lemma_most_frequent_is_first(items, front);
        assert forall|q: int| 0 <= q < p implies failed_with(items, #[trigger] ks[q])
            < most_frequent(items, ks).1 by {
            assert(front[q] == ks[q]);
        }
        p
    }
}

proof fn lemma_kinds_in_order(items: Seq<MeshProbeItem>, n: int)
    requires
        0 <= n <= items.len(),
    ensures
        kinds(items.take(n)).is_prefix_of(kinds(items)),
    decreases items.len(),
{
    if n < items.len() {
        let front = items.drop_last();
        assert(front.take(n) =~= items.take(n));
        lemma_kinds_in_order(front, n);
    } else {
        assert(items.take(n) =~= items);
    }
}

proof fn lemma_kinds_occur(items: Seq<MeshProbeItem>, p: int) -> (j: int)
    requires
        0 <= p < kinds(items).len(),
    ensures
        0 <= j < items.len(),
        items[j].result matches Err(e) && e.kind == kinds(items)[p],
    decreases items.len(),
{
    let front = items.drop_last();
    if p < kinds(front).len() {
        lemma_kinds_occur(front, p)
    } else {
        items.len() - 1
    }
}

/// Of kinds that came equally often the one that came first is the failure's:
/// no node that failed with another one stands before every node that failed
/// with it.
pub proof fn law_dominant_kind_came_first(items: Seq<MeshProbeItem>, i: int)
    requires
        0 <= i < items.len(),
        items[i].result matches Err(e) && failed_with(items, e.kind) == failed_with(
            items,
            dominant(items).kind,
        ),
    ensures
        exists|j: int|
            0 <= j <= i && ((#[trigger] items[j]).result matches Err(e) && e.kind == dominant(
                items,
            ).kind),
{
    let ks = kinds(items);
    let k = items[i].result->Err_0.kind;
    lemma_kinds_cover(items, i);
    let any = choose|q: int| 0 <= q < ks.len() && ks[q] == k;
    lemma_most_frequent(items, ks, any);
    let p = lemma_most_frequent_is_first(items, ks);
    let start = items.take(i + 1);
    assert(start[i] == items[i]);
    lemma_kinds_cover(start, i);
    lemma_kinds_in_order(items, i + 1);
    let q = choose|q: int| 0 <= q < kinds(start).len() && kinds(start)[q] == k;
    assert(ks[q] == k);
    assert(p <= q);
    let j = lemma_kinds_occur(start, p);
    assert(start[j] == items[j]);
    assert(kinds(start)[p] == ks[p]);
}

/// The word for a failed check: a missing tool has one of its own.
pub open spec fn check_kind(e: ErrorView) -> JsonView {
    if e.kind == ErrorKind::ChildNotFound {
        JsonView::Str("tool_missing"@)
    } else {
        JsonView::Str(e.kind.name())
    }
}

/// The word for a failed check.
pub fn probe_error_kind(e: &MatError) -> (j: Json)
    ensures
        j@ == check_kind(e@),
{
    if e.kind == ErrorKind::ChildNotFound {
        Json::text("tool_missing")
    } else {
        Json::text(e.kind.as_str())
    }
}

/// A check that could not be made, by name and word.
pub open spec fn missing_check(check: Seq<char>, kind: JsonView) -> JsonView {
    JsonView::Object(
        Seq::<(Seq<char>, JsonView)>::empty().push(("check"@, JsonView::Str(check))).push(
            ("kind"@, kind),
        ),
    )
}

/// A check that could not be made, with what went wrong.
pub open spec fn failed_check(check: Seq<char>, kind: JsonView, detail: Seq<char>) -> JsonView {
    JsonView::Object(
        Seq::<(Seq<char>, JsonView)>::empty().push(("check"@, JsonView::Str(check))).push(
            ("kind"@, kind),
        ).push(("detail"@, JsonView::Str(detail))),
    )
}

fn missing(check: &str, kind: Json) -> (j: Json)
    ensures
        j@ == missing_check(check@, kind@),
{
    Json::object().with("check", Json::text(check)).with("kind", kind)
}

fn failed(check: &str, kind: Json, detail: &str) -> (j: Json)
    ensures
        j@ == failed_check(check@, kind@, detail@),
{
    Json::object().with("check", Json::text(check)).with("kind", kind).with(
        "detail",
        Json::text(detail),
    )
}

/// What pings gave; the round trip time is carried as it came.
#[derive(Debug, PartialEq, Eq)]
pub struct Ping6Stats<R> {
    pub loss_pct: u8,
    pub rtt_ms: R,
}

/// Whether an address answers.
#[derive(Debug, PartialEq, Eq)]
pub struct IpCheck<R> {
    pub ok: bool,
    pub loss_pct: u8,
    pub rtt_ms: R,
}

impl<R> IpCheck<R> {
    /// The word for how an address is asked.
    pub fn method(&self) -> (s: &'static str)
        ensures
            s@ == "ping6"@,
    {
        "ping6"
    }
}

/// Whether a node is announced: by anyone at its address, and by this fabric.
#[derive(Debug, Clone, Copy, PartialEq, Eq, Structural)]
pub struct MdnsCheck {
    pub advertised_self_fabric: Option<bool>,
    pub advertised_any_fabric: bool,
}

/// Whether an address is among those of a found node.
pub open spec fn has_address(i: InstanceView, addr: Seq<char>) -> bool {
    i.addresses.contains(addr)
}

/// Whether a node is announced at all: at its address where one is known, else
/// by its number.
pub open spec fn announced(found: Seq<InstanceView>, node_id: u64, addr: Option<Seq<char>>) -> bool {
    match addr {
        Some(a) => exists|i: int| 0 <= i < found.len() && has_address(#[trigger] found[i], a),
        None => exists|i: int| 0 <= i < found.len() && (#[trigger] found[i]).node_id == node_id,
    }
}

/// Whether a node is announced by a fabric at an address.
pub open spec fn announced_by(found: Seq<InstanceView>, fabric: Seq<char>, addr: Seq<char>) -> bool {
    exists|i: int|
        0 <= i < found.len() && (#[trigger] found[i]).compressed_fabric == fabric && has_address(
            found[i],
            addr,
        )
}

/// Whether a node is announced; by this fabric only where fabric and address
/// are known.
pub open spec fn mdns_check(
    found: Seq<InstanceView>,
    node_id: u64,
    fabric: Option<Seq<char>>,
    addr: Option<Seq<char>>,
) -> MdnsCheck {
    MdnsCheck {
        advertised_self_fabric: match (fabric, addr) {
            (Some(f), Some(a)) => Some(announced_by(found, f, a)),
            _ => None,
        },
        advertised_any_fabric: announced(found, node_id, addr),
    }
}

fn at_address(i: &MatterInstance, addr: &str) -> (r: bool)
    ensures
        r == has_address(i@, addr@),
{
    let ghost all = text::texts(i.addresses@);
    let mut k: usize = 0;
    while k < i.addresses.len()
        invariant
            k <= i.addresses.len(),
            all == text::texts(i.addresses@),
            forall|j: int| 0 <= j < k ==> all[j] != addr@,
        decreases i.addresses.len() - k,
    {
        if text::same(i.addresses[k].as_str(), addr) {
            assert(all[k as int] == addr@);
            return true;
        }
        k += 1;
    }
    false
}

fn any_announced(found: &Vec<MatterInstance>, node_id: u64, addr: &Option<String>) -> (r: bool)
    ensures
        r == announced(instances(found@), node_id, opt_text(*addr)),
{
    let ghost all = instances(found@);
    let mut i: usize = 0;
    while i < found.len()
        invariant
            i <= found.len(),
            all == instances(found@),
            addr matches Some(a) ==> forall|k: int|
                0 <= k < i ==> !has_address(#[trigger] all[k], a@),
            addr is None ==> forall|k: int| 0 <= k < i ==> (#[trigger] all[k]).node_id != node_id,
        decreases found.len() - i,
    {
        assert(all[i as int] == found@[i as int]@);
        let here = match addr {
            Some(a) => at_address(&found[i], a.as_str()),
            None => found[i].node_id == node_id,
        };
        if here {
            return true;
        }
        i += 1;
    }
    false
}

fn self_announced(found: &Vec<MatterInstance>, fabric: &str, addr: &str) -> (r: bool)
    ensures
        r == announced_by(instances(found@), fabric@, addr@),
{
    let ghost all = instances(found@);
    let mut i: usize = 0;
    while i < found.len()
        invariant
            i <= found.len(),
            all == instances(found@),
            forall|k: int|
                0 <= k < i ==> !((#[trigger] all[k]).compressed_fabric == fabric@ && has_address(
                    all[k],
                    addr@,
                )),
        decreases found.len() - i,
    {
        assert(all[i as int] == found@[i as int]@);
        if text::same(found[i].compressed_fabric.as_str(), fabric) && at_address(&found[i], addr) {
            return true;
        }
        i += 1;
    }
    false
}

/// What a text that may be missing holds.
pub open spec fn opt_text(s: Option<String>) -> Option<Seq<char>> {
    match s {
        Some(s) => Some(s@),
        None => None,
    }
}

/// What the further checks of a node found.
#[derive(Debug, PartialEq, Eq)]
pub struct DeepProbes<R> {
    pub ip: Option<IpCheck<R>>,
    pub mdns: Option<MdnsCheck>,
    pub unavailable: Vec<Json>,
}

/// What is said of the check of the address that could not be made.
pub open spec fn ip_missing<R>(
    address: Option<String>,
    ping: Result<Ping6Stats<R>, MatError>,
) -> Option<JsonView> {
    match (address, ping) {
        (None, _) => Some(missing_check("ip"@, JsonView::Str("no_address_in_store"@))),
        (Some(_), Err(e)) => Some(failed_check("ip"@, check_kind(e@), e.detail@)),
        (Some(_), Ok(_)) => None,
    }
}

/// What is said of the check of the announcement that could not be made.
pub open spec fn mdns_missing(
    self_cfid: Option<String>,
    found: Result<Vec<MatterInstance>, MatError>,
) -> Option<JsonView> {
    match (found, self_cfid) {
        (Err(e), _) => Some(failed_check("mdns"@, check_kind(e@), e.detail@)),
        (Ok(_), None) => Some(
            failed_check(
                "mdns_self_fabric"@,
                JsonView::Str("cfid_unavailable"@),
                "could not obtain self compressed-fabric-id"@,
            ),
        ),
        (Ok(_), Some(_)) => None,
    }
}

/// A list with a value behind it where there is one.
pub open spec fn then_one(list: Seq<JsonView>, v: Option<JsonView>) -> Seq<JsonView> {
    match v {
        Some(v) => list.push(v),
        None => list,
    }
}

/// Sums up the further checks of a node: whether its address answers (`ping` is
/// asked only where there is one), and whether it is announced.
pub fn deep_probes<R>(
    node_id: u64,
    address: &Option<String>,
    ping: Result<Ping6Stats<R>, MatError>,
    self_cfid: &Option<String>,
    found: Result<Vec<MatterInstance>, MatError>,
) -> (d: DeepProbes<R>)
    ensures
        d.ip is Some <==> address is Some && ping is Ok,
        d.ip matches Some(c) ==> c.ok == (ping->Ok_0.loss_pct < 100) && c.loss_pct
            == ping->Ok_0.loss_pct && c.rtt_ms == ping->Ok_0.rtt_ms,
        d.mdns is Some <==> found is Ok,
        d.mdns matches Some(c) ==> c == mdns_check(
            instances(found->Ok_0@),
            node_id,
            opt_text(*self_cfid),
            opt_text(*address),
        ),
        json_views(d.unavailable@) == then_one(
            then_one(Seq::empty(), ip_missing(*address, ping)),
            mdns_missing(*self_cfid, found),
        ),
{
    let mut unavailable: Vec<Json> = Vec::new();
    assert(json_views(unavailable@) =~= Seq::empty());
    let ghost list0 = json_views(unavailable@);
    let ip = match address {
        None => {
            let j = missing("ip", Json::text("no_address_in_store"));
            let ghost jv = j@;
            unavailable.push(j);
            assert(json_views(unavailable@) =~= list0.push(jv));
            None
        },
        Some(_) => match ping {
            Ok(stats) => Some(
                IpCheck {
                    ok: stats.loss_pct < 100,
                    loss_pct: stats.loss_pct,
                    rtt_ms: stats.rtt_ms,
                },
            ),
            Err(e) => {
                let j = failed("ip", probe_error_kind(&e), e.detail.as_str());
                let ghost jv = j@;
                unavailable.push(j);
                assert(json_views(unavailable@) =~= list0.push(jv));
                None
            },
        },
    };
    let ghost list1 = json_views(unavailable@);
    let mdns = match found {
        Ok(v) => {
            let advertised_self_fabric = match (self_cfid, address) {
                (Some(f), Some(a)) => Some(self_announced(&v, f.as_str(), a.as_str())),
                _ => None,
            };
            if self_cfid.is_none() {
                let j = failed(
                    "mdns_self_fabric",
                    Json::text("cfid_unavailable"),
                    "could not obtain self compressed-fabric-id",
                );
                let ghost jv = j@;
                unavailable.push(j);
                assert(json_views(unavailable@) =~= list1.push(jv));
            }
            Some(
                MdnsCheck {
                    advertised_self_fabric,
                    advertised_any_fabric: any_announced(&v, node_id, address),
                },
            )
        },
        Err(e) => {
            let j = failed("mdns", probe_error_kind(&e), e.detail.as_str());
            let ghost jv = j@;
            unavailable.push(j);
            assert(json_views(unavailable@) =~= list1.push(jv));
            None
        },
    };
    DeepProbes { ip, mdns, unavailable }
}

/// What is said of the further checks when they were not asked for.
pub fn skipped_probes() -> (v: Vec<Json>)
    ensures
        json_views(v@) == Seq::<JsonView>::empty().push(
            missing_check("ip"@, JsonView::Str("skipped_no_deep"@)),
        ).push(missing_check("mdns"@, JsonView::Str("skipped_no_deep"@))),
{
    let mut v: Vec<Json> = Vec::new();
    v.push(missing("ip", Json::text("skipped_no_deep")));
    v.push(missing("mdns", Json::text("skipped_no_deep")));
    assert(json_views(v@) =~= Seq::<JsonView>::empty().push(
        missing_check("ip"@, JsonView::Str("skipped_no_deep"@)),
    ).push(missing_check("mdns"@, JsonView::Str("skipped_no_deep"@))));
    v
}

/// What is said of the Thread signals that could not be read.
pub fn thread_missing(kind: ErrorKind) -> (j: Json)
    ensures
        j@ == missing_check("thread"@, JsonView::Str(kind.name())),
{
    missing("thread", Json::text(kind.as_str()))
}

/// The report of a node's diagnosis; what could not be checked is listed where
/// there is any.
pub open spec fn node_report(
    node_id: u64,
    endpoint: u16,
    verdict: JsonView,
    summary: Seq<char>,
    checks: JsonView,
    unavailable: Seq<JsonView>,
    recommendation: Seq<char>,
) -> JsonView {
    let base = Seq::<(Seq<char>, JsonView)>::empty().push(
        ("node_id"@, JsonView::UInt(node_id)),
    ).push(("endpoint"@, JsonView::UInt(endpoint as u64))).push(("verdict"@, verdict)).push(
        ("summary"@, JsonView::Str(summary)),
    ).push(("checks"@, checks));
    JsonView::Object(
        (if unavailable.len() == 0 {
            base
        } else {
            base.push(("unavailable"@, JsonView::Array(unavailable)))
        }).push(("recommendation"@, JsonView::Str(recommendation))),
    )
}

/// Reports a node's diagnosis.
pub fn node(
    node_id: u64,
    endpoint: u16,
    verdict: Json,
    summary: &str,
    checks: Json,
    unavailable: Vec<Json>,
    recommendation: &str,
) -> (j: Json)
    ensures
        j@ == node_report(
            node_id,
            endpoint,
            verdict@,
            summary@,
            checks@,
            json_views(unavailable@),
            recommendation@,
        ),
{
    let base = Json::object().with("node_id", Json::UInt(node_id)).with(
        "endpoint",
        Json::UInt(endpoint as u64),
    ).with("verdict", verdict).with("summary", Json::text(summary)).with("checks", checks);
    let base = if unavailable.len() == 0 {
        base
    } else {
        base.with("unavailable", Json::array(unavailable))
    };
    base.with("recommendation", Json::text(recommendation))
}

/// What is known of a node, and what is not.
#[derive(Debug, PartialEq, Eq)]
pub struct NodeChecks<R> {
    /// Whether the node answered, and how it failed where it did not.
    pub resolved: bool,
    pub op_kind: Option<ErrorKind>,
    pub thread: Option<ThreadCheck>,
    pub ip: Option<IpCheck<R>>,
    pub mdns: Option<MdnsCheck>,
    /// The checks that could not be made, and why.
    pub unavailable: Vec<Json>,
}

/// What is said of a Thread check that could not be made.
pub open spec fn thread_gap(thread: Result<ThreadCheck, ErrorKind>) -> Option<JsonView> {
    match thread {
        Ok(_) => None,
        Err(kind) => Some(missing_check("thread"@, JsonView::Str(kind.name()))),
    }
}

/// Puts the checks of a node together: what its session said, then what was
/// probed beside it, or that nothing was.
pub fn node_checks<R>(im: DiagImProbe, deep: Option<DeepProbes<R>>) -> (c: NodeChecks<R>)
    ensures
        c.resolved == im.resolved,
        c.op_kind == im.op_kind,
        c.thread == match im.thread {
            Ok(t) => Some(t),
            Err(_) => None,
        },
        match deep {
            Some(d) => c.ip == d.ip && c.mdns == d.mdns && json_views(c.unavailable@) == then_one(
                Seq::empty(),
                thread_gap(im.thread),
            ) + json_views(d.unavailable@),
            None => c.ip is None && c.mdns is None && json_views(c.unavailable@) == then_one(
                Seq::empty(),
                thread_gap(im.thread),
            ).push(missing_check("ip"@, JsonView::Str("skipped_no_deep"@))).push(
                missing_check("mdns"@, JsonView::Str("skipped_no_deep"@)),
            ),
        },
{
    let mut unavailable: Vec<Json> = Vec::new();
    let ghost gap = thread_gap(im.thread);
    let thread = match im.thread {
        Ok(t) => Some(t),
        Err(kind) => {
            unavailable.push(thread_missing(kind));
            None
        },
    };
    assert(json_views(unavailable@) =~= then_one(Seq::empty(), gap));
    let ghost front = json_views(unavailable@);
    match deep {
        Some(d) => {
            let ghost rest = json_views(d.unavailable@);
            let mut more = d.unavailable;
            unavailable.append(&mut more);
            assert(json_views(unavailable@) =~= front + rest);
            NodeChecks {
                resolved: im.resolved,
                op_kind: im.op_kind,
                thread,
                ip: d.ip,
                mdns: d.mdns,
                unavailable,
            }
        },
        None => {
            let mut more = skipped_probes();
            let ghost rest = json_views(more@);
            unavailable.append(&mut more);
            assert(json_views(unavailable@) =~= front + rest);
            assert(front + rest =~= front.push(rest[0]).push(rest[1]));
            NodeChecks {
                resolved: im.resolved,
                op_kind: im.op_kind,
                thread,
                ip: None,
                mdns: None,
                unavailable,
            }
        },
    }
}

/// Begins the survey of the mesh: the nodes to probe. A node that is not in the
/// ledger ends it; without nodes no backend is needed.
pub fn mesh_begin(
    given: &Vec<u64>,
    checks: &Vec<Result<(), MatError>>,
    ledger: &Vec<u64>,
    configured: bool,
) -> (r: Result<Vec<u64>, MatError>)
    requires
        checks.len() == given.len(),
    ensures
        ({
            let targets = if given.len() == 0 {
                ledger@
            } else {
                distinct(given@)
            };
            match first_error(checks@) {
                Some(x) => r matches Err(e) && e@ == x,
                None => if targets.len() > 0 && !configured {
                    r matches Err(e) && e@ == error(
                        ErrorKind::Other,
                        "diag mesh: native backend not configured (internal)"@,
                    )
                } else {
                    r matches Ok(v) && v@ == targets
                },
            }
        }),
{
    match all_checked(checks) {
        Err(e) => {
            return Err(e);
        },
        Ok(()) => {},
    }
    let targets = mesh_targets(given, ledger);
    if targets.len() > 0 && !configured {
        return Err(
            MatError::fixed(
                ErrorKind::Other,
                "diag mesh: native backend not configured (internal)",
            ),
        );
    }
    Ok(targets)
}

/// The failure to start the ping tool.
pub open spec fn spawn_failure(tool_missing: bool, bin: Seq<char>, detail: Seq<char>) -> ErrorView {
    if tool_missing {
        error(ErrorKind::ChildNotFound, "ping6 not found ("@ + text::quoted_text(bin) + ")"@)
    } else {
        error(
            ErrorKind::Other,
            "ping6 spawn failed ("@ + text::quoted_text(bin) + "): "@ + detail,
        )
    }
}

/// The failure to start the ping tool.
pub fn ping6_spawn_error(tool_missing: bool, bin: &str, detail: &str) -> (e: MatError)
    ensures
        e@ == spawn_failure(tool_missing, bin@, detail@),
{
    if tool_missing {
        MatError::new(
            ErrorKind::ChildNotFound,
            "ping6 not found (".to_owned().concat(&text::quote(bin)).concat(")"),
        )
    } else {
        MatError::new(
            ErrorKind::Other,
            "ping6 spawn failed (".to_owned().concat(&text::quote(bin)).concat("): ").concat(detail),
        )
    }
}

/// The arguments of the ping tool: three pings, two seconds for each.
pub fn ping6_arguments(address: &str) -> (v: Vec<String>)
    ensures
        text::texts(v@) == seq!["-c"@, "3"@, "-W"@, "2"@, address@],
{
    let mut v: Vec<String> = Vec::new();
    v.push("-c".to_owned());
    v.push("3".to_owned());
    v.push("-W".to_owned());
    v.push("2".to_owned());
    v.push(address.to_owned());
    assert(text::texts(v@) =~= seq!["-c"@, "3"@, "-W"@, "2"@, address@]);
    v
}

/// What a run of the ping tool gives: what its output says, or why it was not
/// started, which tells a missing tool apart, or that its output says nothing.
pub fn probe_ping6<R>(bin: &str, ran: Result<Option<Ping6Stats<R>>, (bool, String)>) -> (r: Result<
    Ping6Stats<R>,
    MatError,
>)
    ensures
        match ran {
            Ok(Some(stats)) => r == Ok::<Ping6Stats<R>, MatError>(stats),
            Ok(None) => r matches Err(e) && e@ == error(
                ErrorKind::ParseError,
                "ping6 output unparseable"@,
            ),
            Err((missing, detail)) => r matches Err(e) && e@ == spawn_failure(
                missing,
                bin@,
                detail@,
            ),
        },
{
    match ran {
        Ok(Some(stats)) => Ok(stats),
        Ok(None) => Err(MatError::fixed(ErrorKind::ParseError, "ping6 output unparseable")),
        Err((missing, detail)) => Err(ping6_spawn_error(missing, bin, detail.as_str())),
    }
}

/// Doubles are dropped without a change of order: of two ids that are left the
/// one that stands first was named before the other was.
pub proof fn law_dedup_keeps_the_order(ids: Seq<u64>, a: int, b: int)
    requires
        0 <= a < b < distinct(ids).len(),
    ensures
        exists|i: int|
            0 <= i < ids.len() && ids[i] == distinct(ids)[a] && forall|j: int|
                0 <= j <= i ==> #[trigger] ids[j] != distinct(ids)[b],
    decreases ids.len(),
{
    let front = ids.drop_last();
    let rest = distinct(front);
    let all = distinct(ids);
    law_dedup_keeps_each_once(ids);
    law_dedup_keeps_each_once(front);
    if b < rest.len() {
        law_dedup_keeps_the_order(front, a, b);
        let i = choose|i: int|
            0 <= i < front.len() && front[i] == rest[a] && forall|j: int|
                0 <= j <= i ==> #[trigger] front[j] != rest[b];
        assert(ids[i] == all[a]);
        assert forall|j: int| 0 <= j <= i implies #[trigger] ids[j] != all[b] by {
            assert(front[j] == ids[j]);
        }
    } else {
        assert(rest[a] == all[a]);
        assert(rest.contains(all[a]));
        assert(front.contains(all[a]));
        let i = choose|i: int| 0 <= i < front.len() && front[i] == all[a];
        assert(ids[i] == all[a]);
        assert(all[b] == ids.last());
        assert forall|j: int| 0 <= j <= i implies #[trigger] ids[j] != all[b] by {
            if ids[j] == all[b] {
                assert(front[j] == all[b]);
                assert(front.contains(all[b]));
                assert(rest.contains(all[b]));
            }
        }
    }
}

/// The test for a probe that failed in a certain way.
pub open spec fn failing(kind: ErrorKind) -> spec_fn(MeshProbeItem) -> bool {
    |i: MeshProbeItem| i.result matches Err(e) && e.kind == kind
}

/// The test for a probe that failed.
pub open spec fn failing_at_all() -> spec_fn(MeshProbeItem) -> bool {
    |i: MeshProbeItem| i.result is Err
}

/// Failures are counted one by one.
pub proof fn law_failures_are_counted(items: Seq<MeshProbeItem>, kind: ErrorKind)
    ensures
        failed_with(items, kind) == items.filter(failing(kind)).len(),
    decreases items.len(),
{
    reveal(Seq::filter);
    if items.len() > 0 {
        law_failures_are_counted(items.drop_last(), kind);
    }
}

/// The kinds of the failures are those that came up, each once.
pub proof fn law_kinds_are_those_that_came_up(items: Seq<MeshProbeItem>, kind: ErrorKind)
    ensures
        kinds(items).contains(kind) <==> exists|i: int|
            0 <= i < items.len() && ((#[trigger] items[i]).result matches Err(e) && e.kind == kind),
        kinds(items).no_duplicates(),
    decreases items.len(),
{
    if items.len() > 0 {
        let front = items.drop_last();
        let rest = kinds(front);
        let all = kinds(items);
        let n: int = items.len() - 1;
        law_kinds_are_those_that_came_up(front, kind);
        if rest.contains(kind) {
            let k = choose|k: int| 0 <= k < rest.len() && rest[k] == kind;
            assert(all[k] == kind);
            let i = choose|i: int|
                0 <= i < front.len() && ((#[trigger] front[i]).result matches Err(e) && e.kind
                    == kind);
            assert(items[i] == front[i]);
        }
        if all.contains(kind) && !rest.contains(kind) {
            let k = choose|k: int| 0 <= k < all.len() && all[k] == kind;
            assert(k == rest.len()) by {
                if k < rest.len() {
                    assert(rest[k] == kind);
                }
            }
            assert(items[n].result matches Err(e) && e.kind == kind);
        }
        if exists|i: int|
            0 <= i < items.len() && ((#[trigger] items[i]).result matches Err(e) && e.kind
                == kind) {
            let i = choose|i: int|
                0 <= i < items.len() && ((#[trigger] items[i]).result matches Err(e) && e.kind
                    == kind);
            if i < n {
                assert(front[i] == items[i]);
            } else if !rest.contains(kind) {
                assert(all[rest.len() as int] == kind);
            }
        }
    }
}

/// Every failed probe is told, in order, with its node and its own words.
pub proof fn law_failed_probes_are_told_in_order(items: Seq<MeshProbeItem>, i: int)
    ensures
        failure_list(items).len() == items.filter(failing_at_all()).len(),
        0 <= i < failure_list(items).len() ==> failure_list(items)[i] == "node "@ + text::dec(
            items.filter(failing_at_all())[i].node_id as nat,
        ) + ": "@ + items.filter(failing_at_all())[i].result->Err_0.detail@,
    decreases items.len(),
{
    reveal(Seq::filter);
    if items.len() > 0 {
        law_failed_probes_are_told_in_order(items.drop_last(), i);
    }
}

/// The error of a mesh of which every probe failed tells of each of them.
pub proof fn law_mesh_error_tells_of_every_probe(items: Seq<MeshProbeItem>, i: int)
    requires
        0 <= i < failure_list(items).len(),
    ensures
        text::occurs(dominant(items).detail, failure_list(items)[i]),
{
    let parts = failure_list(items);
    text::law_joined_holds_each_part(parts, "; "@, i);
    let list = text::joined(parts, "; "@);
    let k = choose|k: int| #[trigger] text::occurs_at(list, parts[i], k);
    let head = "all "@ + text::dec(items.len()) + " mesh probes failed: "@;
    let d = head + list;
    let at: int = head.len() + k;
    assert(d.subrange(at, at + parts[i].len()) =~= list.subrange(k, k + parts[i].len()));
    assert(text::occurs_at(d, parts[i], at));
}

/// A check that could not be made says which it is and why; a tool that is
/// missing has a word of its own.
pub proof fn law_missing_check_by_name(
    check: Seq<char>,
    kind: JsonView,
    detail: Seq<char>,
    e: ErrorView,
)
    ensures
        missing_check(check, kind).get("check"@) == Some(JsonView::Str(check)),
        missing_check(check, kind).get("kind"@) == Some(kind),
        failed_check(check, kind, detail).get("check"@) == Some(JsonView::Str(check)),
        failed_check(check, kind, detail).get("kind"@) == Some(kind),
        failed_check(check, kind, detail).get("detail"@) == Some(JsonView::Str(detail)),
        e.kind == ErrorKind::ChildNotFound ==> check_kind(e) == JsonView::Str("tool_missing"@),
        e.kind != ErrorKind::ChildNotFound ==> check_kind(e) == JsonView::Str(e.kind.name()),
{
    reveal_strlit("check");
    reveal_strlit("kind");
    let m = missing_check(check, kind)->Object_0;
    assert(m[0].0 == "check"@);
    assert(m[1].0 == "kind"@);
    crate::json::law_first_field_is_found(m, "check"@, 0);
    crate::json::law_first_field_is_found(m, "kind"@, 1);
    reveal_strlit("check");
    reveal_strlit("kind");
    reveal_strlit("detail");
    let f = failed_check(check, kind, detail)->Object_0;
    assert(f[0].0 == "check"@);
    assert(f[1].0 == "kind"@);
    assert(f[2].0 == "detail"@);
    crate::json::law_first_field_is_found(f, "check"@, 0);
    crate::json::law_first_field_is_found(f, "kind"@, 1);
    crate::json::law_first_field_is_found(f, "detail"@, 2);
}

/// A check of the address is missing where the store has none or the tool
/// failed, and one of the announcement where the search failed or the fabric is
/// not known.
pub proof fn law_gaps_are_named<R>(
    address: Option<String>,
    ping: Result<Ping6Stats<R>, MatError>,
    self_cfid: Option<String>,
    found: Result<Vec<MatterInstance>, MatError>,
    thread: Result<ThreadCheck, ErrorKind>,
)
    ensures
        ip_missing(address, ping) is None <==> address is Some && ping is Ok,
        address is None ==> (ip_missing(address, ping) matches Some(m) && m.get("check"@) == Some(
            JsonView::Str("ip"@),
        ) && m.get("kind"@) == Some(JsonView::Str("no_address_in_store"@))),
        address is Some ==> (ping matches Err(e) ==> (ip_missing(address, ping) matches Some(m)
            && m.get("check"@) == Some(JsonView::Str("ip"@)) && m.get("detail"@) == Some(
            JsonView::Str(e.detail@),
        ))),
        mdns_missing(self_cfid, found) is None <==> found is Ok && self_cfid is Some,
        found matches Err(e) ==> (mdns_missing(self_cfid, found) matches Some(m) && m.get("check"@)
            == Some(JsonView::Str("mdns"@)) && m.get("detail"@) == Some(JsonView::Str(e.detail@))),
        found is Ok && self_cfid is None ==> (mdns_missing(self_cfid, found) matches Some(m)
            && m.get("check"@) == Some(JsonView::Str("mdns_self_fabric"@))
                && m.get("kind"@) == Some(
            JsonView::Str("cfid_unavailable"@),
        )),
        thread_gap(thread) is None <==> thread is Ok,
        thread matches Err(k) ==> (thread_gap(thread) matches Some(m) && m.get("check"@) == Some(
            JsonView::Str("thread"@),
        ) && m.get("kind"@) == Some(JsonView::Str(k.name()))),
{
    let none = error(ErrorKind::Other, Seq::empty());
    law_missing_check_by_name(
        "ip"@,
        JsonView::Str("no_address_in_store"@),
        Seq::empty(),
        none,
    );
    if let Err(e) = ping {
        law_missing_check_by_name("ip"@, check_kind(e@), e.detail@, none);
    }
    if let Err(e) = found {
        law_missing_check_by_name("mdns"@, check_kind(e@), e.detail@, none);
    }
    law_missing_check_by_name(
        "mdns_self_fabric"@,
        JsonView::Str("cfid_unavailable"@),
        "could not obtain self compressed-fabric-id"@,
        none,
    );
    if let Err(k) = thread {
        law_missing_check_by_name("thread"@, JsonView::Str(k.name()), Seq::empty(), none);
    }
}

/// A node is announced if one of the announcements has its address, or its
/// number where no address is known; by its own fabric only one of that fabric
/// counts, and that is known only with the fabric and the address.
pub proof fn law_announcement_is_by_address(
    found: Seq<InstanceView>,
    node_id: u64,
    fabric: Seq<char>,
    addr: Seq<char>,
)
    ensures
        mdns_check(found, node_id, Some(fabric), Some(addr)).advertised_any_fabric <==> exists|
            i: int,
        |
            0 <= i < found.len() && (#[trigger] found[i]).addresses.contains(addr),
        mdns_check(found, node_id, None, Some(addr)).advertised_any_fabric <==> exists|i: int|
            0 <= i < found.len() && (#[trigger] found[i]).addresses.contains(addr),
        mdns_check(found, node_id, Some(fabric), None).advertised_any_fabric <==> exists|i: int|
            0 <= i < found.len() && (#[trigger] found[i]).node_id == node_id,
        mdns_check(found, node_id, Some(fabric), Some(addr)).advertised_self_fabric matches Some(b)
            && (b <==> exists|i: int|
            0 <= i < found.len() && (#[trigger] found[i]).compressed_fabric == fabric
                && found[i].addresses.contains(addr)),
        mdns_check(found, node_id, None, Some(addr)).advertised_self_fabric is None,
        mdns_check(found, node_id, Some(fabric), None).advertised_self_fabric is None,
{
    let c = mdns_check(found, node_id, Some(fabric), Some(addr));
    if exists|i: int| 0 <= i < found.len() && (#[trigger] found[i]).addresses.contains(addr) {
        let i = choose|i: int|
            0 <= i < found.len() && (#[trigger] found[i]).addresses.contains(addr);
        assert(has_address(found[i], addr));
    }
    if exists|i: int|
        0 <= i < found.len() && (#[trigger] found[i]).compressed_fabric == fabric
            && found[i].addresses.contains(addr) {
        let i = choose|i: int|
            0 <= i < found.len() && (#[trigger] found[i]).compressed_fabric == fabric
                && found[i].addresses.contains(addr);
        assert(has_address(found[i], addr));
    }
}

/// The report of a node holds what was found, each under its name; the checks
/// that are missing are listed, if any is.
pub proof fn law_node_report_by_name(
    node_id: u64,
    endpoint: u16,
    verdict: JsonView,
    summary: Seq<char>,
    checks: JsonView,
    unavailable: Seq<JsonView>,
    recommendation: Seq<char>,
)
    ensures
        node_report(node_id, endpoint, verdict, summary, checks, unavailable, recommendation).get("node_id"@) == Some(JsonView::UInt(node_id)),
        node_report(node_id, endpoint, verdict, summary, checks, unavailable, recommendation).get("endpoint"@) == Some(JsonView::UInt(endpoint as u64)),
        node_report(node_id, endpoint, verdict, summary, checks, unavailable, recommendation).get("verdict"@) == Some(verdict),
        node_report(node_id, endpoint, verdict, summary, checks, unavailable, recommendation).get("summary"@) == Some(JsonView::Str(summary)),
        node_report(node_id, endpoint, verdict, summary, checks, unavailable, recommendation).get("checks"@) == Some(checks),
        node_report(node_id, endpoint, verdict, summary, checks, unavailable, recommendation).get("unavailable"@) == if unavailable.len() > 0 {
            Some(JsonView::Array(unavailable))
        } else {
            None
        },
        node_report(node_id, endpoint, verdict, summary, checks, unavailable, recommendation).get("recommendation"@) == Some(JsonView::Str(recommendation)),
{
    reveal_strlit("node_id");
    reveal_strlit("endpoint");
    reveal_strlit("verdict");
    reveal_strlit("summary");
    reveal_strlit("checks");
    reveal_strlit("unavailable");
    reveal_strlit("recommendation");
    assert("node_id"@[0] != "verdict"@[0]);
    assert("node_id"@[0] != "summary"@[0]);
    assert("verdict"@[0] != "summary"@[0]);
    let f = node_report(node_id, endpoint, verdict, summary, checks, unavailable, recommendation)->Object_0;
    assert(f[0].0 == "node_id"@);
    assert(f[1].0 == "endpoint"@);
    assert(f[2].0 == "verdict"@);
    assert(f[3].0 == "summary"@);
    assert(f[4].0 == "checks"@);
    crate::json::law_first_field_is_found(f, "node_id"@, 0);
    crate::json::law_first_field_is_found(f, "endpoint"@, 1);
    crate::json::law_first_field_is_found(f, "verdict"@, 2);
    crate::json::law_first_field_is_found(f, "summary"@, 3);
    crate::json::law_first_field_is_found(f, "checks"@, 4);
    if unavailable.len() > 0 {
        assert(f[5].0 == "unavailable"@);
        assert(f[6].0 == "recommendation"@);
        crate::json::law_first_field_is_found(f, "unavailable"@, 5);
        crate::json::law_first_field_is_found(f, "recommendation"@, 6);
    } else {
        assert(f[5].0 == "recommendation"@);
        crate::json::law_first_field_is_found(f, "recommendation"@, 5);
        crate::json::lemma_lookup_absent(f, "unavailable"@);
    }
}

/// A tool that is not there is told apart from one that would not run.
pub proof fn law_missing_ping_is_told_apart(bin: Seq<char>, detail: Seq<char>)
    ensures
        spawn_failure(true, bin, detail).kind == ErrorKind::ChildNotFound,
        spawn_failure(false, bin, detail).kind == ErrorKind::Other,
{
}

} // verus!
