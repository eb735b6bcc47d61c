//! The own fabric: making it, listing, and the choice of what to rotate.
use vstd::prelude::*;
use vstd::string::*;
use crate::error::{all_checked, error, first_error, ErrorKind, ErrorView, MatError};
use crate::json::{json_views, lemma_put_is_found, with_field, Json, JsonView};
use crate::matd_stream::MatdReload;
use crate::native_direct::{build_error, map_engine_build_error};
use crate::rotate_ipk::{
    partial,
    rotate_body,
    RotateIpkParams,
    RotateMode,
    RotateOutcome,
    RotateStatus,
    RotateView,
};
use crate::text;

verus! {

/// The failure to make a fabric.
pub open spec fn init_failure(exists_already: bool, detail: Seq<char>, store: Seq<char>) -> ErrorView {
    error(
        if exists_already {
            ErrorKind::Other
        } else {
            ErrorKind::StoreParse
        },
        "fabric init: "@ + detail + " (store: "@ + store
            + "; 既存 KVS の上書きはしない — 再初期化は両 ini を手動削除)"@,
    )
}

/// The failure to make a fabric. One that is there is never overwritten.
pub fn init_error(exists_already: bool, detail: &str, store: &str) -> (e: MatError)
    ensures
        e@ == init_failure(exists_already, detail@, store@),
{
    let kind = if exists_already {
        ErrorKind::Other
    } else {
        ErrorKind::StoreParse
    };
    MatError::new(
        kind,
        "fabric init: ".to_owned().concat(detail).concat(" (store: ").concat(store).concat(
            "; 既存 KVS の上書きはしない — 再初期化は両 ini を手動削除)",
        ),
    )
}

/// The failure to make the directory of the store.
pub fn store_dir_error(store: &str, detail: &str) -> (e: MatError)
    ensures
        e@ == error(
            ErrorKind::StoreMissing,
            "cannot create store dir "@ + store@ + ": "@ + detail@,
        ),
{
    MatError::new(
        ErrorKind::StoreMissing,
        "cannot create store dir ".to_owned().concat(store).concat(": ").concat(detail),
    )
}

/// Reports a fabric that was made. No key is shown.
pub fn init_body(
    store: &str,
    fabric_id: u64,
    fabric_index: u8,
    cfid: &[u8; 8],
    admin_node_id: u64,
) -> (j: Json)
    ensures
        j@ == JsonView::Object(
            Seq::<(Seq<char>, JsonView)>::empty().push(("store"@, JsonView::Str(store@))).push(
                ("fabric_id"@, JsonView::UInt(fabric_id)),
            ).push(("fabric_index"@, JsonView::UInt(fabric_index as u64))).push(
                ("compressed_fabric_id"@, JsonView::Str(text::hex_upper(cfid@))),
            ).push(("admin_node_id"@, JsonView::UInt(admin_node_id))),
        ),
        j@.get("store"@) == Some(JsonView::Str(store@)),
        j@.get("fabric_id"@) == Some(JsonView::UInt(fabric_id)),
        j@.get("fabric_index"@) == Some(JsonView::UInt(fabric_index as u64)),
        j@.get("compressed_fabric_id"@) == Some(JsonView::Str(text::hex_upper(cfid@))),
        j@.get("admin_node_id"@) == Some(JsonView::UInt(admin_node_id)),
{
    let j = Json::object().with("store", Json::text(store)).with("fabric_id", Json::UInt(fabric_id)).with(
        "fabric_index",
        Json::UInt(fabric_index as u64),
    ).with(
        "compressed_fabric_id",
        Json::text(&text::hex_upper_text(cfid.as_slice())),
    ).with("admin_node_id", Json::UInt(admin_node_id));
    proof {
        reveal_strlit("store");
        reveal_strlit("fabric_id");
        reveal_strlit("fabric_index");
        reveal_strlit("compressed_fabric_id");
        reveal_strlit("admin_node_id");
        let f = j@->Object_0;
        assert(f[0].0 == "store"@);
        assert(f[1].0 == "fabric_id"@);
        assert(f[2].0 == "fabric_index"@);
        assert(f[3].0 == "compressed_fabric_id"@);
        assert(f[4].0 == "admin_node_id"@);
        crate::json::law_first_field_is_found(f, "store"@, 0);
        crate::json::law_first_field_is_found(f, "fabric_id"@, 1);
        crate::json::law_first_field_is_found(f, "fabric_index"@, 2);
        crate::json::law_first_field_is_found(f, "compressed_fabric_id"@, 3);
        crate::json::law_first_field_is_found(f, "admin_node_id"@, 4);
    }
    j
}

/// What is known of a fabric.
#[derive(Debug, Clone, Copy, PartialEq, Eq)]
pub struct FabricFacts {
    pub fabric_index: u8,
    pub fabric_id: u64,
    pub admin_node_id: u64,
    pub cfid: [u8; 8],
    /// Whether the key was made here.
    pub own_epoch: bool,
    pub rotation_pending: bool,
}

/// The entry of a fabric. No key is shown.
pub open spec fn fabric_entry(f: FabricFacts, current: u8) -> JsonView {
    JsonView::Object(
        Seq::<(Seq<char>, JsonView)>::empty().push(
            ("fabric_index"@, JsonView::UInt(f.fabric_index as u64)),
        ).push(("fabric_id"@, JsonView::UInt(f.fabric_id))).push(
            ("admin_node_id"@, JsonView::UInt(f.admin_node_id)),
        ).push(("compressed_fabric_id"@, JsonView::Str(text::hex_upper(f.cfid@)))).push(
            (
                "ipk_epoch"@,
                JsonView::Str(
                    if f.own_epoch {
                        "mat"@
                    } else {
                        "chip-tool"@
                    },
                ),
            ),
        ).push(("ipk_rotation_pending"@, JsonView::Bool(f.rotation_pending))).push(
            ("current"@, JsonView::Bool(f.fabric_index == current)),
        ),
    )
}

/// The entry of a fabric.
pub fn list_entry(f: &FabricFacts, current: u8) -> (j: Json)
    ensures
        j@ == fabric_entry(*f, current),
{
    let epoch = if f.own_epoch {
        "mat"
    } else {
        "chip-tool"
    };
    Json::object().with("fabric_index", Json::UInt(f.fabric_index as u64)).with(
        "fabric_id",
        Json::UInt(f.fabric_id),
    ).with("admin_node_id", Json::UInt(f.admin_node_id)).with(
        "compressed_fabric_id",
        Json::text(&text::hex_upper_text(f.cfid.as_slice())),
    ).with("ipk_epoch", Json::text(epoch)).with(
        "ipk_rotation_pending",
        Json::Bool(f.rotation_pending),
    ).with("current", Json::Bool(f.fabric_index == current))
}

/// What to do with the key: giving up goes before catching up.
pub fn rotate_mode(catch_up: bool, abort: bool) -> (m: RotateMode)
    ensures
        m == if abort {
            RotateMode::Abort
        } else if catch_up {
            RotateMode::CatchUp
        } else {
            RotateMode::Rotate
        },
{
    if abort {
        RotateMode::Abort
    } else if catch_up {
        RotateMode::CatchUp
    } else {
        RotateMode::Rotate
    }
}

/// The nodes to rotate: those given, or all of the ledger.
pub fn rotate_nodes(given: Vec<u64>, ledger: Vec<u64>) -> (v: Vec<u64>)
    ensures
        v == if given.len() == 0 {
            ledger
        } else {
            given
        },
{
    if given.len() == 0 {
        ledger
    } else {
        given
    }
}

/// A fabric that could not be read: whether the store is missing, and why.
#[derive(Debug, PartialEq, Eq)]
pub struct ListFailure {
    pub missing: bool,
    pub detail: String,
}

/// The failure of a list of the fabrics.
pub open spec fn list_failure(f: ListFailure, main_ini: Seq<char>) -> ErrorView {
    if f.missing {
        error(
            ErrorKind::StoreMissing,
            main_ini + " not found — run `mat fabric init` to bootstrap the credential store"@,
        )
    } else {
        error(ErrorKind::StoreParse, "fabric list: "@ + f.detail@)
    }
}

/// The failure of a list of the fabrics.
pub fn list_error(f: &ListFailure, main_ini: &str) -> (e: MatError)
    ensures
        e@ == list_failure(*f, main_ini@),
{
    if f.missing {
        MatError::new(
            ErrorKind::StoreMissing,
            main_ini.to_owned().concat(
                " not found — run `mat fabric init` to bootstrap the credential store",
            ),
        )
    } else {
        MatError::new(ErrorKind::StoreParse, "fabric list: ".to_owned().concat(&f.detail))
    }
}

/// The entries of some fabrics in order, or the first failure among them.
pub open spec fn listed(
    fabrics: Seq<Result<FabricFacts, ListFailure>>,
    main_ini: Seq<char>,
    current: u8,
) -> Result<Seq<JsonView>, ErrorView>
    decreases fabrics.len(),
{
    if fabrics.len() == 0 {
        Ok(Seq::empty())
    } else {
        match (listed(fabrics.drop_last(), main_ini, current), fabrics.last()) {
            (Err(e), _) => Err(e),
            (_, Err(f)) => Err(list_failure(f, main_ini)),
            (Ok(front), Ok(f)) => Ok(front.push(fabric_entry(f, current))),
        }
    }
}

/// The first failure spoils the list.
proof fn lemma_list_fails(
    fabrics: Seq<Result<FabricFacts, ListFailure>>,
    main_ini: Seq<char>,
    current: u8,
    i: int,
)
    requires
        0 <= i <= fabrics.len(),
        listed(fabrics.take(i), main_ini, current) is Err,
    ensures
        listed(fabrics, main_ini, current) == listed(fabrics.take(i), main_ini, current),
    decreases fabrics.len() - i,
{
    if i < fabrics.len() {
        assert(fabrics.take(i + 1).drop_last() =~= fabrics.take(i));
        lemma_list_fails(fabrics, main_ini, current, i + 1);
    } else {
        assert(fabrics.take(i) =~= fabrics);
    }
}

/// What a list of the fabrics gives.
pub open spec fn list_view(r: Result<Vec<Json>, MatError>) -> Result<Seq<JsonView>, ErrorView> {
    match r {
        Ok(v) => Ok(json_views(v@)),
        Err(e) => Err(e@),
    }
}

/// Lists the fabrics of a store: every one is readable, or none is listed.
pub fn run_list(
    read: Result<Vec<Result<FabricFacts, ListFailure>>, ListFailure>,
    main_ini: &str,
    current: u8,
) -> (r: Result<Vec<Json>, MatError>)
    ensures
        list_view(r) == match read {
            Err(f) => Err::<Seq<JsonView>, ErrorView>(list_failure(f, main_ini@)),
            Ok(fabrics) => listed(fabrics@, main_ini@, current),
        },
{
    let fabrics = match read {
        Err(f) => {
            return Err(list_error(&f, main_ini));
        },
        Ok(fabrics) => fabrics,
    };
    let mut out: Vec<Json> = Vec::new();
    assert(json_views(out@) =~= Seq::<JsonView>::empty());
    let mut i: usize = 0;
    while i < fabrics.len()
        invariant
            i <= fabrics.len(),
            read == Ok::<Vec<Result<FabricFacts, ListFailure>>, ListFailure>(fabrics),
            listed(fabrics@.take(i as int), main_ini@, current) == Ok::<
                Seq<JsonView>,
                ErrorView,
            >(json_views(out@)),
        decreases fabrics.len() - i,
    {
        let ghost before = json_views(out@);
        assert(fabrics@.take(i + 1).drop_last() =~= fabrics@.take(i as int));
        match &fabrics[i] {
            Ok(f) => {
                out.push(list_entry(f, current));
                assert(json_views(out@) =~= before.push(fabric_entry(*f, current)));
            },
            Err(f) => {
                proof {
                    lemma_list_fails(fabrics@, main_ini@, current, i + 1);
                }
                return Err(list_error(f, main_ini));
            },
        }
        i += 1;
    }
    assert(fabrics@.take(i as int) =~= fabrics@);
    Ok(out)
}

/// What to rotate: the nodes given, each of which must be in the ledger, else
/// all of the ledger. Nothing is rotated without a backend.
pub fn run_rotate_ipk(
    configured: bool,
    given: Vec<u64>,
    checks: &Vec<Result<(), MatError>>,
    ledger: Vec<u64>,
    mode: (bool, bool),
    op_timeout_ms: u64,
) -> (r: Result<RotateIpkParams, MatError>)
    requires
        checks.len() == given.len(),
    ensures
        !configured ==> (r matches Err(e) && e@ == error(
            ErrorKind::Other,
            "rotate-ipk: native backend not configured (internal)"@,
        )),
        configured ==> (first_error(checks@) matches Some(x) ==> (r matches Err(e) && e@ == x)),
        configured && first_error(checks@) is None ==> (r matches Ok(p) && p.node_ids == (
        if given.len() == 0 {
            ledger
        } else {
            given
        }) && p.mode == (if mode.1 {
            RotateMode::Abort
        } else if mode.0 {
            RotateMode::CatchUp
        } else {
            RotateMode::Rotate
        }) && p.per_node_timeout_ms == op_timeout_ms),
{
    if !configured {
        return Err(
            MatError::fixed(
                ErrorKind::Other,
                "rotate-ipk: native backend not configured (internal)",
            ),
        );
    }
    match all_checked(checks) {
        Err(e) => Err(e),
        Ok(()) => Ok(
            RotateIpkParams {
                node_ids: rotate_nodes(given, ledger),
                mode: rotate_mode(mode.0, mode.1),
                per_node_timeout_ms: op_timeout_ms,
            },
        ),
    }
}

/// Whether a rotation changed over. A running daemon is then asked to read the
/// key again.
pub open spec fn changed_over(outcome: Result<RotateOutcome, MatError>) -> bool {
    outcome matches Ok(o) && o.status == RotateStatus::Rotated
}

/// Whether a running daemon is to be asked to read the key again.
pub fn reload_due(outcome: &Result<RotateOutcome, MatError>) -> (r: bool)
    ensures
        r == changed_over(*outcome),
{
    match outcome {
        Ok(o) => o.status == RotateStatus::Rotated,
        Err(_) => false,
    }
}

/// The report of a rotation; of one that changed over, with what came of asking
/// the daemon.
pub open spec fn rotate_report(
    r: RotateView,
    fabric_index: u8,
    reload: Option<MatdReload>,
) -> JsonView {
    match (r.status, reload) {
        (RotateStatus::Rotated, Some(word)) => with_field(
            rotate_body(r, fabric_index),
            "matd_reload"@,
            JsonView::Str(word.word()),
        ),
        _ => rotate_body(r, fabric_index),
    }
}

/// The report of a rotation that changed over says what came of asking the
/// daemon; no other report speaks of it.
pub proof fn law_reload_is_reported_after_a_change_over(
    r: RotateView,
    fabric_index: u8,
    reload: MatdReload,
)
    ensures
        r.status == RotateStatus::Rotated ==> rotate_report(r, fabric_index, Some(reload)).get(
            "matd_reload"@,
        ) == Some(JsonView::Str(reload.word())),
        r.status != RotateStatus::Rotated ==> rotate_report(r, fabric_index, Some(reload))
            == rotate_body(r, fabric_index),
{
    lemma_put_is_found(
        rotate_body(r, fabric_index)->Object_0,
        "matd_reload"@,
        JsonView::Str(reload.word()),
    );
}

/// How a rotation ends: with its report, and with a failure beside it where a
/// node failed; without a report where it could not run. `reload` is what came
/// of asking the daemon to read the key again, where it was asked; the end does
/// not depend on it.
pub fn rotate_finished(
    outcome: Result<RotateOutcome, MatError>,
    fabric_index: u8,
    reload: Option<MatdReload>,
) -> (r: (Option<Json>, Result<(), MatError>))
    ensures
        match outcome {
            Err(e) => r.0 is None && (r.1 matches Err(f) && f@ == build_error(e@)),
            Ok(o) => (r.0 matches Some(j) && j@ == rotate_report(o@, fabric_index, reload)) && (
            r.1 is Ok <==> partial(o@) is None) && (r.1 matches Err(f) ==> partial(o@) == Some(
                f@,
            )),
        },
{
    match outcome {
        Err(e) => (None, Err(map_engine_build_error(e))),
        Ok(o) => {
            let plain = o.body(fabric_index);
            let body = match (o.status, reload) {
                (RotateStatus::Rotated, Some(word)) => plain.set(
                    "matd_reload",
                    Json::text(word.as_str()),
                ),
                _ => plain,
            };
            match o.partial_error() {
                Some(e) => (Some(body), Err(e)),
                None => (Some(body), Ok(())),
            }
        },
    }
}

/// The failure to make the keys of a fabric.
pub fn generate_error(detail: &str) -> (e: MatError)
    ensures
        e@ == error(ErrorKind::Other, "fabric generate: "@ + detail@),
{
    MatError::new(ErrorKind::Other, "fabric generate: ".to_owned().concat(detail))
}

/// The entry of a fabric holds what is known of it, each under its name, and
/// nothing else.
pub proof fn law_fabric_entry_by_name(f: FabricFacts, current: u8)
    ensures
        fabric_entry(f, current).get("fabric_index"@)
            == Some(JsonView::UInt(f.fabric_index as u64)),
        fabric_entry(f, current).get("fabric_id"@) == Some(JsonView::UInt(f.fabric_id)),
        fabric_entry(f, current).get("admin_node_id"@) == Some(JsonView::UInt(f.admin_node_id)),
        fabric_entry(f, current).get("compressed_fabric_id"@)
            == Some(JsonView::Str(text::hex_upper(f.cfid@))),
        fabric_entry(f, current).get("ipk_epoch"@)
            == Some(JsonView::Str(if f.own_epoch { "mat"@ } else { "chip-tool"@ })),
        fabric_entry(f, current).get("ipk_rotation_pending"@)
            == Some(JsonView::Bool(f.rotation_pending)),
        fabric_entry(f, current).get("current"@) == Some(JsonView::Bool(f.fabric_index == current)),
        fabric_entry(f, current)->Object_0.len() == 7,
{
    reveal_strlit("fabric_index");
    reveal_strlit("fabric_id");
    reveal_strlit("admin_node_id");
    reveal_strlit("compressed_fabric_id");
    reveal_strlit("ipk_epoch");
    reveal_strlit("ipk_rotation_pending");
    reveal_strlit("current");
    assert("fabric_id"@[0] != "ipk_epoch"@[0]);
    assert("compressed_fabric_id"@[0] != "ipk_rotation_pending"@[0]);
    let e = fabric_entry(f, current)->Object_0;
    assert(e[0].0 == "fabric_index"@);
    assert(e[1].0 == "fabric_id"@);
    assert(e[2].0 == "admin_node_id"@);
    assert(e[3].0 == "compressed_fabric_id"@);
    assert(e[4].0 == "ipk_epoch"@);
    assert(e[5].0 == "ipk_rotation_pending"@);
    assert(e[6].0 == "current"@);
    crate::json::law_first_field_is_found(e, "fabric_index"@, 0);
    crate::json::law_first_field_is_found(e, "fabric_id"@, 1);
    crate::json::law_first_field_is_found(e, "admin_node_id"@, 2);
    crate::json::law_first_field_is_found(e, "compressed_fabric_id"@, 3);
    crate::json::law_first_field_is_found(e, "ipk_epoch"@, 4);
    crate::json::law_first_field_is_found(e, "ipk_rotation_pending"@, 5);
    crate::json::law_first_field_is_found(e, "current"@, 6);
}

/// Every fabric is listed, in order, and a fabric that cannot be read leaves no
/// list.
pub proof fn law_every_fabric_is_listed(
    fabrics: Seq<Result<FabricFacts, ListFailure>>,
    main_ini: Seq<char>,
    current: u8,
    i: int,
)
    requires
        0 <= i < fabrics.len(),
    ensures
        listed(fabrics, main_ini, current) matches Ok(l) ==> l.len() == fabrics.len() && (
        fabrics[i] matches Ok(f) && l[i] == fabric_entry(f, current)),
        fabrics[i] is Err ==> listed(fabrics, main_ini, current) is Err,
    decreases fabrics.len(),
{
    reveal_with_fuel(listed, 2);
    let front = fabrics.drop_last();
    if front.len() > 0 {
        law_every_fabric_is_listed(front, main_ini, current, if i < front.len() {
            i
        } else {
            0
        });
    }
}

/// Fabrics that can all be read are listed.
pub proof fn law_readable_fabrics_are_listed(
    fabrics: Seq<Result<FabricFacts, ListFailure>>,
    main_ini: Seq<char>,
    current: u8,
)
    requires
        forall|i: int| 0 <= i < fabrics.len() ==> #[trigger] fabrics[i] is Ok,
    ensures
        listed(fabrics, main_ini, current) is Ok,
    decreases fabrics.len(),
{
    if fabrics.len() > 0 {
        let front = fabrics.drop_last();
        assert forall|i: int| 0 <= i < front.len() implies #[trigger] front[i] is Ok by {
            assert(fabrics[i] is Ok);
        }
        law_readable_fabrics_are_listed(front, main_ini, current);
        assert(fabrics[fabrics.len() - 1] is Ok);
    }
}

/// A store that is missing is told apart from one that cannot be read, and one
/// that is there already from one that could not be written.
pub proof fn law_store_failures_are_told_apart(
    f: ListFailure,
    main_ini: Seq<char>,
    exists_already: bool,
    detail: Seq<char>,
    store: Seq<char>,
)
    ensures
        list_failure(f, main_ini).kind == (if f.missing {
            ErrorKind::StoreMissing
        } else {
            ErrorKind::StoreParse
        }),
        f.missing ==> list_failure(f, main_ini).detail.take(main_ini.len() as int) == main_ini,
        !f.missing ==> text::occurs(list_failure(f, main_ini).detail, f.detail@),
        init_failure(exists_already, detail, store).kind == (if exists_already {
            ErrorKind::Other
        } else {
            ErrorKind::StoreParse
        }),
        text::occurs(init_failure(exists_already, detail, store).detail, detail),
        text::occurs(init_failure(exists_already, detail, store).detail, store),
{
    let a = list_failure(f, main_ini).detail;
    if f.missing {
        assert(a.take(main_ini.len() as int) =~= main_ini);
    } else {
        let k: int = "fabric list: "@.len() as int;
        assert(a.subrange(k, k + f.detail@.len()) =~= f.detail@);
        assert(text::occurs_at(a, f.detail@, k));
    }
    let b = init_failure(exists_already, detail, store).detail;
    let m: int = "fabric init: "@.len() as int;
    assert(b.subrange(m, m + detail.len()) =~= detail);
    assert(text::occurs_at(b, detail, m));
    let n: int = (m + detail.len() + " (store: "@.len()) as int;
    assert(b.subrange(n, n + store.len()) =~= store);
    assert(text::occurs_at(b, store, n));
}

/// Only a rotation that changed the key over calls for a reload.
pub proof fn law_only_a_change_over_calls_for_a_reload(o: RotateOutcome, e: MatError)
    ensures
        changed_over(Ok(o)) <==> o.status == RotateStatus::Rotated,
        !changed_over(Err(e)),
{
}

} // verus!
