//! Taking a device out of the ledger.
use vstd::prelude::*;
use vstd::string::*;
use crate::error::{ErrorView, MatError};
use crate::json::{error_json, error_object, text_array, text_list, Json, JsonView};

verus! {

/// What is reported of a device that did not let go.
pub open spec fn device_failure(e: ErrorView) -> JsonView {
    JsonView::Object(
        Seq::<(Seq<char>, JsonView)>::empty().push(("removed"@, JsonView::Bool(false))).push(
            ("error"@, error_json(e)),
        ),
    )
}

/// What is reported of a device that did not let go.
pub fn device_failure_body(e: &MatError) -> (j: Json)
    ensures
        j@ == device_failure(e@),
{
    Json::object().with("removed", Json::Bool(false)).with("error", error_object(e))
}

/// What is reported of the device. A failure stops the removal, unless it is
/// forced: then it is reported, and the ledger is changed all the same.
pub fn device_part(r: Result<Json, MatError>, force: bool) -> (d: Result<Json, MatError>)
    ensures
        r matches Ok(j) ==> d == Ok::<Json, MatError>(j),
        r matches Err(e) ==> if force {
            d matches Ok(j) && j@ == device_failure(e@)
        } else {
            d == Err::<Json, MatError>(e)
        },
{
    match r {
        Ok(j) => Ok(j),
        Err(e) => if force {
            Ok(device_failure_body(&e))
        } else {
            Err(e)
        },
    }
}

/// Reports a device that was taken out.
pub fn unpair_body(
    node_id: u64,
    aliases_removed: &Vec<String>,
    device: Json,
    ledger_removed: bool,
) -> (j: Json)
    ensures
        j@ == JsonView::Object(
            Seq::<(Seq<char>, JsonView)>::empty().push(("node_id"@, JsonView::UInt(node_id))).push(
                ("aliases_removed"@, text_array(aliases_removed@)),
            ).push(("device"@, device@)).push(
                (
                    "ledger"@,
                    JsonView::Object(
                        Seq::<(Seq<char>, JsonView)>::empty().push(
                            ("removed"@, JsonView::Bool(ledger_removed)),
                        ),
                    ),
                ),
            ),
        ),
        j@.get("node_id"@) == Some(JsonView::UInt(node_id)),
        j@.get("aliases_removed"@) == Some(text_array(aliases_removed@)),
        j@.get("device"@) == Some(device@),
        j@.get("ledger"@) matches Some(l) && l.get("removed"@) == Some(
            JsonView::Bool(ledger_removed),
        ),
{
    let j = Json::object().with("node_id", Json::UInt(node_id)).with(
        "aliases_removed",
        text_list(aliases_removed),
    ).with("device", device).with(
        "ledger",
        Json::object().with("removed", Json::Bool(ledger_removed)),
    );
    proof {
        reveal_strlit("node_id");
        reveal_strlit("aliases_removed");
        reveal_strlit("device");
        reveal_strlit("ledger");
        assert("device"@[0] != "ledger"@[0]);
        let f = j@->Object_0;
        assert(f[0].0 == "node_id"@);
        assert(f[1].0 == "aliases_removed"@);
        assert(f[2].0 == "device"@);
        assert(f[3].0 == "ledger"@);
        crate::json::law_first_field_is_found(f, "node_id"@, 0);
        crate::json::law_first_field_is_found(f, "aliases_removed"@, 1);
        crate::json::law_first_field_is_found(f, "device"@, 2);
        crate::json::law_first_field_is_found(f, "ledger"@, 3);
        crate::json::law_first_field_is_found(f[3].1->Object_0, "removed"@, 0);
    }
    j
}

/// The part of a device that would not leave says that it did not, and why.
pub proof fn law_device_failure_by_name(e: ErrorView)
    ensures
        device_failure(e).get("removed"@) == Some(JsonView::Bool(false)),
        device_failure(e).get("error"@) matches Some(x) && x.get("kind"@) == Some(
            JsonView::Str(e.kind.name()),
        ) && x.get("detail"@) == Some(JsonView::Str(e.detail)),
{
    reveal_strlit("removed");
    reveal_strlit("error");
    let f = device_failure(e)->Object_0;
    assert(f[0].0 == "removed"@);
    assert(f[1].0 == "error"@);
    crate::json::law_first_field_is_found(f, "removed"@, 0);
    crate::json::law_first_field_is_found(f, "error"@, 1);
    crate::json::law_error_object_by_name(e);
}

} // verus!
