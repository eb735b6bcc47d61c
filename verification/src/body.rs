//! The objects that successful operations report.
use vstd::prelude::*;
use vstd::string::*;
use crate::json::{
    json_views,
    law_first_field_is_found,
    lemma_lookup_absent,
    Json,
    JsonView,
};
use crate::text::copy_text;

verus! {

/// A color with what it was given as.
#[derive(Debug, PartialEq, Eq)]
pub struct ResolvedColor {
    pub hue_raw: u8,
    pub sat_raw: u8,
    /// Degrees.
    pub hue: u16,
    /// Percent.
    pub sat: u8,
    pub name: Option<String>,
    pub rgb: Option<String>,
}

impl Clone for ResolvedColor {
    fn clone(&self) -> (c: ResolvedColor)
        ensures
            c == *self,
    {
        ResolvedColor {
            hue_raw: self.hue_raw,
            sat_raw: self.sat_raw,
            hue: self.hue,
            sat: self.sat,
            name: copy_text(&self.name),
            rgb: copy_text(&self.rgb),
        }
    }
}

/// An object whose fields are given.
pub open spec fn fields() -> Seq<(Seq<char>, JsonView)> {
    Seq::empty()
}

/// The fields that name a command on an endpoint.
pub open spec fn command_fields(
    node_id: u64,
    endpoint: u16,
    cluster: Seq<char>,
    command: Seq<char>,
) -> Seq<(Seq<char>, JsonView)> {
    fields().push(("node_id"@, JsonView::UInt(node_id))).push(
        ("endpoint"@, JsonView::UInt(endpoint as u64)),
    ).push(("cluster"@, JsonView::Str(cluster))).push(("command"@, JsonView::Str(command)))
}

fn command_object(node_id: u64, endpoint: u16, cluster: &str, command: &str) -> (j: Json)
    ensures
        j@ == JsonView::Object(command_fields(node_id, endpoint, cluster@, command@)),
{
    Json::object().with("node_id", Json::UInt(node_id)).with(
        "endpoint",
        Json::UInt(endpoint as u64),
    ).with("cluster", Json::text(cluster)).with("command", Json::text(command))
}

/// The report of a command.
pub open spec fn invoke_body(
    node_id: u64,
    endpoint: u16,
    cluster: Seq<char>,
    command: Seq<char>,
) -> JsonView {
    JsonView::Object(
        command_fields(node_id, endpoint, cluster, command).push(
            ("status"@, JsonView::Str("success"@)),
        ),
    )
}

/// Reports a command.
pub fn invoke_success(node_id: u64, endpoint: u16, cluster: &str, command: &str) -> (j: Json)
    ensures
        j@ == invoke_body(node_id, endpoint, cluster@, command@),
{
    command_object(node_id, endpoint, cluster, command).with("status", Json::text("success"))
}

/// The report of a color temperature.
pub open spec fn color_temp_body(
    node_id: u64,
    endpoint: u16,
    kelvin: u32,
    mireds: u16,
    transition: u16,
) -> JsonView {
    JsonView::Object(
        command_fields(node_id, endpoint, "colorcontrol"@, "move-to-color-temperature"@).push(
            ("kelvin"@, JsonView::UInt(kelvin as u64)),
        ).push(("mireds"@, JsonView::UInt(mireds as u64))).push(
            ("transition"@, JsonView::UInt(transition as u64)),
        ).push(("status"@, JsonView::Str("success"@))),
    )
}

/// Reports a color temperature, as it was given and in both units.
pub fn color_temp_success(
    node_id: u64,
    endpoint: u16,
    kelvin: u32,
    mireds: u16,
    transition: u16,
) -> (j: Json)
    ensures
        j@ == color_temp_body(node_id, endpoint, kelvin, mireds, transition),
{
    command_object(node_id, endpoint, "colorcontrol", "move-to-color-temperature").with(
        "kelvin",
        Json::UInt(kelvin as u64),
    ).with("mireds", Json::UInt(mireds as u64)).with(
        "transition",
        Json::UInt(transition as u64),
    ).with("status", Json::text("success"))
}

/// The report of a level.
pub open spec fn level_body(
    node_id: u64,
    endpoint: u16,
    percent: u8,
    level: u8,
    transition: u16,
) -> JsonView {
    JsonView::Object(
        command_fields(node_id, endpoint, "levelcontrol"@, "move-to-level"@).push(
            ("percent"@, JsonView::UInt(percent as u64)),
        ).push(("level"@, JsonView::UInt(level as u64))).push(
            ("transition"@, JsonView::UInt(transition as u64)),
        ).push(("status"@, JsonView::Str("success"@))),
    )
}

/// Reports a level, as a percentage and as sent.
pub fn level_success(node_id: u64, endpoint: u16, percent: u8, level: u8, transition: u16) -> (j:
    Json)
    ensures
        j@ == level_body(node_id, endpoint, percent, level, transition),
{
    command_object(node_id, endpoint, "levelcontrol", "move-to-level").with(
        "percent",
        Json::UInt(percent as u64),
    ).with("level", Json::UInt(level as u64)).with("transition", Json::UInt(transition as u64)).with(
        "status",
        Json::text("success"),
    )
}

/// Fields with a text put behind them where there is one.
pub open spec fn with_text(
    fields: Seq<(Seq<char>, JsonView)>,
    key: Seq<char>,
    value: Option<String>,
) -> Seq<(Seq<char>, JsonView)> {
    match value {
        Some(s) => fields.push((key, JsonView::Str(s@))),
        None => fields,
    }
}

/// Puts a text behind the fields of an object where there is one.
pub fn put_text(j: Json, key: &str, value: &Option<String>) -> (r: Json)
    requires
        j@ is Object,
    ensures
        r@ == JsonView::Object(with_text(j@->Object_0, key@, *value)),
{
    match value {
        Some(s) => j.with(key, Json::text(s.as_str())),
        None => j,
    }
}

/// The report of a color.
pub open spec fn color_body(
    node_id: u64,
    endpoint: u16,
    color: ResolvedColor,
    transition: u16,
) -> JsonView {
    let base = command_fields(
        node_id,
        endpoint,
        "colorcontrol"@,
        "move-to-hue-and-saturation"@,
    ).push(("hue"@, JsonView::UInt(color.hue as u64))).push(
        ("saturation"@, JsonView::UInt(color.sat as u64)),
    ).push(("hue_raw"@, JsonView::UInt(color.hue_raw as u64))).push(
        ("saturation_raw"@, JsonView::UInt(color.sat_raw as u64)),
    ).push(("transition"@, JsonView::UInt(transition as u64))).push(
        ("status"@, JsonView::Str("success"@)),
    );
    JsonView::Object(with_text(with_text(base, "name"@, color.name), "rgb"@, color.rgb))
}

/// Reports a color, as it was given and as sent.
pub fn color_success(node_id: u64, endpoint: u16, color: &ResolvedColor, transition: u16) -> (j:
    Json)
    ensures
        j@ == color_body(node_id, endpoint, *color, transition),
{
    let base = command_object(
        node_id,
        endpoint,
        "colorcontrol",
        "move-to-hue-and-saturation",
    ).with("hue", Json::UInt(color.hue as u64)).with("saturation", Json::UInt(color.sat as u64)).with(
        "hue_raw",
        Json::UInt(color.hue_raw as u64),
    ).with("saturation_raw", Json::UInt(color.sat_raw as u64)).with(
        "transition",
        Json::UInt(transition as u64),
    ).with("status", Json::text("success"));
    put_text(put_text(base, "name", &color.name), "rgb", &color.rgb)
}

/// The report of an attribute's value.
pub open spec fn read_body(
    node_id: u64,
    endpoint: u16,
    cluster: Seq<char>,
    attribute: Seq<char>,
    value: JsonView,
) -> JsonView {
    JsonView::Object(
        fields().push(("node_id"@, JsonView::UInt(node_id))).push(
            ("endpoint"@, JsonView::UInt(endpoint as u64)),
        ).push(("cluster"@, JsonView::Str(cluster))).push(
            ("attribute"@, JsonView::Str(attribute)),
        ).push(("value"@, value)),
    )
}

/// Reports an attribute's value.
pub fn read_success(node_id: u64, endpoint: u16, cluster: &str, attribute: &str, value: Json) -> (j:
    Json)
    ensures
        j@ == read_body(node_id, endpoint, cluster@, attribute@, value@),
{
    Json::object().with("node_id", Json::UInt(node_id)).with(
        "endpoint",
        Json::UInt(endpoint as u64),
    ).with("cluster", Json::text(cluster)).with("attribute", Json::text(attribute)).with(
        "value",
        value,
    )
}

/// The report of an open window.
pub open spec fn window_body(
    node_id: u64,
    manual_code: Seq<char>,
    qr_payload: Seq<char>,
    expires_at: Seq<char>,
) -> JsonView {
    JsonView::Object(
        fields().push(("node_id"@, JsonView::UInt(node_id))).push(
            ("manual_code"@, JsonView::Str(manual_code)),
        ).push(("qr_payload"@, JsonView::Str(qr_payload))).push(
            ("expires_at"@, JsonView::Str(expires_at)),
        ),
    )
}

/// Reports an open window.
pub fn open_window_success(
    node_id: u64,
    manual_code: &str,
    qr_payload: &str,
    expires_at: &str,
) -> (j: Json)
    ensures
        j@ == window_body(node_id, manual_code@, qr_payload@, expires_at@),
{
    Json::object().with("node_id", Json::UInt(node_id)).with(
        "manual_code",
        Json::text(manual_code),
    ).with("qr_payload", Json::text(qr_payload)).with("expires_at", Json::text(expires_at))
}

/// The report of a fabric that was removed.
pub open spec fn unpair_body(fabric_index: u8) -> JsonView {
    JsonView::Object(
        fields().push(("removed"@, JsonView::Bool(true))).push(
            ("fabric_index"@, JsonView::UInt(fabric_index as u64)),
        ),
    )
}

/// Reports a fabric that was removed.
pub fn unpair_device(fabric_index: u8) -> (j: Json)
    ensures
        j@ == unpair_body(fabric_index),
{
    Json::object().with("removed", Json::Bool(true)).with(
        "fabric_index",
        Json::UInt(fabric_index as u64),
    )
}

/// The report of a Thread diagnosis; what could not be read is listed where
/// there is any.
pub open spec fn diag_thread_body(
    node_id: u64,
    endpoint: u16,
    thread: JsonView,
    unavailable: Seq<JsonView>,
) -> JsonView {
    let base = fields().push(("node_id"@, JsonView::UInt(node_id))).push(
        ("endpoint"@, JsonView::UInt(endpoint as u64)),
    ).push(("thread"@, thread));
    JsonView::Object(
        if unavailable.len() == 0 {
            base
        } else {
            base.push(("unavailable"@, JsonView::Array(unavailable)))
        },
    )
}

/// Reports a Thread diagnosis.
pub fn diag_thread_success(node_id: u64, endpoint: u16, thread: Json, unavailable: Vec<Json>) -> (j:
    Json)
    ensures
        j@ == diag_thread_body(node_id, endpoint, thread@, json_views(unavailable@)),
{
    let base = Json::object().with("node_id", Json::UInt(node_id)).with(
        "endpoint",
        Json::UInt(endpoint as u64),
    ).with("thread", thread);
    if unavailable.len() == 0 {
        base
    } else {
        base.with("unavailable", Json::array(unavailable))
    }
}

/// The report of a command names the node, the endpoint, the cluster and the
/// command, and says that it succeeded.
pub proof fn law_invoke_report_by_name(
    node_id: u64,
    endpoint: u16,
    cluster: Seq<char>,
    command: Seq<char>,
)
    ensures
        invoke_body(node_id, endpoint, cluster, command).get("node_id"@)
            == Some(JsonView::UInt(node_id)),
        invoke_body(node_id, endpoint, cluster, command).get("endpoint"@)
            == Some(JsonView::UInt(endpoint as u64)),
        invoke_body(node_id, endpoint, cluster, command).get("cluster"@)
            == Some(JsonView::Str(cluster)),
        invoke_body(node_id, endpoint, cluster, command).get("command"@)
            == Some(JsonView::Str(command)),
        invoke_body(node_id, endpoint, cluster, command).get("status"@)
            == Some(JsonView::Str("success"@)),
        invoke_body(node_id, endpoint, cluster, command)->Object_0.len() == 5,
{
    reveal_strlit("node_id");
    reveal_strlit("endpoint");
    reveal_strlit("cluster");
    reveal_strlit("command");
    reveal_strlit("status");
    assert("node_id"@[0] != "cluster"@[0]);
    assert("node_id"@[0] != "command"@[0]);
    assert("cluster"@[1] != "command"@[1]);
    let f = invoke_body(node_id, endpoint, cluster, command)->Object_0;
    assert(f[0].0 == "node_id"@);
    assert(f[1].0 == "endpoint"@);
    assert(f[2].0 == "cluster"@);
    assert(f[3].0 == "command"@);
    assert(f[4].0 == "status"@);
    law_first_field_is_found(f, "node_id"@, 0);
    law_first_field_is_found(f, "endpoint"@, 1);
    law_first_field_is_found(f, "cluster"@, 2);
    law_first_field_is_found(f, "command"@, 3);
    law_first_field_is_found(f, "status"@, 4);
}

/// The report of a colour temperature names where it was set and what was set.
pub proof fn law_color_temp_report_by_name(
    node_id: u64,
    endpoint: u16,
    kelvin: u32,
    mireds: u16,
    transition: u16,
)
    ensures
        color_temp_body(node_id, endpoint, kelvin, mireds, transition).get("node_id"@)
            == Some(JsonView::UInt(node_id)),
        color_temp_body(node_id, endpoint, kelvin, mireds, transition).get("endpoint"@)
            == Some(JsonView::UInt(endpoint as u64)),
        color_temp_body(node_id, endpoint, kelvin, mireds, transition).get("cluster"@)
            == Some(JsonView::Str("colorcontrol"@)),
        color_temp_body(node_id, endpoint, kelvin, mireds, transition).get("command"@)
            == Some(JsonView::Str("move-to-color-temperature"@)),
        color_temp_body(node_id, endpoint, kelvin, mireds, transition).get("kelvin"@)
            == Some(JsonView::UInt(kelvin as u64)),
        color_temp_body(node_id, endpoint, kelvin, mireds, transition).get("mireds"@)
            == Some(JsonView::UInt(mireds as u64)),
        color_temp_body(node_id, endpoint, kelvin, mireds, transition).get("transition"@)
            == Some(JsonView::UInt(transition as u64)),
        color_temp_body(node_id, endpoint, kelvin, mireds, transition).get("status"@)
            == Some(JsonView::Str("success"@)),
        color_temp_body(node_id, endpoint, kelvin, mireds, transition)->Object_0.len() == 8,
{
    reveal_strlit("node_id");
    reveal_strlit("endpoint");
    reveal_strlit("cluster");
    reveal_strlit("command");
    reveal_strlit("kelvin");
    reveal_strlit("mireds");
    reveal_strlit("transition");
    reveal_strlit("status");
    assert("node_id"@[0] != "cluster"@[0]);
    assert("node_id"@[0] != "command"@[0]);
    assert("cluster"@[1] != "command"@[1]);
    assert("kelvin"@[0] != "mireds"@[0]);
    assert("kelvin"@[0] != "status"@[0]);
    assert("mireds"@[0] != "status"@[0]);
    let f = color_temp_body(node_id, endpoint, kelvin, mireds, transition)->Object_0;
    assert(f[0].0 == "node_id"@);
    assert(f[1].0 == "endpoint"@);
    assert(f[2].0 == "cluster"@);
    assert(f[3].0 == "command"@);
    assert(f[4].0 == "kelvin"@);
    assert(f[5].0 == "mireds"@);
    assert(f[6].0 == "transition"@);
    assert(f[7].0 == "status"@);
    law_first_field_is_found(f, "node_id"@, 0);
    law_first_field_is_found(f, "endpoint"@, 1);
    law_first_field_is_found(f, "cluster"@, 2);
    law_first_field_is_found(f, "command"@, 3);
    law_first_field_is_found(f, "kelvin"@, 4);
    law_first_field_is_found(f, "mireds"@, 5);
    law_first_field_is_found(f, "transition"@, 6);
    law_first_field_is_found(f, "status"@, 7);
}

/// The report of a level names where it was set and what was set.
pub proof fn law_level_report_by_name(
    node_id: u64,
    endpoint: u16,
    percent: u8,
    level: u8,
    transition: u16,
)
    ensures
        level_body(node_id, endpoint, percent, level, transition).get("node_id"@)
            == Some(JsonView::UInt(node_id)),
        level_body(node_id, endpoint, percent, level, transition).get("endpoint"@)
            == Some(JsonView::UInt(endpoint as u64)),
        level_body(node_id, endpoint, percent, level, transition).get("cluster"@)
            == Some(JsonView::Str("levelcontrol"@)),
        level_body(node_id, endpoint, percent, level, transition).get("command"@)
            == Some(JsonView::Str("move-to-level"@)),
        level_body(node_id, endpoint, percent, level, transition).get("percent"@)
            == Some(JsonView::UInt(percent as u64)),
        level_body(node_id, endpoint, percent, level, transition).get("level"@)
            == Some(JsonView::UInt(level as u64)),
        level_body(node_id, endpoint, percent, level, transition).get("transition"@)
            == Some(JsonView::UInt(transition as u64)),
        level_body(node_id, endpoint, percent, level, transition).get("status"@)
            == Some(JsonView::Str("success"@)),
        level_body(node_id, endpoint, percent, level, transition)->Object_0.len() == 8,
{
    reveal_strlit("node_id");
    reveal_strlit("endpoint");
    reveal_strlit("cluster");
    reveal_strlit("command");
    reveal_strlit("percent");
    reveal_strlit("level");
    reveal_strlit("transition");
    reveal_strlit("status");
    assert("node_id"@[0] != "cluster"@[0]);
    assert("node_id"@[0] != "command"@[0]);
    assert("node_id"@[0] != "percent"@[0]);
    assert("cluster"@[1] != "command"@[1]);
    assert("cluster"@[0] != "percent"@[0]);
    assert("command"@[0] != "percent"@[0]);
    let f = level_body(node_id, endpoint, percent, level, transition)->Object_0;
    assert(f[0].0 == "node_id"@);
    assert(f[1].0 == "endpoint"@);
    assert(f[2].0 == "cluster"@);
    assert(f[3].0 == "command"@);
    assert(f[4].0 == "percent"@);
    assert(f[5].0 == "level"@);
    assert(f[6].0 == "transition"@);
    assert(f[7].0 == "status"@);
    law_first_field_is_found(f, "node_id"@, 0);
    law_first_field_is_found(f, "endpoint"@, 1);
    law_first_field_is_found(f, "cluster"@, 2);
    law_first_field_is_found(f, "command"@, 3);
    law_first_field_is_found(f, "percent"@, 4);
    law_first_field_is_found(f, "level"@, 5);
    law_first_field_is_found(f, "transition"@, 6);
    law_first_field_is_found(f, "status"@, 7);
}

/// The report of a read names what was read, and holds its value.
pub proof fn law_read_report_by_name(
    node_id: u64,
    endpoint: u16,
    cluster: Seq<char>,
    attribute: Seq<char>,
    value: JsonView,
)
    ensures
        read_body(node_id, endpoint, cluster, attribute, value).get("node_id"@)
            == Some(JsonView::UInt(node_id)),
        read_body(node_id, endpoint, cluster, attribute, value).get("endpoint"@)
            == Some(JsonView::UInt(endpoint as u64)),
        read_body(node_id, endpoint, cluster, attribute, value).get("cluster"@)
            == Some(JsonView::Str(cluster)),
        read_body(node_id, endpoint, cluster, attribute, value).get("attribute"@)
            == Some(JsonView::Str(attribute)),
        read_body(node_id, endpoint, cluster, attribute, value).get("value"@) == Some(value),
        read_body(node_id, endpoint, cluster, attribute, value)->Object_0.len() == 5,
{
    reveal_strlit("node_id");
    reveal_strlit("endpoint");
    reveal_strlit("cluster");
    reveal_strlit("attribute");
    reveal_strlit("value");
    assert("node_id"@[0] != "cluster"@[0]);
    let f = read_body(node_id, endpoint, cluster, attribute, value)->Object_0;
    assert(f[0].0 == "node_id"@);
    assert(f[1].0 == "endpoint"@);
    assert(f[2].0 == "cluster"@);
    assert(f[3].0 == "attribute"@);
    assert(f[4].0 == "value"@);
    law_first_field_is_found(f, "node_id"@, 0);
    law_first_field_is_found(f, "endpoint"@, 1);
    law_first_field_is_found(f, "cluster"@, 2);
    law_first_field_is_found(f, "attribute"@, 3);
    law_first_field_is_found(f, "value"@, 4);
}

/// The report of a window names the node and holds both codes and the end.
pub proof fn law_window_report_by_name(
    node_id: u64,
    manual_code: Seq<char>,
    qr_payload: Seq<char>,
    expires_at: Seq<char>,
)
    ensures
        window_body(node_id, manual_code, qr_payload, expires_at).get("node_id"@)
            == Some(JsonView::UInt(node_id)),
        window_body(node_id, manual_code, qr_payload, expires_at).get("manual_code"@)
            == Some(JsonView::Str(manual_code)),
        window_body(node_id, manual_code, qr_payload, expires_at).get("qr_payload"@)
            == Some(JsonView::Str(qr_payload)),
        window_body(node_id, manual_code, qr_payload, expires_at).get("expires_at"@)
            == Some(JsonView::Str(expires_at)),
        window_body(node_id, manual_code, qr_payload, expires_at)->Object_0.len() == 4,
{
    reveal_strlit("node_id");
    reveal_strlit("manual_code");
    reveal_strlit("qr_payload");
    reveal_strlit("expires_at");
    assert("qr_payload"@[0] != "expires_at"@[0]);
    let f = window_body(node_id, manual_code, qr_payload, expires_at)->Object_0;
    assert(f[0].0 == "node_id"@);
    assert(f[1].0 == "manual_code"@);
    assert(f[2].0 == "qr_payload"@);
    assert(f[3].0 == "expires_at"@);
    law_first_field_is_found(f, "node_id"@, 0);
    law_first_field_is_found(f, "manual_code"@, 1);
    law_first_field_is_found(f, "qr_payload"@, 2);
    law_first_field_is_found(f, "expires_at"@, 3);
}

/// The report of a removal says that the fabric is gone, and which.
pub proof fn law_unpair_report_by_name(fabric_index: u8)
    ensures
        unpair_body(fabric_index).get("removed"@) == Some(JsonView::Bool(true)),
        unpair_body(fabric_index).get("fabric_index"@) == Some(JsonView::UInt(fabric_index as u64)),
        unpair_body(fabric_index)->Object_0.len() == 2,
{
    reveal_strlit("removed");
    reveal_strlit("fabric_index");
    let f = unpair_body(fabric_index)->Object_0;
    assert(f[0].0 == "removed"@);
    assert(f[1].0 == "fabric_index"@);
    law_first_field_is_found(f, "removed"@, 0);
    law_first_field_is_found(f, "fabric_index"@, 1);
}

/// The report of a colour names where it was set and what was set, in both
/// scales; the name and the colour value stand there where they were given.
pub proof fn law_color_report_by_name(
    node_id: u64,
    endpoint: u16,
    color: ResolvedColor,
    transition: u16,
)
    ensures
        color_body(node_id, endpoint, color, transition).get("node_id"@)
            == Some(JsonView::UInt(node_id)),
        color_body(node_id, endpoint, color, transition).get("endpoint"@)
            == Some(JsonView::UInt(endpoint as u64)),
        color_body(node_id, endpoint, color, transition).get("cluster"@)
            == Some(JsonView::Str("colorcontrol"@)),
        color_body(node_id, endpoint, color, transition).get("command"@)
            == Some(JsonView::Str("move-to-hue-and-saturation"@)),
        color_body(node_id, endpoint, color, transition).get("hue"@)
            == Some(JsonView::UInt(color.hue as u64)),
        color_body(node_id, endpoint, color, transition).get("saturation"@)
            == Some(JsonView::UInt(color.sat as u64)),
        color_body(node_id, endpoint, color, transition).get("hue_raw"@)
            == Some(JsonView::UInt(color.hue_raw as u64)),
        color_body(node_id, endpoint, color, transition).get("saturation_raw"@)
            == Some(JsonView::UInt(color.sat_raw as u64)),
        color_body(node_id, endpoint, color, transition).get("transition"@)
            == Some(JsonView::UInt(transition as u64)),
        color_body(node_id, endpoint, color, transition).get("status"@)
            == Some(JsonView::Str("success"@)),
        color_body(node_id, endpoint, color, transition).get("name"@) == match color.name {
            Some(n) => Some(JsonView::Str(n@)),
            None => None,
        },
        color_body(node_id, endpoint, color, transition).get("rgb"@) == match color.rgb {
            Some(n) => Some(JsonView::Str(n@)),
            None => None,
        },
{
    reveal_strlit("node_id");
    reveal_strlit("endpoint");
    reveal_strlit("cluster");
    reveal_strlit("command");
    reveal_strlit("hue");
    reveal_strlit("saturation");
    reveal_strlit("hue_raw");
    reveal_strlit("saturation_raw");
    reveal_strlit("transition");
    reveal_strlit("status");
    reveal_strlit("name");
    reveal_strlit("rgb");
    assert("node_id"@[0] != "cluster"@[0]);
    assert("node_id"@[0] != "command"@[0]);
    assert("node_id"@[0] != "hue_raw"@[0]);
    assert("cluster"@[1] != "command"@[1]);
    assert("cluster"@[0] != "hue_raw"@[0]);
    assert("command"@[0] != "hue_raw"@[0]);
    assert("hue"@[0] != "rgb"@[0]);
    assert("saturation"@[0] != "transition"@[0]);
    let f = color_body(node_id, endpoint, color, transition)->Object_0;
    assert(f[0].0 == "node_id"@);
    assert(f[1].0 == "endpoint"@);
    assert(f[2].0 == "cluster"@);
    assert(f[3].0 == "command"@);
    assert(f[4].0 == "hue"@);
    assert(f[5].0 == "saturation"@);
    assert(f[6].0 == "hue_raw"@);
    assert(f[7].0 == "saturation_raw"@);
    assert(f[8].0 == "transition"@);
    assert(f[9].0 == "status"@);
    law_first_field_is_found(f, "node_id"@, 0);
    law_first_field_is_found(f, "endpoint"@, 1);
    law_first_field_is_found(f, "cluster"@, 2);
    law_first_field_is_found(f, "command"@, 3);
    law_first_field_is_found(f, "hue"@, 4);
    law_first_field_is_found(f, "saturation"@, 5);
    law_first_field_is_found(f, "hue_raw"@, 6);
    law_first_field_is_found(f, "saturation_raw"@, 7);
    law_first_field_is_found(f, "transition"@, 8);
    law_first_field_is_found(f, "status"@, 9);
    if color.name is Some {
        assert(f[10].0 == "name"@);
        law_first_field_is_found(f, "name"@, 10);
        if color.rgb is Some {
            assert(f[11].0 == "rgb"@);
            law_first_field_is_found(f, "rgb"@, 11);
        } else {
            lemma_lookup_absent(f, "rgb"@);
        }
    } else {
        if color.rgb is Some {
            assert(f[10].0 == "rgb"@);
            law_first_field_is_found(f, "rgb"@, 10);
        } else {
            lemma_lookup_absent(f, "rgb"@);
        }
        lemma_lookup_absent(f, "name"@);
    }
}

/// The report of a Thread diagnosis names the node and the endpoint and holds
/// what was found; what was unavailable is listed, if anything was.
pub proof fn law_thread_report_by_name(
    node_id: u64,
    endpoint: u16,
    thread: JsonView,
    unavailable: Seq<JsonView>,
)
    ensures
        diag_thread_body(node_id, endpoint, thread, unavailable).get("node_id"@)
            == Some(JsonView::UInt(node_id)),
        diag_thread_body(node_id, endpoint, thread, unavailable).get("endpoint"@)
            == Some(JsonView::UInt(endpoint as u64)),
        diag_thread_body(node_id, endpoint, thread, unavailable).get("thread"@) == Some(thread),
        diag_thread_body(node_id, endpoint, thread, unavailable).get("unavailable"@)
            == if unavailable.len() > 0 {
            Some(JsonView::Array(unavailable))
        } else {
            None
        },
{
    reveal_strlit("node_id");
    reveal_strlit("endpoint");
    reveal_strlit("thread");
    reveal_strlit("unavailable");
    let f = diag_thread_body(node_id, endpoint, thread, unavailable)->Object_0;
    assert(f[0].0 == "node_id"@);
    assert(f[1].0 == "endpoint"@);
    assert(f[2].0 == "thread"@);
    law_first_field_is_found(f, "node_id"@, 0);
    law_first_field_is_found(f, "endpoint"@, 1);
    law_first_field_is_found(f, "thread"@, 2);
    if unavailable.len() > 0 {
        assert(f[3].0 == "unavailable"@);
        law_first_field_is_found(f, "unavailable"@, 3);
    } else {
        lemma_lookup_absent(f, "unavailable"@);
    }
}

} // verus!
