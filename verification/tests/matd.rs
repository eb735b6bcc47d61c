//! The wire to the daemon.
use mat::body::ResolvedColor;
use mat::device_op::DeviceOp;
use mat::error::ErrorKind;
use mat::json::{parse, render, Json};
use mat::matd_client::{
    attach_deadline, dispatch, dispatch_auto, is_falsy, is_truthy, resolve_route, to_op, Route,
};
use mat::matd_stream::{
    classify_reload_ack, connect_candidates, emit_response, exchange_on_stream, finish_on_timeout,
    hint_reload_at, listen_deadline, listen_request_json, listen_unavailable, node_touched_op,
    read_wait, reload_op, request_line, run_listen_reconnecting, stream_closed, stream_events,
    stream_unreadable, Connect, Exchange, HintReply, ListenAction, ListenEvent, MatdReload, Output,
    ReadWait, Reconnect, Relisten, ReloadAck, StreamStep, RELOAD_WAIT_MS, TOUCHED_WAIT_MS,
};
use mat::op::{
    GroupOp, GroupOpKind, InvokeClass, NodeOp, NodeOpKind, ProvisionParams, WriteClass,
};
use mat::tlv::ArgValue;
use serde_json::Value;

/// Whether a value is the one that a text spells, whatever the order of fields.
fn same(j: &Json, text: &str) {
    let got: Value = serde_json::from_str(&render(j)).unwrap();
    let want: Value = serde_json::from_str(text).unwrap();
    assert_eq!(got, want);
}

fn node(node_id: u64, kind: NodeOpKind) -> DeviceOp {
    DeviceOp::Node(NodeOp { node_id, kind })
}

fn group(group_id: u16, endpoint: u16, kind: GroupOpKind) -> DeviceOp {
    DeviceOp::Group(GroupOp {
        group_id,
        endpoint,
        kind,
    })
}

fn invoke_class(cluster: u32, command: u32, fields: Vec<ArgValue>) -> InvokeClass {
    InvokeClass::Native {
        cluster,
        command,
        fields,
        timed: false,
    }
}

fn on_level(timed: bool) -> DeviceOp {
    let class = WriteClass::Native {
        cluster: 8,
        attribute: 0x11,
        value: ArgValue::UInt(128),
        timed: false,
    };
    node(
        1,
        NodeOpKind::write(1, "levelcontrol", "on-level", "128", class, timed).unwrap(),
    )
}

fn invoke_on(timed: bool) -> DeviceOp {
    node(
        1,
        NodeOpKind::invoke(1, "onoff", "on", vec![], invoke_class(6, 1, vec![]), timed).unwrap(),
    )
}

fn color(hue_raw: u8, sat_raw: u8, hue: u16, sat: u8, named: Option<(&str, &str)>) -> ResolvedColor {
    ResolvedColor {
        hue_raw,
        sat_raw,
        hue,
        sat,
        name: named.map(|n| n.0.to_string()),
        rgb: named.map(|n| n.1.to_string()),
    }
}

fn read_maps_to_read_op() {
    let op = node(
        1,
        NodeOpKind::read(2, "onoff", "on-off", Some(6), Some(0)).unwrap(),
    );
    same(
        &to_op(&op).unwrap(),
        r#"{"op":"read","node_id":1,"endpoint":2,"cluster":"onoff","attribute":"on-off"}"#,
    );
}

#[test]
fn matd_client_read_maps_to_read_op() {
    read_maps_to_read_op();
}

#[test]
fn to_op_read_maps_to_read_op() {
    read_maps_to_read_op();
}

fn on_maps_to_on_op_with_endpoint() {
    let op = node(3, NodeOpKind::On { endpoint: 1 });
    same(
        &to_op(&op).unwrap(),
        r#"{"op":"on","node_id":3,"endpoint":1}"#,
    );
}

#[test]
fn matd_client_on_maps_to_on_op_with_endpoint() {
    on_maps_to_on_op_with_endpoint();
}

#[test]
fn to_op_on_maps_to_on_op_with_endpoint() {
    on_maps_to_on_op_with_endpoint();
}

fn color_temp_kelvin_maps_to_color_temp_op_with_converted_mireds() {
    let op = node(6, NodeOpKind::color_temp(1, Some(2700), None, 30));
    same(
        &to_op(&op).unwrap(),
        r#"{"op":"color_temp","node_id":6,"endpoint":1,"mireds":370,"kelvin":2700,"transition":30}"#,
    );
}

#[test]
fn matd_client_color_temp_kelvin_maps_to_color_temp_op_with_converted_mireds() {
    color_temp_kelvin_maps_to_color_temp_op_with_converted_mireds();
}

#[test]
fn to_op_color_temp_kelvin_maps_to_color_temp_op_with_converted_mireds() {
    color_temp_kelvin_maps_to_color_temp_op_with_converted_mireds();
}

fn color_temp_mireds_maps_with_computed_kelvin_echo() {
    let op = node(6, NodeOpKind::color_temp(1, None, Some(370), 0));
    same(
        &to_op(&op).unwrap(),
        r#"{"op":"color_temp","node_id":6,"endpoint":1,"mireds":370,"kelvin":2703,"transition":0}"#,
    );
}

#[test]
fn matd_client_color_temp_mireds_maps_with_computed_kelvin_echo() {
    color_temp_mireds_maps_with_computed_kelvin_echo();
}

#[test]
fn to_op_color_temp_mireds_maps_with_computed_kelvin_echo() {
    color_temp_mireds_maps_with_computed_kelvin_echo();
}

fn color_maps_to_color_op_with_converted_values() {
    let op = node(
        6,
        NodeOpKind::Color {
            endpoint: 1,
            color: color(233, 203, 330, 80, None),
            transition: 30,
        },
    );
    same(
        &to_op(&op).unwrap(),
        r#"{
            "op":"color","node_id":6,"endpoint":1,
            "hue_raw":233,"saturation_raw":203,
            "hue":330,"saturation":80,"transition":30
        }"#,
    );
}

#[test]
fn matd_client_color_maps_to_color_op_with_converted_values() {
    color_maps_to_color_op_with_converted_values();
}

#[test]
fn to_op_color_maps_to_color_op_with_converted_values() {
    color_maps_to_color_op_with_converted_values();
}

fn color_name_op_includes_name_and_rgb_echo() {
    let op = node(
        6,
        NodeOpKind::Color {
            endpoint: 1,
            color: color(0, 254, 0, 100, Some(("red", "#ff0000"))),
            transition: 0,
        },
    );
    same(
        &to_op(&op).unwrap(),
        r##"{
            "op":"color","node_id":6,"endpoint":1,
            "hue_raw":0,"saturation_raw":254,
            "hue":0,"saturation":100,"transition":0,
            "name":"red","rgb":"#ff0000"
        }"##,
    );
}

#[test]
fn matd_client_color_name_op_includes_name_and_rgb_echo() {
    color_name_op_includes_name_and_rgb_echo();
}

#[test]
fn to_op_color_name_op_includes_name_and_rgb_echo() {
    color_name_op_includes_name_and_rgb_echo();
}

fn group_provision_fills_default_name_and_keeps_null_epoch() {
    let op = DeviceOp::GroupProvision(ProvisionParams {
        group_id: 7,
        node_ids: vec![1, 2],
        keyset_id: 42,
        name: "grp7".into(),
        endpoint: 1,
        epoch_key: None,
        rebind: false,
    });
    same(
        &to_op(&op).unwrap(),
        r#"{
            "op":"group_provision","group_id":7,"node_ids":[1,2],
            "keyset_id":42,"name":"grp7","endpoint":1,"epoch_key":null,
            "rebind":false
        }"#,
    );
}

#[test]
fn matd_client_group_provision_fills_default_name_and_keeps_null_epoch() {
    group_provision_fills_default_name_and_keeps_null_epoch();
}

#[test]
fn to_op_group_provision_fills_default_name_and_keeps_null_epoch() {
    group_provision_fills_default_name_and_keeps_null_epoch();
}

fn group_bump_maps_to_group_bump_op() {
    same(
        &to_op(&DeviceOp::GroupBump).unwrap(),
        r#"{ "op": "group_bump" }"#,
    );
}

#[test]
fn matd_client_group_bump_maps_to_group_bump_op() {
    group_bump_maps_to_group_bump_op();
}

#[test]
fn to_op_group_bump_maps_to_group_bump_op() {
    group_bump_maps_to_group_bump_op();
}

fn write_invoke_and_group_invoke_keep_names_and_args_on_the_wire() {
    same(
        &to_op(&on_level(false)).unwrap(),
        r#"{"op":"write","node_id":1,"endpoint":1,"cluster":"levelcontrol","attribute":"on-level","value":"128"}"#,
    );
    let args: Vec<String> = vec!["128".into(), "0".into(), "0".into(), "0".into()];
    let fields = vec![
        ArgValue::UInt(128),
        ArgValue::UInt(0),
        ArgValue::UInt(0),
        ArgValue::UInt(0),
    ];
    let i = node(
        1,
        NodeOpKind::invoke(
            1,
            "levelcontrol",
            "move-to-level",
            args,
            invoke_class(8, 0, fields),
            false,
        )
        .unwrap(),
    );
    same(
        &to_op(&i).unwrap(),
        r#"{"op":"invoke","node_id":1,"endpoint":1,"cluster":"levelcontrol","command":"move-to-level","args":["128","0","0","0"]}"#,
    );
    let g = group(
        10,
        1,
        GroupOpKind::invoke("onoff", "on", vec![], invoke_class(6, 1, vec![])).unwrap(),
    );
    same(
        &to_op(&g).unwrap(),
        r#"{"op":"group_invoke","group_id":10,"cluster":"onoff","command":"on","args":[],"endpoint":1}"#,
    );
    same(
        &to_op(&node(1, NodeOpKind::Describe)).unwrap(),
        r#"{"op":"describe","node_id":1}"#,
    );
}

#[test]
fn matd_client_write_invoke_and_group_invoke_keep_names_and_args_on_the_wire() {
    write_invoke_and_group_invoke_keep_names_and_args_on_the_wire();
}

#[test]
fn to_op_write_invoke_and_group_invoke_keep_names_and_args_on_the_wire() {
    write_invoke_and_group_invoke_keep_names_and_args_on_the_wire();
}

fn timed_true_is_sent_on_wire_and_false_is_omitted() {
    assert_eq!(
        to_op(&invoke_on(true)).unwrap().get("timed"),
        Some(&Json::Bool(true))
    );
    assert!(to_op(&invoke_on(false)).unwrap().get("timed").is_none());
    assert_eq!(
        to_op(&on_level(true)).unwrap().get("timed"),
        Some(&Json::Bool(true))
    );
}

#[test]
fn matd_client_timed_true_is_sent_on_wire_and_false_is_omitted() {
    timed_true_is_sent_on_wire_and_false_is_omitted();
}

#[test]
fn to_op_timed_true_is_sent_on_wire_and_false_is_omitted() {
    timed_true_is_sent_on_wire_and_false_is_omitted();
}

fn group_grant_is_unsupported_via_matd() {
    let op = DeviceOp::GroupGrant {
        group_id: 1,
        node_ids: vec![5],
    };
    assert!(to_op(&op).unwrap_err().contains("group grant"));
}

#[test]
fn matd_client_group_grant_is_unsupported_via_matd() {
    group_grant_is_unsupported_via_matd();
}

#[test]
fn to_op_group_grant_is_unsupported_via_matd() {
    group_grant_is_unsupported_via_matd();
}

fn group_color_temp_maps_to_group_color_temp_op() {
    let op = group(1, 1, GroupOpKind::color_temp(Some(2700), None, 0));
    same(
        &to_op(&op).unwrap(),
        r#"{
            "op":"group_color_temp","group_id":1,
            "mireds":370,"kelvin":2700,"transition":0,"endpoint":1
        }"#,
    );
}

#[test]
fn matd_client_group_color_temp_maps_to_group_color_temp_op() {
    group_color_temp_maps_to_group_color_temp_op();
}

#[test]
fn to_op_group_color_temp_maps_to_group_color_temp_op() {
    group_color_temp_maps_to_group_color_temp_op();
}

fn group_level_maps_to_group_level_op() {
    let op = group(1, 1, GroupOpKind::level(50, 0));
    same(
        &to_op(&op).unwrap(),
        r#"{
            "op":"group_level","group_id":1,
            "level":127,"percent":50,"transition":0,"endpoint":1
        }"#,
    );
}

#[test]
fn matd_client_group_level_maps_to_group_level_op() {
    group_level_maps_to_group_level_op();
}

#[test]
fn to_op_group_level_maps_to_group_level_op() {
    group_level_maps_to_group_level_op();
}

fn group_color_maps_to_group_color_op_with_echo() {
    let op = group(
        1,
        1,
        GroupOpKind::Color {
            color: color(169, 254, 240, 100, Some(("blue", "#0000ff"))),
            transition: 0,
        },
    );
    same(
        &to_op(&op).unwrap(),
        r##"{
            "op":"group_color","group_id":1,
            "hue_raw":169,"saturation_raw":254,
            "hue":240,"saturation":100,"transition":0,"endpoint":1,
            "name":"blue","rgb":"#0000ff"
        }"##,
    );
}

#[test]
fn matd_client_group_color_maps_to_group_color_op_with_echo() {
    group_color_maps_to_group_color_op_with_echo();
}

#[test]
fn to_op_group_color_maps_to_group_color_op_with_echo() {
    group_color_maps_to_group_color_op_with_echo();
}

fn direct_only_ops_are_unsupported_via_matd() {
    let dt = node(1, NodeOpKind::DiagThread { endpoint: 0 });
    assert!(to_op(&dt).unwrap_err().contains("diag"));
    let ow = node(
        1,
        NodeOpKind::OpenWindow {
            timeout: 180,
            iteration: 1000,
            discriminator: 1,
        },
    );
    assert!(to_op(&ow).unwrap_err().contains("open-window"));
}

#[test]
fn matd_client_direct_only_ops_are_unsupported_via_matd() {
    direct_only_ops_are_unsupported_via_matd();
}

#[test]
fn to_op_direct_only_ops_are_unsupported_via_matd() {
    direct_only_ops_are_unsupported_via_matd();
}

fn read_cluster_maps_to_read_op_without_attribute_key() {
    let op = node(1, NodeOpKind::read_cluster(2, "onoff", Some(6)).unwrap());
    same(
        &to_op(&op).unwrap(),
        r#"{"op":"read","node_id":1,"endpoint":2,"cluster":"onoff"}"#,
    );
}

#[test]
fn matd_client_read_cluster_maps_to_read_op_without_attribute_key() {
    read_cluster_maps_to_read_op_without_attribute_key();
}

#[test]
fn to_op_read_cluster_maps_to_read_op_without_attribute_key() {
    read_cluster_maps_to_read_op_without_attribute_key();
}

fn resolve_route_three_states() {
    let usual = || vec!["/run/matd/matd.sock".to_string(), "/tmp/matd.sock".to_string()];
    let route = |flag: Option<Option<&str>>, socket: Option<&str>, enable: Option<&str>| {
        resolve_route(
            flag.map(|f| f.map(|s| s.to_string())),
            socket.map(|s| s.to_string()),
            enable.map(|s| s.to_string()),
            usual(),
        )
    };
    let one = |s: &str| vec![s.to_string()];
    assert_eq!(
        route(Some(Some("/x/y.sock")), Some("/env.sock"), None),
        Route::Forced(one("/x/y.sock"))
    );
    assert_eq!(route(Some(None), None, None), Route::Forced(usual()));
    assert_eq!(
        route(Some(None), Some("/env.sock"), None),
        Route::Forced(one("/env.sock"))
    );
    assert_eq!(route(None, None, Some("1")), Route::Forced(usual()));
    assert_eq!(route(None, None, Some("0")), Route::Direct);
    assert_eq!(
        route(None, Some("/env.sock"), Some("off")),
        Route::Direct
    );
    assert_eq!(route(None, None, None), Route::Auto(usual()));
    assert_eq!(
        route(None, Some("/env.sock"), None),
        Route::Auto(one("/env.sock"))
    );
    assert_eq!(route(None, None, Some("abc")), Route::Auto(usual()));
}

#[test]
fn matd_client_resolve_route_three_states() {
    resolve_route_three_states();
}

#[test]
fn mod_resolve_route_three_states() {
    resolve_route_three_states();
}

fn attach_deadline_only_when_budget_applies() {
    let op =
        parse(r#"{"op":"read","node_id":1,"endpoint":1,"cluster":"onoff","attribute":"on-off"}"#)
            .unwrap();
    let (op, rt) = attach_deadline(op, true, 15_000);
    assert_eq!(op.get("deadline_ms"), Some(&Json::UInt(15_000)));
    assert_eq!(rt, Some(17_000));
    let op = parse(r#"{"op":"on","node_id":3,"endpoint":1}"#).unwrap();
    let (op, rt) = attach_deadline(op, true, 0);
    assert_eq!(rt, None);
    assert_eq!(op.get("deadline_ms"), Some(&Json::UInt(0)));
    let op = parse(r#"{"op":"group_bump"}"#).unwrap();
    let (op, rt) = attach_deadline(op, false, 15_000);
    assert_eq!(rt, None);
    assert!(op.get("deadline_ms").is_none());
}

#[test]
fn matd_client_attach_deadline_only_when_budget_applies() {
    attach_deadline_only_when_budget_applies();
}

#[test]
fn mod_attach_deadline_only_when_budget_applies() {
    attach_deadline_only_when_budget_applies();
}

fn connect_candidates_falls_through_to_second_socket() {
    let candidates = vec!["/d/matd/matd.sock".to_string(), "/d/matd.sock".to_string()];
    assert_eq!(connect_candidates(&candidates, &vec![]), Connect::Try(0));
    assert_eq!(
        connect_candidates(&candidates, &vec!["No such file or directory".to_string()]),
        Connect::Try(1)
    );
}

#[test]
fn matd_client_connect_candidates_falls_through_to_second_socket() {
    connect_candidates_falls_through_to_second_socket();
}

#[test]
fn stream_connect_candidates_falls_through_to_second_socket() {
    connect_candidates_falls_through_to_second_socket();
}

fn connect_candidates_skips_stale_socket_file() {
    let candidates = vec!["/d/stale.sock".to_string(), "/d/alive.sock".to_string()];
    assert_eq!(
        connect_candidates(&candidates, &vec!["Connection refused".to_string()]),
        Connect::Try(1)
    );
}

#[test]
fn matd_client_connect_candidates_skips_stale_socket_file() {
    connect_candidates_skips_stale_socket_file();
}

#[test]
fn stream_connect_candidates_skips_stale_socket_file() {
    connect_candidates_skips_stale_socket_file();
}

fn connect_candidates_error_lists_all_attempts() {
    let candidates = vec!["/d/a.sock".to_string(), "/d/b.sock".to_string()];
    let details = vec!["refused".to_string(), "missing".to_string()];
    match connect_candidates(&candidates, &details) {
        Connect::Fail(err) => {
            assert!(err.contains("/d/a.sock"), "got: {err}");
            assert!(err.contains("/d/b.sock"), "got: {err}");
        }
        other => panic!("{other:?}"),
    }
}

#[test]
fn matd_client_connect_candidates_error_lists_all_attempts() {
    connect_candidates_error_lists_all_attempts();
}

#[test]
fn stream_connect_candidates_error_lists_all_attempts() {
    connect_candidates_error_lists_all_attempts();
}

fn exchange_on_stream_maps_eof_to_matd_unavailable() {
    let err = exchange_on_stream(Exchange::Closed).unwrap_err();
    assert_eq!(err.kind, ErrorKind::MatdUnavailable);
    assert!(
        err.detail.contains("may have been executed"),
        "detail should warn about possible partial execution: {}",
        err.detail
    );
}

#[test]
fn matd_client_exchange_on_stream_maps_eof_to_matd_unavailable() {
    exchange_on_stream_maps_eof_to_matd_unavailable();
}

#[test]
fn stream_exchange_on_stream_maps_eof_to_matd_unavailable() {
    exchange_on_stream_maps_eof_to_matd_unavailable();
}

fn exchange_on_stream_maps_non_json_response_to_parse_error() {
    let err = exchange_on_stream(Exchange::Line("garbage\n".to_string())).unwrap_err();
    assert_eq!(err.kind, ErrorKind::ParseError);
}

#[test]
fn matd_client_exchange_on_stream_maps_non_json_response_to_parse_error() {
    exchange_on_stream_maps_non_json_response_to_parse_error();
}

#[test]
fn stream_exchange_on_stream_maps_non_json_response_to_parse_error() {
    exchange_on_stream_maps_non_json_response_to_parse_error();
}

fn exchange_read_timeout_maps_to_timeout_kind() {
    let err = exchange_on_stream(Exchange::ReadTimedOut("timed out".to_string())).unwrap_err();
    assert_eq!(err.kind, ErrorKind::Timeout);
    assert!(
        err.detail.contains("may have been executed"),
        "detail: {}",
        err.detail
    );
}

#[test]
fn matd_client_exchange_read_timeout_maps_to_timeout_kind() {
    exchange_read_timeout_maps_to_timeout_kind();
}

#[test]
fn stream_exchange_read_timeout_maps_to_timeout_kind() {
    exchange_read_timeout_maps_to_timeout_kind();
}

fn listen_request_json_omits_absent_filters() {
    same(
        &listen_request_json(None, None, &None, &None, &None),
        r#"{"op":"listen"}"#,
    );
    same(
        &listen_request_json(
            Some(21),
            Some(1),
            &Some("occupancysensing".into()),
            &Some("occupancy".into()),
            &None,
        ),
        r#"{
            "op":"listen","node_id":21,"endpoint":1,
            "cluster":"occupancysensing","attribute":"occupancy"
        }"#,
    );
}

#[test]
fn matd_client_listen_request_json_omits_absent_filters() {
    listen_request_json_omits_absent_filters();
}

#[test]
fn listen_listen_request_json_omits_absent_filters() {
    listen_request_json_omits_absent_filters();
}

fn hint_node_touched_sends_op_line_to_matd() {
    let line = request_line(&node_touched_op(42));
    assert!(line.ends_with('\n'));
    let v: Value = serde_json::from_str(&line).unwrap();
    let want: Value = serde_json::from_str(r#"{"op":"node_touched","node_id":42}"#).unwrap();
    assert_eq!(v, want);
}

#[test]
fn matd_client_hint_node_touched_sends_op_line_to_matd() {
    hint_node_touched_sends_op_line_to_matd();
}

#[test]
fn hint_hint_node_touched_sends_op_line_to_matd() {
    hint_node_touched_sends_op_line_to_matd();
}

#[test]
fn hint_reload_reports_reloaded_on_ack() {
    let ack = "{\"reloaded\":true,\"ipk\":\"changed\",\"reload_count\":1}\n";
    assert_eq!(
        hint_reload_at(HintReply::Line(ack.to_string())),
        MatdReload::Reloaded
    );
    same(&reload_op(), r#"{"op": "reload"}"#);
}

#[test]
fn hint_reload_reports_failed_on_error_response() {
    let reply = "{\"error\":{\"kind\":\"parse_error\",\"detail\":\"unknown op\"}}\n";
    assert_eq!(
        hint_reload_at(HintReply::Line(reply.to_string())),
        MatdReload::Failed
    );
}

#[test]
fn hint_reload_reports_failed_on_non_json_response() {
    assert_eq!(
        hint_reload_at(HintReply::Line("garbage\n".to_string())),
        MatdReload::Failed
    );
    assert_eq!(hint_reload_at(HintReply::Silent), MatdReload::Failed);
    assert_eq!(hint_reload_at(HintReply::SendFailed), MatdReload::Failed);
}

#[test]
fn hint_reload_is_still_reloaded_when_matd_reports_ipk_unchanged() {
    let ack = "{\"reloaded\":true,\"ipk\":\"unchanged\",\"reload_count\":3}\n";
    assert_eq!(
        hint_reload_at(HintReply::Line(ack.to_string())),
        MatdReload::Reloaded
    );
}

#[test]
fn classify_reload_ack_separates_the_unchanged_ipk_case() {
    assert_eq!(
        classify_reload_ack(r#"{"reloaded":true,"ipk":"changed","reload_count":1}"#),
        ReloadAck::Reloaded
    );
    assert_eq!(
        classify_reload_ack(r#"{"reloaded":true,"ipk":"unchanged"}"#),
        ReloadAck::ReloadedIpkUnchanged
    );
    assert_eq!(
        classify_reload_ack(r#"{"reloaded":true}"#),
        ReloadAck::Reloaded
    );
    assert_eq!(
        classify_reload_ack(r#"{"error":{"kind":"parse_error","detail":"unknown op"}}"#),
        ReloadAck::NoAck
    );
    assert_eq!(
        classify_reload_ack(r#"{"reloaded":false,"ipk":"unchanged"}"#),
        ReloadAck::NoAck
    );
    assert_eq!(classify_reload_ack("garbage"), ReloadAck::NoAck);
}

#[test]
fn hint_reload_reports_not_running_without_matd() {
    assert_eq!(hint_reload_at(HintReply::NoDaemon), MatdReload::NotRunning);
}

#[test]
fn matd_reload_as_str_is_the_wire_vocabulary() {
    assert_eq!(MatdReload::Reloaded.as_str(), "reloaded");
    assert_eq!(MatdReload::NotRunning.as_str(), "not_running");
    assert_eq!(MatdReload::Failed.as_str(), "failed");
}

#[test]
fn listen_request_json_includes_event_only_when_set() {
    same(
        &listen_request_json(None, None, &None, &None, &Some("*".into())),
        r#"{"op":"listen","event":"*"}"#,
    );
    same(
        &listen_request_json(
            None,
            None,
            &Some("switch".into()),
            &None,
            &Some("initial-press".into()),
        ),
        r#"{"op":"listen","cluster":"switch","event":"initial-press"}"#,
    );
}

#[test]
fn truth_words_ignore_case() {
    for w in ["1", "true", "TRUE", "yes", "On"] {
        assert!(is_truthy(w), "{w}");
        assert!(!is_falsy(w), "{w}");
    }
    for w in ["0", "false", "No", "OFF"] {
        assert!(is_falsy(w), "{w}");
        assert!(!is_truthy(w), "{w}");
    }
    assert!(!is_truthy("") && !is_falsy("abc"));
}

#[test]
fn forced_route_refuses_what_the_daemon_cannot_do() {
    let grant = DeviceOp::GroupGrant {
        group_id: 1,
        node_ids: vec![5],
    };
    assert_eq!(
        dispatch(&grant, 1_000).unwrap_err().kind,
        ErrorKind::Other
    );
    assert!(dispatch_auto(&grant, 1_000, true).is_none());
    let on = node(3, NodeOpKind::On { endpoint: 1 });
    assert!(dispatch_auto(&on, 1_000, false).is_none());
    let (op, limit) = dispatch_auto(&on, 1_000, true).unwrap();
    assert_eq!(op.get("deadline_ms"), Some(&Json::UInt(1_000)));
    assert_eq!(limit, Some(3_000));
}

#[test]
fn answers_go_to_stdout_and_errors_to_stderr() {
    let ok = exchange_on_stream(Exchange::Line("{\"a\":1}\n".to_string())).unwrap();
    assert_eq!(emit_response(&ok), Output::Stdout);
    let refused = parse(r#"{"error":{"kind":"timeout","detail":"x"}}"#).unwrap();
    assert_eq!(
        emit_response(&refused),
        Output::Stderr(ErrorKind::Timeout)
    );
    let odd = parse(r#"{"error":{"kind":"nonsense","detail":"x"}}"#).unwrap();
    assert_eq!(emit_response(&odd), Output::Stderr(ErrorKind::Other));
    for x in [
        Exchange::SendFailed("pipe".to_string()),
        Exchange::LimitFailed("limit".to_string()),
        Exchange::ReadFailed("reset".to_string()),
    ] {
        assert!(exchange_on_stream(x).is_err());
    }
}

#[test]
fn listening_acknowledges_counts_and_ends() {
    assert_eq!(
        stream_events(true, 0, 2, r#"{"listening":true}"#),
        StreamStep::Ack
    );
    assert_eq!(
        stream_events(false, 0, 2, r#"{"event":1}"#),
        StreamStep::Event {
            received: 1,
            last: false
        }
    );
    assert_eq!(
        stream_events(false, 1, 2, r#"{"event":1}"#),
        StreamStep::Event {
            received: 2,
            last: true
        }
    );
    assert_eq!(
        stream_events(false, 7, 0, r#"{"event":1}"#),
        StreamStep::Event {
            received: 8,
            last: false
        }
    );
    assert_eq!(
        stream_events(true, 0, 2, r#"{"error":{"kind":"unreachable","detail":"x"}}"#),
        StreamStep::Refused(ErrorKind::Unreachable)
    );
    assert!(matches!(
        stream_events(false, 0, 0, "garbage"),
        StreamStep::Lost(_)
    ));
    assert_ne!(stream_closed(), stream_unreadable("reset"));
    assert_eq!(
        listen_unavailable("gone").kind,
        ErrorKind::MatdUnavailable
    );
}

#[test]
fn listening_times_out_only_without_events() {
    assert_eq!(
        finish_on_timeout(0).unwrap_err().detail,
        "no events received within --timeout-ms"
    );
    assert!(finish_on_timeout(1).is_ok());
    assert_eq!(listen_deadline(0, 5), None);
    assert_eq!(listen_deadline(10, 5), Some(15));
}

#[test]
fn reconnecting_backs_off_to_the_limit() {
    let mut backoff = 1_000;
    let mut waits = Vec::new();
    for _ in 0..7 {
        match run_listen_reconnecting(backoff, None) {
            Reconnect::Wait { ms, next } => {
                waits.push(ms);
                backoff = next;
            }
            Reconnect::Finish => panic!("no deadline"),
        }
    }
    assert_eq!(
        waits,
        vec![1_000, 2_000, 4_000, 8_000, 16_000, 30_000, 30_000]
    );
    assert_eq!(
        run_listen_reconnecting(4_000, Some(500)),
        Reconnect::Wait {
            ms: 500,
            next: 8_000
        }
    );
    assert_eq!(run_listen_reconnecting(4_000, Some(0)), Reconnect::Finish);
}

#[test]
fn pause_starts_anew_after_a_connection() {
    let mut s = Relisten::new(20_000, 100_000);
    let lost = |now_ms| ListenEvent::Lost { now_ms };
    assert_eq!(s.step(lost(100_000)), ListenAction::Wait { ms: 1_000 });
    assert_eq!(s.step(lost(101_000)), ListenAction::Wait { ms: 2_000 });
    assert_eq!(s.step(ListenEvent::Connected), ListenAction::Stream);
    assert_eq!(s.step(lost(110_000)), ListenAction::Wait { ms: 1_000 });
    assert_eq!(s.step(lost(119_500)), ListenAction::Wait { ms: 500 });
    assert_eq!(s.step(lost(120_000)), ListenAction::Finish);
    assert_eq!(s.deadline, Some(120_000));
    let mut open = Relisten::new(0, 5);
    for ms in [1_000, 2_000, 4_000, 8_000, 16_000, 30_000, 30_000] {
        assert_eq!(open.step(lost(u64::MAX)), ListenAction::Wait { ms });
    }
}

#[test]
fn numbers_keep_their_last_digit() {
    for t in ["1.5", "0.1", "-2.5e-7", "123456.78901234567", "5e-324", "1e300"] {
        let held: Value = serde_json::from_str(t).unwrap();
        let read = parse(t).unwrap();
        assert_eq!(render(&read), held.to_string());
        assert_eq!(render(&read.clone()), held.to_string());
        assert_eq!(read, Json::Float(held.as_number().unwrap().clone()));
    }
}

#[test]
fn reading_the_stream_waits_until_the_end() {
    assert_eq!(read_wait(None, 7), ReadWait::NoLimit);
    assert_eq!(read_wait(Some(100), 60), ReadWait::Limit { ms: 40 });
    assert_eq!(read_wait(Some(100), 99), ReadWait::Limit { ms: 1 });
    assert_eq!(read_wait(Some(100), 100), ReadWait::Finish);
    assert_eq!(read_wait(Some(100), 101), ReadWait::Finish);
    let far = listen_deadline(u64::MAX, u64::MAX);
    assert_eq!(
        read_wait(far, u64::MAX),
        ReadWait::Limit {
            ms: u128::from(u64::MAX)
        }
    );
    assert_eq!((TOUCHED_WAIT_MS, RELOAD_WAIT_MS), (300, 1_500));
}

#[test]
fn text_has_the_order_of_the_keys() {
    let a = Json::object()
        .with("b", Json::UInt(1))
        .with("a", Json::array(vec![Json::object().with("z", Json::Null).with("y", Json::Null)]));
    assert_eq!(render(&a), r#"{"a":[{"y":null,"z":null}],"b":1}"#);
    let b = Json::object()
        .with("a", Json::array(vec![Json::object().with("y", Json::Null).with("z", Json::Null)]))
        .with("b", Json::UInt(1));
    assert_eq!(render(&b), render(&a));
    let twice = Json::object()
        .with("k", Json::UInt(1))
        .with("k", Json::UInt(2));
    assert_eq!(render(&twice), r#"{"k":2}"#);
    let mixed = Json::object()
        .with("é", Json::Bool(true))
        .with("z", Json::Int(-3))
        .with("Z", Json::Int(3))
        .with("", Json::text("q\""));
    assert_eq!(render(&mixed), r#"{"":"q\"","Z":3,"z":-3,"é":true}"#);
}

#[test]
fn number_that_is_whole_is_read_back_as_whole() {
    let five = serde_json::Number::from(5u8);
    let text = render(&Json::Float(five));
    assert_eq!(text, "5");
    assert_eq!(parse(&text).unwrap(), Json::UInt(5));
    let half = parse("0.5").unwrap();
    assert_eq!(render(&half), "0.5");
}
