//! Operations on a node and on a group.
use mat::body::{
    color_success, color_temp_success, invoke_success, level_success, open_window_success,
    read_success, ResolvedColor,
};
use mat::conn::{
    Call, NocAnswer, Payload, Progress, Reply, CLUSTER_COLOR_CONTROL, CLUSTER_LEVEL_CONTROL,
    CLUSTER_ON_OFF, CMD_MOVE_TO_COLOR_TEMPERATURE, CMD_MOVE_TO_HUE_AND_SATURATION,
    CMD_MOVE_TO_LEVEL, CMD_ON_OFF_OFF, CMD_ON_OFF_ON, CMD_ON_OFF_TOGGLE,
};
use mat::error::{ErrorKind, MatError};
use mat::group::{BumpOutcome, GroupOutcome};
use mat::json::{parse, Json};
use mat::op::{
    group_op_sent, run_group_bump, run_group_op, run_node_op, run_node_op_next, Body, GroupOp,
    GroupOpKind, InvokeClass, NodeOp, NodeOpKind, SentEcho, WriteClass,
};
use mat::thread::ThreadAttributes;
use mat::tlv::{
    arg_value_to_tlv, encode_acl_entries_tlv, encode_command_fields, AclEntry, AclTarget, ArgValue,
    Elem, Tag,
};

fn node(kind: NodeOpKind) -> NodeOp {
    NodeOp { node_id: 5, kind }
}

fn attrs() -> ThreadAttributes {
    ThreadAttributes {
        channel: Some(0x0000),
        routing_role: Some(0x0001),
        network_name: Some(0x0002),
        pan_id: Some(0x0003),
        extended_pan_id: Some(0x0004),
        mesh_local_prefix: Some(0x0005),
        neighbor_table: Some(0x0007),
        route_table: Some(0x0008),
        partition_id: Some(0x0009),
        leader_router_id: Some(0x000D),
    }
}

/// Runs an operation against answers that are given by its calls.
fn run(
    op: &NodeOp,
    mut answer: impl FnMut(&Call) -> Reply,
) -> (Vec<Call>, Result<Body, MatError>) {
    let (mut phase, mut call) = run_node_op(op);
    let mut calls = Vec::new();
    loop {
        let reply = answer(&call);
        calls.push(call);
        match run_node_op_next(op, &attrs(), phase, reply) {
            Progress::Call(p, c) => {
                phase = p;
                call = c;
            }
            Progress::Done(b) => return (calls, Ok(b)),
            Progress::Fail(e) => return (calls, Err(e)),
        }
    }
}

fn object(b: Body) -> Json {
    match b {
        Body::Object(j) => j,
        other => panic!("{other:?}"),
    }
}

fn invoked(call: &Call) -> (u16, u32, u32, &Payload, bool) {
    match call {
        Call::Invoke {
            endpoint,
            cluster,
            command,
            fields,
            timed,
        } => (*endpoint, *cluster, *command, fields, *timed),
        other => panic!("{other:?}"),
    }
}

fn color() -> ResolvedColor {
    ResolvedColor {
        hue_raw: 233,
        sat_raw: 203,
        hue: 330,
        sat: 80,
        name: None,
        rgb: None,
    }
}

fn read_onoff_op() -> NodeOpKind {
    NodeOpKind::read(1, "onoff", "on-off", Some(0x0006), Some(0x0000)).unwrap()
}

fn on_level(timed: bool) -> WriteClass {
    WriteClass::Native {
        cluster: 0x0008,
        attribute: 0x0011,
        value: ArgValue::UInt(128),
        timed,
    }
}

fn invoke_class(cluster: u32, command: u32, fields: Vec<ArgValue>, timed: bool) -> InvokeClass {
    InvokeClass::Native {
        cluster,
        command,
        fields,
        timed,
    }
}

#[test]
fn node_and_group_shortcuts_share_wire() {
    let kinds = vec![
        NodeOpKind::Color {
            endpoint: 1,
            color: color(),
            transition: 3,
        },
        NodeOpKind::color_temp(1, Some(2700), None, 3),
        NodeOpKind::level(1, 50, 3),
    ];
    let group = vec![
        GroupOpKind::Color {
            color: color(),
            transition: 3,
        },
        GroupOpKind::color_temp(Some(2700), None, 3),
        GroupOpKind::level(50, 3),
    ];
    for (k, g) in kinds.into_iter().zip(group.iter()) {
        let (calls, r) = run(&node(k), |_| Reply::Unit(Ok(())));
        r.unwrap();
        let (cluster, command, fields) = g.wire();
        assert_eq!(invoked(&calls[0]), (1, cluster, command, &fields, false));
    }
}

#[test]
fn read_resolves_names_and_numeric_ids() {
    let k = NodeOpKind::read(1, "levelcontrol", "current-level", Some(8), Some(0)).unwrap();
    assert!(matches!(
        k,
        NodeOpKind::Read {
            endpoint: 1,
            cluster: 0x0008,
            attribute: 0x0000,
            ..
        }
    ));
    let k = NodeOpKind::read(1, "0x0008", "0", Some(8), Some(0)).unwrap();
    assert!(matches!(
        k,
        NodeOpKind::Read {
            cluster: 0x0008,
            attribute: 0,
            ..
        }
    ));
    let err = NodeOpKind::read(1, "nosuchcluster", "x", None, None).unwrap_err();
    assert_eq!(err.kind, ErrorKind::ParseError);
    assert!(
        err.detail.contains("numeric IDs are accepted"),
        "{}",
        err.detail
    );
}

#[test]
fn write_scalar_ok_bad_json_shape_rejected_unknown_unresolved() {
    let k =
        NodeOpKind::write(1, "levelcontrol", "on-level", "128", on_level(false), false).unwrap();
    assert!(matches!(
        k,
        NodeOpKind::Write {
            cluster: 0x0008,
            value: ArgValue::UInt(128),
            timed: false,
            ..
        }
    ));
    let reject = WriteClass::Reject("expected a JSON array".to_string());
    let err = NodeOpKind::write(1, "accesscontrol", "acl", "{}", reject, false).unwrap_err();
    assert_eq!(err.kind, ErrorKind::ParseError);
    assert!(
        err.detail.contains("expected a JSON array"),
        "{}",
        err.detail
    );
    let err = NodeOpKind::write(1, "nosuch", "x", "1", WriteClass::NotNative, false).unwrap_err();
    assert!(
        err.detail.contains("numeric IDs are accepted"),
        "{}",
        err.detail
    );
}

#[test]
fn invoke_scalar_args_ok_struct_args_rejected() {
    let args: Vec<String> = vec!["128".into(), "0".into(), "0".into(), "0".into()];
    let fields = vec![
        ArgValue::UInt(128),
        ArgValue::UInt(0),
        ArgValue::UInt(0),
        ArgValue::UInt(0),
    ];
    let k = NodeOpKind::invoke(
        1,
        "levelcontrol",
        "move-to-level",
        args,
        invoke_class(8, 0, fields, false),
        false,
    )
    .unwrap();
    assert!(matches!(
        k,
        NodeOpKind::Invoke {
            cluster: 0x0008,
            fields_tlv: Some(_),
            ..
        }
    ));
    let k = NodeOpKind::invoke(
        1,
        "onoff",
        "on",
        vec![],
        invoke_class(6, 1, vec![], false),
        false,
    )
    .unwrap();
    assert!(matches!(
        k,
        NodeOpKind::Invoke {
            cluster: CLUSTER_ON_OFF,
            command: CMD_ON_OFF_ON,
            fields_tlv: None,
            ..
        }
    ));
    let err = NodeOpKind::invoke(
        1,
        "groupkeymanagement",
        "key-set-write",
        vec!["{}".into()],
        InvokeClass::Reject("missing field".to_string()),
        false,
    )
    .unwrap_err();
    assert_eq!(err.kind, ErrorKind::ParseError);
}

#[test]
fn timed_override_forces_true_but_never_false() {
    let on = || invoke_class(6, 1, vec![], false);
    let k = NodeOpKind::invoke(1, "onoff", "on", vec![], on(), true).unwrap();
    assert!(matches!(k, NodeOpKind::Invoke { timed: true, .. }));
    let k = NodeOpKind::invoke(1, "6", "1", vec![], on(), true).unwrap();
    assert!(matches!(k, NodeOpKind::Invoke { timed: true, .. }));
    let k = NodeOpKind::invoke(
        0,
        "administratorcommissioning",
        "revoke-commissioning",
        vec![],
        invoke_class(0x003C, 2, vec![], true),
        false,
    )
    .unwrap();
    assert!(matches!(k, NodeOpKind::Invoke { timed: true, .. }));
    let k = NodeOpKind::write(1, "levelcontrol", "on-level", "128", on_level(false), true).unwrap();
    assert!(matches!(k, NodeOpKind::Write { timed: true, .. }));
    let k =
        NodeOpKind::write(1, "levelcontrol", "on-level", "128", on_level(false), false).unwrap();
    assert!(matches!(k, NodeOpKind::Write { timed: false, .. }));
}

#[test]
fn group_invoke_resolves_like_node_invoke() {
    let k = GroupOpKind::invoke("onoff", "toggle", vec![], invoke_class(6, 2, vec![], false))
        .unwrap();
    assert!(matches!(
        k,
        GroupOpKind::Invoke {
            cluster: CLUSTER_ON_OFF,
            command: CMD_ON_OFF_TOGGLE,
            fields_tlv: None,
            ..
        }
    ));
    let err = GroupOpKind::invoke(
        "onoff",
        "on",
        vec!["1".into()],
        InvokeClass::Reject("takes no arguments".to_string()),
    )
    .unwrap_err();
    assert_eq!(err.kind, ErrorKind::ParseError);
    let err = GroupOpKind::invoke("onoff", "foo", vec![], InvokeClass::NotNative).unwrap_err();
    assert!(
        err.detail.contains("numeric IDs are accepted"),
        "{}",
        err.detail
    );
}

#[test]
fn color_temp_and_level_constructors_convert_units() {
    assert_eq!(
        NodeOpKind::color_temp(1, Some(2700), None, 0),
        NodeOpKind::ColorTemp {
            endpoint: 1,
            kelvin: 2700,
            mireds: 370,
            transition: 0
        }
    );
    assert_eq!(
        NodeOpKind::level(1, 50, 0),
        NodeOpKind::Level {
            endpoint: 1,
            percent: 50,
            level: 127,
            transition: 0
        }
    );
    assert_eq!(
        GroupOpKind::color_temp(None, Some(370), 5),
        GroupOpKind::ColorTemp {
            kelvin: 2703,
            mireds: 370,
            transition: 5
        }
    );
    assert_eq!(
        GroupOpKind::level(100, 0),
        GroupOpKind::Level {
            percent: 100,
            level: 254,
            transition: 0
        }
    );
}

#[test]
fn budget_applies_only_to_single_node_hotpath_ops() {
    assert!(NodeOpKind::On { endpoint: 1 }.budget_applies());
    assert!(NodeOpKind::Off { endpoint: 1 }.budget_applies());
    assert!(NodeOpKind::level(1, 1, 0).budget_applies());
    assert!(NodeOpKind::color_temp(1, Some(2700), None, 0).budget_applies());
    assert!(read_onoff_op().budget_applies());
    let class = WriteClass::Native {
        cluster: 6,
        attribute: 0,
        value: ArgValue::Bool(true),
        timed: false,
    };
    assert!(NodeOpKind::write(1, "onoff", "on-off", "true", class, false)
        .unwrap()
        .budget_applies());
    assert!(NodeOpKind::invoke(
        1,
        "onoff",
        "on",
        vec![],
        invoke_class(6, 1, vec![], false),
        false
    )
    .unwrap()
    .budget_applies());
    assert!(NodeOpKind::Describe.budget_applies());
    assert!(!NodeOpKind::DiagThread { endpoint: 0 }.budget_applies());
    assert!(!NodeOpKind::OpenWindow {
        timeout: 180,
        iteration: 1000,
        discriminator: 1
    }
    .budget_applies());
}

#[test]
fn names_are_snake_case_wire_tags() {
    assert_eq!(NodeOpKind::On { endpoint: 1 }.name(), "on");
    assert_eq!(
        NodeOpKind::color_temp(1, Some(2700), None, 0).name(),
        "color_temp"
    );
    assert_eq!(
        NodeOpKind::OpenWindow {
            timeout: 1,
            iteration: 1,
            discriminator: 1
        }
        .name(),
        "open_window"
    );
    assert_eq!(GroupOpKind::level(1, 0).name(), "group_level");
}

#[test]
fn on_off_invoke_onoff_and_build_invoke_body() {
    let (calls, b) = run(&node(NodeOpKind::On { endpoint: 1 }), |_| {
        Reply::Unit(Ok(()))
    });
    assert_eq!(object(b.unwrap()), invoke_success(5, 1, "onoff", "on"));
    assert_eq!(
        invoked(&calls[0]),
        (1, CLUSTER_ON_OFF, CMD_ON_OFF_ON, &Payload::Empty, false)
    );
    let (calls, b) = run(&node(NodeOpKind::Off { endpoint: 1 }), |_| {
        Reply::Unit(Ok(()))
    });
    assert_eq!(object(b.unwrap()), invoke_success(5, 1, "onoff", "off"));
    assert_eq!(
        invoked(&calls[0]),
        (1, CLUSTER_ON_OFF, CMD_ON_OFF_OFF, &Payload::Empty, false)
    );
}

#[test]
fn color_color_temp_level_send_expected_commands() {
    let (calls, b) = run(
        &node(NodeOpKind::Color {
            endpoint: 1,
            color: color(),
            transition: 30,
        }),
        |_| Reply::Unit(Ok(())),
    );
    assert_eq!(object(b.unwrap()), color_success(5, 1, &color(), 30));
    let sent = invoked(&calls[0]);
    assert_eq!(
        (sent.1, sent.2),
        (CLUSTER_COLOR_CONTROL, CMD_MOVE_TO_HUE_AND_SATURATION)
    );
    assert_eq!(
        sent.3,
        &Payload::MoveToHueAndSaturation {
            hue: 233,
            saturation: 203,
            transition: 30
        }
    );
    let (calls, b) = run(&node(NodeOpKind::color_temp(1, Some(2700), None, 0)), |_| {
        Reply::Unit(Ok(()))
    });
    assert_eq!(object(b.unwrap()), color_temp_success(5, 1, 2700, 370, 0));
    let sent = invoked(&calls[0]);
    assert_eq!(
        (sent.1, sent.2),
        (CLUSTER_COLOR_CONTROL, CMD_MOVE_TO_COLOR_TEMPERATURE)
    );
    let (calls, b) = run(&node(NodeOpKind::level(1, 50, 0)), |_| Reply::Unit(Ok(())));
    assert_eq!(object(b.unwrap()), level_success(5, 1, 50, 127, 0));
    let sent = invoked(&calls[0]);
    assert_eq!(
        (sent.1, sent.2),
        (CLUSTER_LEVEL_CONTROL, CMD_MOVE_TO_LEVEL)
    );
}

#[test]
fn read_onoff_uses_bool_fast_path_and_generic_read_uses_json() {
    let (calls, b) = run(&node(read_onoff_op()), |_| Reply::OnOff(Ok(true)));
    assert_eq!(calls, vec![Call::ReadOnOff { endpoint: 1 }]);
    assert_eq!(
        object(b.unwrap()),
        read_success(5, 1, "onoff", "on-off", Json::Bool(true))
    );
    let k = NodeOpKind::read(1, "levelcontrol", "current-level", Some(8), Some(0)).unwrap();
    let (calls, b) = run(&node(k), |_| Reply::Value(Ok(Json::UInt(200))));
    assert_eq!(
        calls,
        vec![Call::ReadJson {
            endpoint: 1,
            cluster: 8,
            attribute: 0
        }]
    );
    let body = object(b.unwrap());
    assert_eq!(body.get("value"), Some(&Json::UInt(200)));
    assert_eq!(body.get("cluster"), Some(&Json::text("levelcontrol")));
    assert_eq!(body.get("attribute"), Some(&Json::text("current-level")));
}

#[test]
fn write_encodes_scalar_tlv_and_echoes_normalized_value() {
    let k =
        NodeOpKind::write(1, "levelcontrol", "on-level", "128", on_level(false), false).unwrap();
    let (calls, b) = run(&node(k), |_| Reply::Unit(Ok(())));
    assert_eq!(
        b.unwrap(),
        Body::Write {
            node_id: 5,
            endpoint: 1,
            cluster: "levelcontrol".to_string(),
            attribute: "on-level".to_string(),
            value: "128".to_string()
        }
    );
    assert_eq!(
        calls,
        vec![Call::WriteTlv {
            endpoint: 1,
            cluster: 0x0008,
            attribute: 0x0011,
            data: Payload::Elems(arg_value_to_tlv(&ArgValue::UInt(128))),
            timed: false
        }]
    );
}

#[test]
fn invoke_generic_forwards_ids_and_builds_body() {
    let args: Vec<String> = vec!["128".into(), "0".into(), "0".into(), "0".into()];
    let fields = vec![
        ArgValue::UInt(128),
        ArgValue::UInt(0),
        ArgValue::UInt(0),
        ArgValue::UInt(0),
    ];
    let k = NodeOpKind::invoke(
        1,
        "levelcontrol",
        "move-to-level",
        args,
        invoke_class(8, 0, fields, false),
        false,
    )
    .unwrap();
    let (calls, b) = run(&node(k), |_| Reply::Unit(Ok(())));
    assert_eq!(
        object(b.unwrap()),
        invoke_success(5, 1, "levelcontrol", "move-to-level")
    );
    let sent = invoked(&calls[0]);
    assert_eq!(
        (sent.1, sent.2),
        (CLUSTER_LEVEL_CONTROL, CMD_MOVE_TO_LEVEL)
    );
}

#[test]
fn describe_diag_thread_and_open_window_build_bodies() {
    let (_, b) = run(&node(NodeOpKind::Describe), |c| match c {
        Call::ReadJson { attribute: 3, .. } => Reply::Value(Ok(Json::array(vec![]))),
        _ => Reply::Value(Ok(Json::array(vec![Json::UInt(29)]))),
    });
    match b.unwrap() {
        Body::Describe { node_id, endpoints } => {
            assert_eq!(node_id, 5);
            assert_eq!(endpoints.items.len(), 1);
        }
        other => panic!("{other:?}"),
    }
    let table = parse("[{\"5\": 200}, {\"5\": 100}]").unwrap();
    let (_, b) = run(&node(NodeOpKind::DiagThread { endpoint: 0 }), |_| {
        Reply::Rows(Ok(vec![(0x0007, table.clone())]))
    });
    let body = object(b.unwrap());
    assert_eq!(body.get("endpoint"), Some(&Json::UInt(0)));
    assert!(matches!(body.get("thread"), Some(Json::Object(_))));
    let (_, b) = run(
        &node(NodeOpKind::OpenWindow {
            timeout: 180,
            iteration: 1000,
            discriminator: 3840,
        }),
        |_| {
            Reply::Codes(Ok((
                "34970112332".to_string(),
                "MT:Y.K9042C00KA0648G00".to_string(),
            )))
        },
    );
    match b.unwrap() {
        Body::OpenWindow {
            node_id,
            manual_code,
            qr_payload,
            timeout,
        } => {
            assert_eq!((node_id, timeout), (5, 180));
            let body = open_window_success(5, &manual_code, &qr_payload, "2026-01-01T00:03:00Z");
            assert_eq!(body.get("manual_code"), Some(&Json::text("34970112332")));
            assert!(body
                .get("qr_payload")
                .unwrap()
                .as_str()
                .unwrap()
                .starts_with("MT:"));
            assert!(matches!(body.get("expires_at"), Some(Json::Str(_))));
        }
        other => panic!("{other:?}"),
    }
}

#[test]
fn remove_fabric_reads_current_index_then_invokes_and_reports_it() {
    let (calls, b) = run(&node(NodeOpKind::RemoveFabric), |c| match c {
        Call::ReadJson { .. } => Reply::Value(Ok(Json::UInt(2))),
        _ => Reply::Noc(Ok(NocAnswer::Status(0))),
    });
    assert_eq!(
        object(b.unwrap()),
        Json::object()
            .with("removed", Json::Bool(true))
            .with("fabric_index", Json::UInt(2))
    );
    assert_eq!(
        calls,
        vec![
            Call::ReadJson {
                endpoint: 0,
                cluster: 0x003E,
                attribute: 0x0005
            },
            Call::InvokeForNoc {
                endpoint: 0,
                cluster: 0x003E,
                command: 0x0A,
                fields: Payload::RemoveFabric { fabric_index: 2 },
                timed: false
            }
        ]
    );
}

#[test]
fn remove_fabric_non_zero_status_is_device_rejected() {
    let (_, b) = run(&node(NodeOpKind::RemoveFabric), |c| match c {
        Call::ReadJson { .. } => Reply::Value(Ok(Json::UInt(2))),
        _ => Reply::Noc(Ok(NocAnswer::Status(0x0B))),
    });
    let err = b.unwrap_err();
    assert_eq!(err.kind, ErrorKind::DeviceRejected);
    assert!(err.detail.contains("0x0b"), "{}", err.detail);
}

#[test]
fn remove_fabric_name_and_budget() {
    assert_eq!(NodeOpKind::RemoveFabric.name(), "remove_fabric");
    assert!(NodeOpKind::RemoveFabric.budget_applies());
}

#[test]
fn remove_fabric_refuses_an_unreadable_index() {
    let (calls, b) = run(&node(NodeOpKind::RemoveFabric), |_| {
        Reply::Value(Ok(Json::text("two")))
    });
    assert_eq!(b.unwrap_err().kind, ErrorKind::ParseError);
    assert_eq!(calls.len(), 1);
}

#[test]
fn conn_error_propagates_unchanged() {
    let read = NodeOpKind::read(1, "onoff", "on-off", Some(0x0006), Some(0x0000)).unwrap();
    let (_, b) = run(&node(read), |_| {
        Reply::OnOff(Err(MatError::new(
            ErrorKind::Timeout,
            "no reply".to_string(),
        )))
    });
    let err = b.unwrap_err();
    assert_eq!(err.kind, ErrorKind::Timeout);
    assert_eq!(err.detail, "no reply");
}

fn group(kind: GroupOpKind) -> GroupOp {
    GroupOp {
        group_id: 10,
        endpoint: 1,
        kind,
    }
}

#[test]
fn group_wire_and_sent_body_for_shortcuts() {
    let ct = group(GroupOpKind::color_temp(Some(2702), None, 0));
    assert_eq!(
        ct.kind.wire(),
        (
            CLUSTER_COLOR_CONTROL,
            CMD_MOVE_TO_COLOR_TEMPERATURE,
            Payload::MoveToColorTemperature {
                mireds: 370,
                transition: 0
            }
        )
    );
    let sent = ct.sent_body(vec!["eth0".into()]);
    assert_eq!((sent.group_id, sent.endpoint), (10, 1));
    assert_eq!(sent.egress, vec!["eth0".to_string()]);
    assert_eq!(
        sent.echo,
        SentEcho::ColorTemp {
            kelvin: 2702,
            mireds: 370,
            transition: 0
        }
    );

    let lv = group(GroupOpKind::level(100, 0));
    assert_eq!(
        lv.kind.wire(),
        (
            CLUSTER_LEVEL_CONTROL,
            CMD_MOVE_TO_LEVEL,
            Payload::MoveToLevel {
                level: 254,
                transition: 0
            }
        )
    );

    let color = ResolvedColor {
        hue_raw: 180,
        sat_raw: 200,
        hue: 254,
        sat: 78,
        name: None,
        rgb: None,
    };
    let c = group(GroupOpKind::Color {
        color: color.clone(),
        transition: 0,
    });
    assert_eq!(
        c.kind.wire(),
        (
            CLUSTER_COLOR_CONTROL,
            CMD_MOVE_TO_HUE_AND_SATURATION,
            Payload::MoveToHueAndSaturation {
                hue: 180,
                saturation: 200,
                transition: 0
            }
        )
    );
    assert_eq!(
        c.sent_body(vec![]).echo,
        SentEcho::Color {
            color,
            transition: 0
        }
    );

    let inv = group(
        GroupOpKind::invoke("onoff", "on", vec![], invoke_class(6, 1, vec![], false)).unwrap(),
    );
    assert_eq!(
        inv.kind.wire(),
        (CLUSTER_ON_OFF, CMD_ON_OFF_ON, Payload::Empty)
    );
    assert_eq!(
        inv.sent_body(vec![]).echo,
        SentEcho::Invoke {
            cluster: "onoff".to_string(),
            command: "on".to_string()
        }
    );
}

#[test]
fn group_op_hard_errors_when_engine_group_ctx_unconfigured() {
    let op = group(
        GroupOpKind::invoke("onoff", "toggle", vec![], invoke_class(6, 2, vec![], false)).unwrap(),
    );
    let err = run_group_op(&op, false).unwrap_err();
    assert_eq!(err.kind, ErrorKind::Other);
    let err = run_group_bump(None).unwrap_err();
    assert_eq!(err.kind, ErrorKind::Other);
    assert_eq!(
        run_group_op(&op, true).unwrap(),
        (CLUSTER_ON_OFF, CMD_ON_OFF_TOGGLE, Payload::Empty)
    );
}

#[test]
fn group_bump_advances_counter_via_engine() {
    assert_eq!(
        run_group_bump(Some(BumpOutcome::Bumped { from: 1, to: 1001 })).unwrap(),
        (1, 1001)
    );
    let e = run_group_bump(Some(BumpOutcome::Unavailable("locked".to_string()))).unwrap_err();
    assert_eq!(e.kind, ErrorKind::StoreParse);
}

#[test]
fn unavailable_group_is_a_store_error() {
    let op = group(GroupOpKind::level(1, 0));
    let e = group_op_sent(
        &op,
        Ok(GroupOutcome::Unavailable("no keys".to_string())),
    )
    .unwrap_err();
    assert_eq!(e.kind, ErrorKind::StoreParse);
    assert!(e.detail.contains("no keys"), "{}", e.detail);
    let sent = group_op_sent(
        &op,
        Ok(GroupOutcome::Sent {
            egress: vec!["eth0".to_string()],
        }),
    )
    .unwrap();
    assert_eq!(sent.egress, vec!["eth0".to_string()]);
}

#[test]
fn read_cluster_maps_rows_to_attributes_object() {
    let k = NodeOpKind::read_cluster(1, "onoff", Some(6)).unwrap();
    assert_eq!(k.name(), "read_cluster");
    let (calls, b) = run(&node(k), |_| {
        Reply::Rows(Ok(vec![
            (0x0000, Json::Bool(true)),
            (0x4000, Json::Bool(false)),
        ]))
    });
    assert_eq!(
        calls,
        vec![Call::ReadCluster {
            endpoint: 1,
            cluster: 6
        }]
    );
    match b.unwrap() {
        Body::ReadCluster { cluster, rows, .. } => {
            assert_eq!(cluster, "onoff");
            assert_eq!(
                rows,
                vec![(0x0000, Json::Bool(true)), (0x4000, Json::Bool(false))]
            );
        }
        other => panic!("{other:?}"),
    }
}

#[test]
fn read_cluster_unknown_name_is_unresolved_op() {
    let err = NodeOpKind::read_cluster(1, "nosuchcluster", None).unwrap_err();
    assert_eq!(err.kind, ErrorKind::ParseError);
}

#[test]
fn arg_value_conversions() {
    assert_eq!(
        arg_value_to_tlv(&ArgValue::Str("x".into())),
        vec![Elem::Utf8(Tag::Anonymous, "x".to_string())]
    );
    assert_eq!(
        arg_value_to_tlv(&ArgValue::F64(0.5f64.to_bits())),
        vec![Elem::F64(Tag::Anonymous, 0.5f64.to_bits())]
    );
    assert_eq!(
        arg_value_to_tlv(&ArgValue::F32(1.5f32.to_bits())),
        vec![Elem::F32(Tag::Anonymous, 1.5f32.to_bits())]
    );
    assert_eq!(
        arg_value_to_tlv(&ArgValue::F64(1.5f64.to_bits())),
        vec![Elem::F64(Tag::Anonymous, 1.5f64.to_bits())]
    );
}

fn field(tag: u8, v: ArgValue) -> (u8, ArgValue) {
    (tag, v)
}

#[test]
fn put_value_encodes_list_of_struct_as_tlv_array_and_roundtrips_to_read_json() {
    let v = ArgValue::List(vec![ArgValue::Struct(vec![
        field(1, ArgValue::UInt(5)),
        field(2, ArgValue::UInt(2)),
        field(3, ArgValue::List(vec![ArgValue::UInt(112233)])),
        field(4, ArgValue::Null),
        field(254, ArgValue::UInt(1)),
    ])]);
    assert_eq!(
        arg_value_to_tlv(&v),
        vec![
            Elem::ArrayStart(Tag::Anonymous),
            Elem::StructStart(Tag::Anonymous),
            Elem::UInt(Tag::Context(1), 5),
            Elem::UInt(Tag::Context(2), 2),
            Elem::ArrayStart(Tag::Context(3)),
            Elem::UInt(Tag::Anonymous, 112233),
            Elem::End,
            Elem::Null(Tag::Context(4)),
            Elem::UInt(Tag::Context(254), 1),
            Elem::End,
            Elem::End,
        ]
    );
}

#[test]
fn generic_acl_encoding_matches_dedicated_encoder() {
    let entries = vec![
        AclEntry {
            privilege: 5,
            auth_mode: 2,
            subjects: vec![112233, 0x1122],
            targets: None,
            fabric_index: 1,
        },
        AclEntry {
            privilege: 3,
            auth_mode: 3,
            subjects: vec![0xFFFF_FFFF_FFFF_0001],
            targets: Some(vec![AclTarget {
                cluster: Some(6),
                endpoint: None,
                device_type: None,
            }]),
            fabric_index: 1,
        },
    ];
    let generic = ArgValue::List(vec![
        ArgValue::Struct(vec![
            field(1, ArgValue::UInt(5)),
            field(2, ArgValue::UInt(2)),
            field(
                3,
                ArgValue::List(vec![ArgValue::UInt(112233), ArgValue::UInt(4386)]),
            ),
            field(4, ArgValue::Null),
            field(254, ArgValue::UInt(1)),
        ]),
        ArgValue::Struct(vec![
            field(1, ArgValue::UInt(3)),
            field(2, ArgValue::UInt(3)),
            field(
                3,
                ArgValue::List(vec![ArgValue::UInt(0xFFFF_FFFF_FFFF_0001)]),
            ),
            field(
                4,
                ArgValue::List(vec![ArgValue::Struct(vec![
                    field(0, ArgValue::UInt(6)),
                    field(1, ArgValue::Null),
                    field(2, ArgValue::Null),
                ])]),
            ),
            field(254, ArgValue::UInt(1)),
        ]),
    ]);
    assert_eq!(arg_value_to_tlv(&generic), encode_acl_entries_tlv(&entries));
}

#[test]
fn encode_command_fields_uses_positional_context_tags() {
    assert_eq!(
        encode_command_fields(&vec![ArgValue::UInt(128), ArgValue::UInt(0)]),
        vec![
            Elem::StructStart(Tag::Anonymous),
            Elem::UInt(Tag::Context(0), 128),
            Elem::UInt(Tag::Context(1), 0),
            Elem::End,
        ]
    );
    assert_eq!(
        encode_command_fields(&vec![]),
        vec![Elem::StructStart(Tag::Anonymous), Elem::End]
    );
}

#[test]
fn failed_command_is_reported_as_it_came() {
    let (_, b) = run(&node(NodeOpKind::On { endpoint: 1 }), |_| {
        Reply::Unit(Err(MatError::new(
            ErrorKind::Timeout,
            "no reply".to_string(),
        )))
    });
    let err = b.unwrap_err();
    assert_eq!(err.kind, ErrorKind::Timeout);
    assert_eq!(err.detail, "no reply");
}
