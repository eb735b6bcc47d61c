//! Commands: their aliases and the operations they become.
use mat::body::ResolvedColor;
use mat::cli::{
    validate_transport, ColorSpecArgs, Command, DiagCommand, EndpointRef, FabricAction,
    GroupCommand, GroupRef, NodeRef,
};
use mat::commission::Transport;
use mat::conn::{Payload, CLUSTER_ON_OFF, CMD_ON_OFF_TOGGLE};
use mat::device_op::{classify, resolve_discriminator, DeviceOp, Dispatch, Lookup};
use mat::engine::ThreadIfaceChoice;
use mat::error::{ErrorKind, MatError};
use mat::json::Json;
use mat::matd_client::Route;
use mat::matd_stream::{dispatch_listen, listen_params};
use mat::op::{GroupOp, GroupOpKind, InvokeClass, NodeOp, NodeOpKind, ProvisionParams, WriteClass};
use mat::program::{
    dedicated, early, exit_of, iface_choice, listen_sockets, thread_choice, unresolved_exit, way,
    Dedicated, Early, Exit, Way,
};
use mat::resolve::{resolve_command, AliasBook};
use mat::tlv::ArgValue;

/// A lookup that knows nothing.
fn nothing() -> Lookup {
    Lookup {
        cluster: None,
        attribute: None,
        write: WriteClass::NotNative,
        invoke: InvokeClass::NotNative,
        color: Err(MatError::parse_error("no color".to_string())),
    }
}

fn node_op(c: &Command, l: Lookup) -> NodeOp {
    match classify(c, l).unwrap() {
        Dispatch::Device(DeviceOp::Node(n)) => n,
        other => panic!("expected Node, got {other:?}"),
    }
}

fn group_op(c: &Command, l: Lookup) -> GroupOp {
    match classify(c, l).unwrap() {
        Dispatch::Device(DeviceOp::Group(g)) => g,
        other => panic!("expected Group, got {other:?}"),
    }
}

fn read(cluster: &str, attribute: &str) -> Command {
    Command::Read {
        node_id: NodeRef::Id(5),
        endpoint: EndpointRef::Id(1),
        cluster: cluster.into(),
        attribute: attribute.into(),
    }
}

fn ids(cluster: u32, attribute: u32) -> Lookup {
    Lookup {
        cluster: Some(cluster),
        attribute: Some(attribute),
        ..nothing()
    }
}

fn invokes(cluster: u32, command: u32, fields: Vec<ArgValue>) -> Lookup {
    Lookup {
        invoke: InvokeClass::Native {
            cluster,
            command,
            fields,
            timed: false,
        },
        ..nothing()
    }
}

#[test]
fn on_off_read_shapes() {
    let on = Command::On {
        node_id: NodeRef::Id(5),
        endpoint: EndpointRef::Id(1),
    };
    assert_eq!(
        node_op(&on, nothing()),
        NodeOp {
            node_id: 5,
            kind: NodeOpKind::On { endpoint: 1 }
        }
    );
    let off = Command::Off {
        node_id: NodeRef::Id(5),
        endpoint: EndpointRef::Id(1),
    };
    assert_eq!(
        node_op(&off, nothing()).kind,
        NodeOpKind::Off { endpoint: 1 }
    );
    assert!(matches!(
        node_op(&read("levelcontrol", "current-level"), ids(8, 0)).kind,
        NodeOpKind::Read {
            cluster: 0x0008,
            attribute: 0,
            ..
        }
    ));
    assert!(matches!(
        node_op(&read("0x0008", "0"), ids(8, 0)).kind,
        NodeOpKind::Read { .. }
    ));
    let err = classify(&read("nosuchcluster", "x"), nothing()).unwrap_err();
    assert_eq!(err.kind, ErrorKind::ParseError);
    assert!(
        err.detail.contains("numeric IDs are accepted"),
        "{}",
        err.detail
    );
}

#[test]
fn unresolved_alias_is_internal_error() {
    let on = Command::On {
        node_id: NodeRef::Alias("kitchen".into()),
        endpoint: EndpointRef::Id(1),
    };
    let err = classify(&on, nothing()).unwrap_err();
    assert_eq!(err.kind, ErrorKind::Other);
    assert!(err.detail.contains("kitchen"), "{}", err.detail);
}

fn red() -> ResolvedColor {
    ResolvedColor {
        hue_raw: 0,
        sat_raw: 254,
        hue: 0,
        sat: 100,
        name: Some("red".into()),
        rgb: Some("#ff0000".into()),
    }
}

fn spec(name: Option<&str>, rgb: Option<&str>) -> ColorSpecArgs {
    ColorSpecArgs {
        name: name.map(|s| s.to_string()),
        rgb: rgb.map(|s| s.to_string()),
        hue: None,
        sat: None,
    }
}

#[test]
fn color_temp_level_color_convert_units() {
    let ct = Command::ColorTemp {
        node_id: NodeRef::Id(5),
        endpoint: EndpointRef::Id(1),
        kelvin: Some(2700),
        mireds: None,
        transition: 0,
    };
    assert_eq!(
        node_op(&ct, nothing()).kind,
        NodeOpKind::ColorTemp {
            endpoint: 1,
            kelvin: 2700,
            mireds: 370,
            transition: 0
        }
    );
    let lv = Command::Level {
        node_id: NodeRef::Id(5),
        endpoint: EndpointRef::Id(1),
        percent: 50,
        transition: 3,
    };
    assert_eq!(
        node_op(&lv, nothing()).kind,
        NodeOpKind::Level {
            endpoint: 1,
            percent: 50,
            level: 127,
            transition: 3
        }
    );
    let c = Command::Color {
        node_id: NodeRef::Id(5),
        endpoint: EndpointRef::Id(1),
        spec: spec(Some("red"), Some("#ff0000")),
        transition: 0,
    };
    let known = Lookup {
        color: Ok(red()),
        ..nothing()
    };
    match node_op(&c, known).kind {
        NodeOpKind::Color { color, .. } => {
            assert_eq!(
                (color.hue_raw, color.sat_raw, color.hue, color.sat),
                (0, 254, 0, 100)
            );
            assert_eq!(color.name.as_deref(), Some("red"));
        }
        other => panic!("expected Color, got {other:?}"),
    }
    let bad = Command::Color {
        node_id: NodeRef::Id(5),
        endpoint: EndpointRef::Id(1),
        spec: spec(None, Some("zzz")),
        transition: 0,
    };
    assert!(classify(&bad, nothing()).is_err());
}

#[test]
fn write_and_invoke_reject_unencodable_values() {
    let write = |cluster: &str, attribute: &str, value: &str| Command::Write {
        node_id: NodeRef::Id(5),
        endpoint: EndpointRef::Id(1),
        cluster: cluster.into(),
        attribute: attribute.into(),
        value: value.into(),
    };
    let scalar = Lookup {
        write: WriteClass::Native {
            cluster: 8,
            attribute: 0x11,
            value: ArgValue::UInt(128),
            timed: false,
        },
        ..nothing()
    };
    assert!(matches!(
        node_op(&write("levelcontrol", "on-level", "128"), scalar).kind,
        NodeOpKind::Write { .. }
    ));
    let refused = Lookup {
        write: WriteClass::Reject("list values are not supported".to_string()),
        ..nothing()
    };
    let err = classify(&write("accesscontrol", "acl", "[]"), refused).unwrap_err();
    assert_eq!(err.kind, ErrorKind::ParseError);
    assert!(err.detail.contains("list"), "{}", err.detail);
    let invoke = |cluster: &str, command: &str, args: Vec<String>| Command::Invoke {
        node_id: NodeRef::Id(5),
        endpoint: EndpointRef::Id(1),
        cluster: cluster.into(),
        command: command.into(),
        args,
    };
    let inv = invoke(
        "levelcontrol",
        "move-to-level",
        vec!["128".into(), "0".into(), "0".into(), "0".into()],
    );
    assert!(matches!(
        node_op(&inv, invokes(8, 0, vec![ArgValue::UInt(128)])).kind,
        NodeOpKind::Invoke {
            fields_tlv: Some(_),
            ..
        }
    ));
    let ks = invoke("groupkeymanagement", "key-set-write", vec!["{}".into()]);
    let refused = Lookup {
        invoke: InvokeClass::Reject("struct argument".to_string()),
        ..nothing()
    };
    assert_eq!(
        classify(&ks, refused).unwrap_err().kind,
        ErrorKind::ParseError
    );
}

#[test]
fn describe_diag_thread_open_window_and_dedicated() {
    let d = Command::Describe {
        node_id: NodeRef::Id(5),
    };
    assert_eq!(
        node_op(&d, nothing()),
        NodeOp {
            node_id: 5,
            kind: NodeOpKind::Describe
        }
    );
    let t = Command::Diag {
        action: DiagCommand::Thread {
            node_id: NodeRef::Id(5),
            endpoint: EndpointRef::Id(0),
        },
    };
    assert_eq!(
        node_op(&t, nothing()).kind,
        NodeOpKind::DiagThread { endpoint: 0 }
    );
    let open = |id: u64, discriminator: Option<u16>| Command::OpenWindow {
        node_id: NodeRef::Id(id),
        timeout: 180,
        iteration: 1000,
        discriminator,
    };
    assert_eq!(
        node_op(&open(5, Some(3840)), nothing()).kind,
        NodeOpKind::OpenWindow {
            timeout: 180,
            iteration: 1000,
            discriminator: 3840
        }
    );
    assert!(matches!(
        node_op(&open(4101, None), nothing()).kind,
        NodeOpKind::OpenWindow {
            discriminator: 5,
            ..
        }
    ));
    assert_eq!(resolve_discriminator(4101, None), 5);

    assert_eq!(
        classify(&Command::Discover { probe: false }, nothing()).unwrap(),
        Dispatch::Dedicated("discover")
    );
    let dn = Command::Diag {
        action: DiagCommand::Node {
            node_id: NodeRef::Id(5),
            endpoint: EndpointRef::Id(0),
            deep: false,
        },
    };
    assert_eq!(
        classify(&dn, nothing()).unwrap(),
        Dispatch::Dedicated("diag")
    );
    let dm = Command::Diag {
        action: DiagCommand::Mesh { nodes: vec![] },
    };
    assert_eq!(
        classify(&dm, nothing()).unwrap(),
        Dispatch::Dedicated("diag")
    );
    let init = Command::Fabric {
        action: FabricAction::Init {
            fabric_id: 1,
            admin_node_id: 2,
        },
    };
    assert!(matches!(
        classify(&init, nothing()).unwrap(),
        Dispatch::Dedicated(_)
    ));
}

fn grouped(action: GroupCommand) -> Command {
    Command::Group { action }
}

fn group_invoke(cluster: &str, command: &str, args: Vec<String>) -> Command {
    grouped(GroupCommand::Invoke {
        group_id: GroupRef::Id(10),
        cluster: cluster.into(),
        command: command.into(),
        args,
        endpoint: 1,
    })
}

#[test]
fn group_ops_provision_grant_bump() {
    let g = group_op(
        &group_invoke("onoff", "toggle", vec![]),
        invokes(CLUSTER_ON_OFF, CMD_ON_OFF_TOGGLE, vec![]),
    );
    assert_eq!((g.group_id, g.endpoint), (10, 1));
    assert_eq!(
        g.kind.wire(),
        (CLUSTER_ON_OFF, CMD_ON_OFF_TOGGLE, Payload::Empty)
    );
    let generic = group_op(
        &group_invoke("levelcontrol", "move-to-level", vec!["128".into()]),
        invokes(8, 0, vec![ArgValue::UInt(128)]),
    );
    assert!(matches!(
        generic.kind,
        GroupOpKind::Invoke {
            fields_tlv: Some(_),
            ..
        }
    ));
    let ct = grouped(GroupCommand::ColorTemp {
        group_id: GroupRef::Id(10),
        kelvin: Some(2700),
        mireds: None,
        transition: 0,
        endpoint: 1,
    });
    assert_eq!(
        group_op(&ct, nothing()).kind,
        GroupOpKind::ColorTemp {
            kelvin: 2700,
            mireds: 370,
            transition: 0
        }
    );
    let lv = grouped(GroupCommand::Level {
        group_id: GroupRef::Id(10),
        percent: 50,
        transition: 0,
        endpoint: 1,
    });
    assert_eq!(
        group_op(&lv, nothing()).kind,
        GroupOpKind::Level {
            percent: 50,
            level: 127,
            transition: 0
        }
    );
    let color = grouped(GroupCommand::Color {
        group_id: GroupRef::Id(10),
        spec: spec(None, Some("#ff0000")),
        transition: 0,
        endpoint: 1,
    });
    let known = Lookup {
        color: Ok(red()),
        ..nothing()
    };
    assert!(matches!(
        group_op(&color, known).kind,
        GroupOpKind::Color { .. }
    ));
    let grant = grouped(GroupCommand::Grant {
        group_id: GroupRef::Id(10),
        node_ids: vec![NodeRef::Id(5), NodeRef::Id(6)],
    });
    assert_eq!(
        classify(&grant, nothing()).unwrap(),
        Dispatch::Device(DeviceOp::GroupGrant {
            group_id: 10,
            node_ids: vec![5, 6]
        })
    );
    let provision = grouped(GroupCommand::Provision {
        group_id: GroupRef::Id(10),
        node_ids: vec![NodeRef::Id(5)],
        keyset_id: 60,
        name: None,
        endpoint: 1,
        epoch_key: None,
        rebind: false,
    });
    assert_eq!(
        classify(&provision, nothing()).unwrap(),
        Dispatch::Device(DeviceOp::GroupProvision(ProvisionParams {
            group_id: 10,
            node_ids: vec![5],
            keyset_id: 60,
            name: "grp10".into(),
            endpoint: 1,
            epoch_key: None,
            rebind: false,
        }))
    );
    assert_eq!(
        classify(&grouped(GroupCommand::Bump), nothing()).unwrap(),
        Dispatch::Device(DeviceOp::GroupBump)
    );
}

#[test]
fn only_single_node_operations_have_a_budget() {
    assert_eq!(DeviceOp::GroupBump.name(), "group_bump");
    assert!(!DeviceOp::GroupBump.budget_applies());
    let on = DeviceOp::Node(NodeOp {
        node_id: 1,
        kind: NodeOpKind::On { endpoint: 1 },
    });
    assert_eq!(on.name(), "on");
    assert!(on.budget_applies());
}

fn book() -> AliasBook {
    AliasBook {
        nodes: vec![("living-light".to_string(), 5)],
        groups: vec![("all-lights".to_string(), 258)],
        endpoints: vec![(5, "night".to_string(), 2)],
        colors: vec![("warm".to_string(), (255, 140, 0))],
    }
}

fn no_aliases() -> AliasBook {
    AliasBook {
        nodes: vec![],
        groups: vec![],
        endpoints: vec![],
        colors: vec![],
    }
}

fn resolved(cmd: Command, book: &AliasBook) -> Result<Command, MatError> {
    resolve_command(cmd, book, Ok(()), Err("unused".to_string()))
}

#[test]
fn read_alias_resolves_node_then_endpoint() {
    let cmd = Command::Read {
        node_id: NodeRef::Alias("living-light".into()),
        endpoint: EndpointRef::Alias("night".into()),
        cluster: "onoff".into(),
        attribute: "on-off".into(),
    };
    match resolved(cmd, &book()).unwrap() {
        Command::Read {
            node_id, endpoint, ..
        } => {
            assert_eq!(node_id, NodeRef::Id(5));
            assert_eq!(endpoint, EndpointRef::Id(2));
        }
        other => panic!("unexpected: {other:?}"),
    }
}

#[test]
fn numeric_node_still_resolves_endpoint_alias() {
    let cmd = Command::On {
        node_id: NodeRef::Id(5),
        endpoint: EndpointRef::Alias("night".into()),
    };
    match resolved(cmd, &book()).unwrap() {
        Command::On { endpoint, .. } => assert_eq!(endpoint, EndpointRef::Id(2)),
        other => panic!("unexpected: {other:?}"),
    }
}

#[test]
fn group_provision_resolves_group_and_each_node() {
    let cmd = grouped(GroupCommand::Provision {
        group_id: GroupRef::Alias("all-lights".into()),
        node_ids: vec![NodeRef::Alias("living-light".into()), NodeRef::Id(7)],
        keyset_id: 42,
        name: None,
        endpoint: 1,
        epoch_key: None,
        rebind: false,
    });
    match resolved(cmd, &book()).unwrap() {
        Command::Group {
            action:
                GroupCommand::Provision {
                    group_id, node_ids, ..
                },
        } => {
            assert_eq!(group_id, GroupRef::Id(258));
            assert_eq!(node_ids, vec![NodeRef::Id(5), NodeRef::Id(7)]);
        }
        other => panic!("unexpected: {other:?}"),
    }
}

#[test]
fn unknown_alias_is_kind_other() {
    let cmd = Command::Describe {
        node_id: NodeRef::Alias("bogus".into()),
    };
    let err = resolved(cmd, &book()).unwrap_err();
    assert_eq!(err.kind, ErrorKind::Other);
}

#[test]
fn no_aliases_file_passes_numerics_through() {
    let cmd = Command::Describe {
        node_id: NodeRef::Id(5),
    };
    match resolved(cmd, &no_aliases()).unwrap() {
        Command::Describe { node_id } => assert_eq!(node_id, NodeRef::Id(5)),
        other => panic!("unexpected: {other:?}"),
    }
}

fn colored(spec: ColorSpecArgs) -> Command {
    Command::Color {
        node_id: NodeRef::Id(5),
        endpoint: EndpointRef::Id(1),
        spec,
        transition: 0,
    }
}

#[test]
fn color_name_resolves_to_normalized_rgb() {
    match resolved(colored(spec(Some("warm"), None)), &book()).unwrap() {
        Command::Color { spec, .. } => {
            assert_eq!(spec.name.as_deref(), Some("warm"));
            assert_eq!(spec.rgb.as_deref(), Some("#ff8c00"));
        }
        other => panic!("unexpected: {other:?}"),
    }
}

#[test]
fn color_that_cannot_be_read_is_refused() {
    let ok = resolve_command(
        colored(spec(None, Some("255,140,0"))),
        &no_aliases(),
        Ok(()),
        Ok((255, 140, 0)),
    );
    match ok.unwrap() {
        Command::Color { spec, .. } => assert_eq!(spec.rgb.as_deref(), Some("#ff8c00")),
        other => panic!("unexpected: {other:?}"),
    }
    let bad = resolve_command(
        colored(spec(None, Some("zzz"))),
        &no_aliases(),
        Ok(()),
        Err("bad color".to_string()),
    );
    assert!(bad.is_err());
}

#[test]
fn new_alias_is_checked_before_the_device_is_touched() {
    let cmd = |alias: Option<&str>| Command::Commission {
        target: "192.0.2.1".to_string(),
        setup_code: "34970112332".to_string(),
        node_id: None,
        alias: alias.map(|s| s.to_string()),
        thread_dataset: None,
        transport: Transport::Auto,
    };
    let taken = || Err(MatError::new(ErrorKind::Other, "taken".to_string()));
    let unread = || Err("unused".to_string());
    assert!(resolve_command(cmd(Some("lamp")), &book(), taken(), unread()).is_err());
    assert!(resolve_command(cmd(Some("lamp")), &book(), Ok(()), unread()).is_ok());
}

fn listen(node: Option<NodeRef>) -> Command {
    Command::Listen {
        node_id: node,
        endpoint: Some(EndpointRef::Id(1)),
        cluster: Some("switch".to_string()),
        attribute: None,
        event: Some("*".to_string()),
        count: 3,
        timeout_ms: 500,
        reconnect: true,
    }
}

#[test]
fn listening_takes_its_filters_from_the_command() {
    let p = listen_params(listen(Some(NodeRef::Id(21)))).unwrap();
    assert_eq!((p.node, p.endpoint, p.count), (Some(21), Some(1), 3));
    assert_eq!(
        dispatch_listen(&p).get("event"),
        Some(&Json::text("*"))
    );
    assert!(listen_params(listen(Some(NodeRef::Alias("hall".into())))).is_err());
    let other = listen_params(Command::Discover { probe: false }).unwrap_err();
    assert_eq!(other.kind, ErrorKind::ParseError);
}

#[test]
fn ways_follow_the_route() {
    let s = || vec!["/run/matd.sock".to_string()];
    let device = Dispatch::Device(DeviceOp::GroupBump);
    let own = Dispatch::Dedicated("discover");
    assert_eq!(way(Route::Forced(s()), &device), Way::Daemon(s()));
    assert_eq!(way(Route::Forced(s()), &own), Way::Unsupported("discover"));
    assert_eq!(way(Route::Auto(s()), &device), Way::TryDaemon(s()));
    assert_eq!(way(Route::Auto(s()), &own), Way::Direct);
    assert_eq!(way(Route::Direct, &device), Way::Direct);
    assert_eq!(listen_sockets(Route::Auto(s())).unwrap(), s());
    let e = listen_sockets(Route::Direct).unwrap_err();
    assert_eq!(e.kind, ErrorKind::MatdUnavailable);
}

#[test]
fn program_ends_by_the_failure() {
    assert_eq!(exit_of(&Ok(())), Exit::Success);
    assert_eq!(
        exit_of(&Err(MatError::parse_error("x".to_string()))),
        Exit::Failed(ErrorKind::ParseError)
    );
    assert_eq!(unresolved_exit(ErrorKind::Other), Exit::Usage);
    assert_eq!(
        unresolved_exit(ErrorKind::StoreParse),
        Exit::Failed(ErrorKind::StoreParse)
    );
}

#[test]
fn interfaces_given_come_before_those_found() {
    let none = || Err(MatError::new(ErrorKind::Other, "none".to_string()));
    assert_eq!(
        iface_choice(Some("eth0".to_string()), none()).unwrap(),
        "eth0"
    );
    assert!(iface_choice(None, none()).is_err());
    assert_eq!(
        thread_choice(Some("wpan0".to_string()), Some("wpan1".to_string())),
        Some(ThreadIfaceChoice::Explicit("wpan0".to_string()))
    );
    assert_eq!(
        thread_choice(None, Some("wpan1".to_string())),
        Some(ThreadIfaceChoice::Auto("wpan1".to_string()))
    );
    assert_eq!(thread_choice(None, None), None);
}

#[test]
fn commands_with_a_part_of_their_own() {
    assert_eq!(
        early(&Command::Fabric {
            action: FabricAction::Init {
                fabric_id: 1,
                admin_node_id: 2
            }
        }),
        Early::Fabric {
            fabric_id: 1,
            admin_node_id: 2
        }
    );
    assert_eq!(early(&listen(None)), Early::Listen);
    let mesh = Command::Diag {
        action: DiagCommand::Mesh {
            nodes: vec![NodeRef::Id(5), NodeRef::Id(6)],
        },
    };
    assert_eq!(early(&mesh), Early::Other);
    assert_eq!(
        dedicated(&mesh).unwrap(),
        Dedicated::DiagMesh { nodes: vec![5, 6] }
    );
    let node = Command::Diag {
        action: DiagCommand::Node {
            node_id: NodeRef::Id(5),
            endpoint: EndpointRef::Id(0),
            deep: true,
        },
    };
    assert_eq!(
        dedicated(&node).unwrap(),
        Dedicated::DiagNode {
            node_id: 5,
            endpoint: 0,
            deep: true
        }
    );
    assert_eq!(
        dedicated(&Command::Discover { probe: true }).unwrap(),
        Dedicated::Discover { probe: true }
    );
    let e = dedicated(&read("onoff", "on-off")).unwrap_err();
    assert_eq!(e.kind, ErrorKind::ParseError);
}

#[test]
fn ble_is_refused_with_a_manual_code() {
    let e = validate_transport(Transport::Ble, "34970112332").unwrap_err();
    assert_eq!(e.kind, ErrorKind::Other);
    assert!(e.detail.contains("QR payload"), "{}", e.detail);
    assert!(validate_transport(Transport::Ble, "MT:Y.K9042C00KA0648G00").is_ok());
    assert!(validate_transport(Transport::Auto, "34970112332").is_ok());
    assert!(validate_transport(Transport::OnNetwork, "34970112332").is_ok());
}

#[test]
fn resolving_again_changes_nothing() {
    let provision = || Command::Group {
        action: GroupCommand::Provision {
            group_id: GroupRef::Alias("all-lights".into()),
            node_ids: vec![NodeRef::Alias("living-light".into()), NodeRef::Id(7)],
            keyset_id: 42,
            name: None,
            endpoint: 1,
            epoch_key: None,
            rebind: false,
        },
    };
    let once = resolved(provision(), &book()).unwrap();
    let twice = resolved(resolved(provision(), &book()).unwrap(), &book()).unwrap();
    assert_eq!(once, twice);
    let named = resolved(colored(spec(Some("warm"), None)), &book()).unwrap();
    let again = resolved(
        resolved(colored(spec(Some("warm"), None)), &book()).unwrap(),
        &book(),
    );
    assert_eq!(named, again.unwrap());
    let rgb = |c| resolve_command(c, &no_aliases(), Ok(()), Ok((255, 140, 0))).unwrap();
    let once = rgb(colored(spec(None, Some("255,140,0"))));
    let twice = rgb(rgb(colored(spec(None, Some("255,140,0")))));
    assert_eq!(once, twice);
}
