//! Operations on a node that take several calls.
use mat::conn::{
    AclEdit, Call, Payload, Progress, Reply, ATTR_ACL, ATTR_GROUP_KEY_MAP, CLUSTER_ACCESS_CONTROL,
    CLUSTER_GROUPS, CLUSTER_GROUP_KEY_MANAGEMENT, CMD_ADD_GROUP, CMD_KEY_SET_REMOVE,
    CMD_KEY_SET_WRITE, CMD_REMOVE_GROUP,
};
use mat::error::{ErrorKind, MatError};
use mat::group_node::{
    bind_keyset, ensure_group_acl, ensure_group_acl_next, epoch_key_from_hex, ipk_keyset_written,
    parse_group_key_map, provision_node, provision_node_next, remove_group_node,
    remove_group_node_next, write_ipk_keyset, ProvisionNodeParams, RemoveGroupNodeParams,
    RemoveGroupNodeReport,
};
use mat::json::{parse, Json};
use mat::ops::{describe, describe_next, parse_id_list_json};
use mat::thread::{
    diag_thread, rename_struct_array, rename_struct_fields, table_fields_for,
    thread_check_from_snapshot, thread_identity, Table, ThreadAttributes, ThreadSnapshot,
};
use mat::tlv::{
    decode_response_status, encode_acl_entries_tlv, encode_key_set_remove_fields,
    encode_remove_group_fields, AclEntry, Elem, ReadEnd, Tag,
};

fn uint(tag: u8, v: u64) -> Elem {
    Elem::UInt(Tag::Context(tag), v)
}

#[test]
fn decode_response_status_flat_and_nested() {
    let flat = vec![
        Elem::StructStart(Tag::Anonymous),
        uint(0, 0x8B),
        uint(1, 7),
        Elem::End,
    ];
    assert_eq!(decode_response_status(&flat, ReadEnd::Clean).unwrap(), 0x8B);

    let nested = vec![
        Elem::StructStart(Tag::Anonymous),
        Elem::StructStart(Tag::Context(2)),
        uint(0, 0x55),
        Elem::End,
        Elem::ArrayStart(Tag::Context(3)),
        Elem::UInt(Tag::Anonymous, 1),
        Elem::End,
        uint(0, 0),
        Elem::End,
    ];
    assert_eq!(decode_response_status(&nested, ReadEnd::Clean).unwrap(), 0);

    let missing = vec![
        Elem::StructStart(Tag::Anonymous),
        Elem::StructStart(Tag::Context(2)),
        uint(0, 0x55),
        Elem::End,
        Elem::End,
    ];
    let err = decode_response_status(&missing, ReadEnd::Clean).unwrap_err();
    assert!(err.detail.contains("missing status"), "{}", err.detail);

    let cut = vec![
        Elem::StructStart(Tag::Anonymous),
        Elem::StructStart(Tag::Context(2)),
        uint(0, 0x55),
    ];
    let err = decode_response_status(&cut, ReadEnd::Clean).unwrap_err();
    assert!(err.detail.contains("truncated"), "{}", err.detail);
}

fn attrs() -> ThreadAttributes {
    ThreadAttributes {
        channel: Some(0x0000),
        routing_role: Some(0x0001),
        network_name: Some(0x0002),
        pan_id: Some(0x0003),
        extended_pan_id: Some(0x0004),
        mesh_local_prefix: Some(0x0005),
        neighbor_table: Some(0x0007),
        route_table: Some(0x0008),
        partition_id: Some(0x0009),
        leader_router_id: Some(0x000D),
    }
}

#[test]
fn thread_identity_picks_thread_interface() {
    let v = parse(
        r#"[
        {"0": "eth0", "1": true, "4": "aabbccddeeff", "6": [], "7": 2},
        {"0": "wpan0", "1": true, "4": "0011223344556677",
         "6": ["fd00112233445566000000fffe001400", "fe800000000000000011223344556677"],
         "7": 4}
    ]"#,
    )
    .unwrap();
    let id = thread_identity(&v).unwrap();
    assert_eq!(id.ext_address, "0011223344556677");
    assert_eq!(id.ipv6.len(), 2);
}

#[test]
fn thread_identity_none_without_thread_interface() {
    let v =
        parse(r#"[{"0": "eth0", "1": true, "4": "aabbccddeeff", "6": [], "7": 2}]"#).unwrap();
    assert!(thread_identity(&v).is_none());
}

#[test]
fn thread_identity_none_on_non_array() {
    assert!(thread_identity(&Json::Null).is_none());
}

#[test]
fn diag_thread_includes_leader_and_ml_prefix_scalars() {
    let rows = vec![
        (0x0001, Json::UInt(5)),
        (0x000d, Json::UInt(8)),
        (0x0005, Json::text("fd00112233445566")),
    ];
    let snap = diag_thread(&rows, &attrs());
    assert_eq!(snap.fields.get("leader_router_id"), Some(&Json::UInt(8)));
    assert_eq!(
        snap.fields.get("mesh_local_prefix"),
        Some(&Json::text("fd00112233445566"))
    );
}

#[test]
fn describe_walks_parts_and_server_lists() {
    let (mut s, mut call) = describe();
    let eps = loop {
        let answer = match call {
            Call::ReadJson {
                endpoint: 0,
                cluster: 0x001D,
                attribute: 0x0003,
            } => "[1]",
            Call::ReadJson {
                endpoint: 0,
                cluster: 0x001D,
                attribute: 0x0001,
            } => "[29, 31]",
            Call::ReadJson {
                endpoint: 1,
                cluster: 0x001D,
                attribute: 0x0001,
            } => "[6, 8]",
            other => panic!("{other:?}"),
        };
        match describe_next(s, parse(answer).map_err(MatError::parse_error)) {
            Progress::Call(n, c) => {
                s = n;
                call = c;
            }
            Progress::Done(eps) => break eps,
            Progress::Fail(e) => panic!("{e:?}"),
        }
    };
    assert_eq!(eps.items, vec![(0, vec![29, 31]), (1, vec![6, 8])]);
}

#[test]
fn describe_names_no_endpoint_twice() {
    let (s, _) = describe();
    let parts = parse("[1, 1, 0, 70000, \"x\"]").unwrap();
    let mut next = describe_next(s, Ok(parts));
    let mut asked = Vec::new();
    loop {
        match next {
            Progress::Call(n, Call::ReadJson { endpoint, .. }) => {
                asked.push(endpoint);
                next = describe_next(n, Ok(Json::array(vec![])));
            }
            Progress::Done(_) => break,
            other => panic!("{other:?}"),
        }
    }
    assert_eq!(asked, vec![0, 1]);
    assert_eq!(parse_id_list_json(&Json::Null), Vec::<u64>::new());
}

#[test]
fn diag_thread_maps_names_and_partial_results() {
    let rows = vec![
        (0x0001, Json::UInt(3)),
        (0x0007, parse(r#"[{"0": 42, "7": -60}]"#).unwrap()),
    ];
    let snap = diag_thread(&rows, &attrs());
    assert_eq!(snap.fields.get("routing_role"), Some(&Json::UInt(3)));
    let nt = snap
        .fields
        .get("neighbor_table")
        .unwrap()
        .as_array()
        .unwrap();
    assert!(
        nt[0].get("ExtAddress").is_some() || nt[0].get("Age").is_some(),
        "field-id keys must be renamed: {nt:?}"
    );
    assert_eq!(snap.fields.get("network_name"), Some(&Json::Null));
    assert!(snap.unavailable.is_empty());
}

#[test]
fn renaming_keeps_unknown_keys_and_other_shapes() {
    assert_eq!(table_fields_for("neighbor-table"), Table::Neighbor);
    assert_eq!(table_fields_for("route-table"), Table::Route);
    let rows = parse(r#"[{"0": 1, "99": 2}, 7]"#).unwrap();
    let named = rename_struct_array(&rows, Table::Neighbor);
    let list = named.as_array().unwrap();
    assert_eq!(list.len(), 2);
    assert_eq!(list[0].get("99"), Some(&Json::UInt(2)));
    assert_eq!(list[1], Json::UInt(7));
}

#[test]
fn thread_check_from_snapshot_computes_max_lqi_and_routing_role() {
    let rows = vec![
        (0x0001, Json::UInt(2)),
        (
            0x0007,
            parse(r#"[{"0": 42, "5": 120}, {"0": 43, "5": 200}]"#).unwrap(),
        ),
    ];
    let check = thread_check_from_snapshot(&diag_thread(&rows, &attrs())).unwrap();
    assert_eq!(check.neighbor_count, 2);
    assert_eq!(check.best_lqi, Some(200));
    assert_eq!(check.routing_role, Some(2));
}

#[test]
fn thread_check_from_snapshot_errs_when_neighbor_table_missing() {
    let rows = vec![(0x0001, Json::UInt(2))];
    let err = thread_check_from_snapshot(&diag_thread(&rows, &attrs())).unwrap_err();
    assert_eq!(err.kind, ErrorKind::Other);
}

#[test]
fn thread_check_reads_any_snapshot() {
    let snap = ThreadSnapshot {
        fields: Json::object().with("neighbor_table", Json::array(vec![])),
        unavailable: vec![],
    };
    let check = thread_check_from_snapshot(&snap).unwrap();
    assert_eq!((check.neighbor_count, check.best_lqi), (0, None));
}

fn admin() -> AclEntry {
    AclEntry {
        privilege: 5,
        auth_mode: 2,
        subjects: vec![1],
        targets: None,
        fabric_index: 2,
    }
}

fn group_entry(group_id: u64) -> AclEntry {
    AclEntry {
        privilege: 3,
        auth_mode: 3,
        subjects: vec![group_id],
        targets: None,
        fabric_index: 2,
    }
}

fn params() -> ProvisionNodeParams {
    ProvisionNodeParams {
        group_id: 10,
        keyset_id: 60,
        name: "grp10".into(),
        endpoint: 1,
        epoch_key: [0xAB; 16],
    }
}

/// Gives a group to a node whose key map is the given one.
fn provision(map: &str) -> (Vec<Call>, Result<(), MatError>) {
    let p = params();
    let (mut phase, mut call) = provision_node(&p);
    let mut calls = Vec::new();
    loop {
        let reply = match &call {
            Call::ReadJson { .. } => Reply::Value(Ok(parse(map).unwrap())),
            Call::ReadAcl(AclEdit::Grant(10)) => {
                Reply::Acl(Ok(Some(vec![admin(), group_entry(10)])))
            }
            Call::ReadAcl(other) => panic!("{other:?}"),
            _ => Reply::Unit(Ok(())),
        };
        calls.push(call);
        match provision_node_next(&p, phase, reply) {
            Progress::Call(n, c) => {
                phase = n;
                call = c;
            }
            Progress::Done(()) => return (calls, Ok(())),
            Progress::Fail(e) => return (calls, Err(e)),
        }
    }
}

fn key_map_writes(calls: &[Call]) -> Vec<&Payload> {
    calls
        .iter()
        .filter_map(|c| match c {
            Call::WriteTlv {
                endpoint: 0,
                cluster: CLUSTER_GROUP_KEY_MANAGEMENT,
                attribute: ATTR_GROUP_KEY_MAP,
                data,
                ..
            } => Some(data),
            _ => None,
        })
        .collect()
}

#[test]
fn provision_node_runs_steps_in_order() {
    let (calls, r) = provision("[]");
    r.unwrap();
    assert_eq!(
        calls,
        vec![
            Call::Invoke {
                endpoint: 0,
                cluster: CLUSTER_GROUP_KEY_MANAGEMENT,
                command: CMD_KEY_SET_WRITE,
                fields: Payload::KeySetWrite {
                    keyset_id: 60,
                    epoch_key: [0xAB; 16]
                },
                timed: false
            },
            Call::ReadJson {
                endpoint: 0,
                cluster: CLUSTER_GROUP_KEY_MANAGEMENT,
                attribute: ATTR_GROUP_KEY_MAP
            },
            Call::WriteTlv {
                endpoint: 0,
                cluster: CLUSTER_GROUP_KEY_MANAGEMENT,
                attribute: ATTR_GROUP_KEY_MAP,
                data: Payload::GroupKeyMap(vec![(10, 60)]),
                timed: false
            },
            Call::Invoke {
                endpoint: 1,
                cluster: CLUSTER_GROUPS,
                command: CMD_ADD_GROUP,
                fields: Payload::AddGroup {
                    group_id: 10,
                    name: "grp10".to_string()
                },
                timed: false
            },
            Call::ReadAcl(AclEdit::Grant(10)),
            Call::WriteTlv {
                endpoint: 0,
                cluster: CLUSTER_ACCESS_CONTROL,
                attribute: ATTR_ACL,
                data: Payload::Elems(encode_acl_entries_tlv(&vec![admin(), group_entry(10)])),
                timed: false
            },
        ]
    );
}

#[test]
fn ensure_group_acl_is_idempotent_when_entry_exists() {
    let (phase, call) = ensure_group_acl(10);
    assert_eq!(call, Call::ReadAcl(AclEdit::Grant(10)));
    match ensure_group_acl_next(phase, Reply::Acl(Ok(None))) {
        Progress::Done(wrote) => assert!(!wrote),
        other => panic!("{other:?}"),
    }
}

#[test]
fn provision_node_replaces_existing_mapping_for_same_group() {
    let (calls, r) = provision(r#"[{"1": 10, "2": 50}]"#);
    r.unwrap();
    assert_eq!(
        key_map_writes(&calls),
        vec![&Payload::GroupKeyMap(vec![(10, 60)])]
    );
}

#[test]
fn provision_node_preserves_other_groups_mappings() {
    let (calls, r) = provision(r#"[{"1": 11, "2": 61}]"#);
    r.unwrap();
    assert_eq!(
        key_map_writes(&calls),
        vec![&Payload::GroupKeyMap(vec![(11, 61), (10, 60)])]
    );
}

#[test]
fn provision_node_writes_no_map_that_it_could_not_read() {
    let (calls, r) = provision(r#""not-a-list""#);
    assert_eq!(r.unwrap_err().kind, ErrorKind::ParseError);
    assert!(key_map_writes(&calls).is_empty());
}

#[test]
fn binding_a_keyset_twice_changes_nothing() {
    let once = bind_keyset(vec![(1, 2), (10, 5)], 10, 60);
    assert_eq!(once, vec![(1, 2), (10, 60)]);
    assert_eq!(bind_keyset(once.clone(), 10, 60), once);
    assert!(parse_group_key_map(&Json::Null).is_err());
}

/// Takes group 1 away from a node.
fn remove(
    acl: Result<Option<Vec<AclEntry>>, MatError>,
    status: u64,
    map: &str,
) -> (Vec<Call>, Result<RemoveGroupNodeReport, MatError>) {
    let p = RemoveGroupNodeParams {
        group_id: 1,
        endpoint: 2,
    };
    let mut acl = Some(acl);
    let (mut phase, mut call) = remove_group_node(&p);
    let mut calls = Vec::new();
    loop {
        let reply = match &call {
            Call::ReadAcl(AclEdit::Withdraw(1)) => Reply::Acl(acl.take().unwrap()),
            Call::ReadAcl(other) => panic!("{other:?}"),
            Call::ReadJson { .. } => Reply::Value(Ok(parse(map).unwrap())),
            Call::InvokeForData { .. } => Reply::Data(Ok((
                vec![
                    Elem::StructStart(Tag::Anonymous),
                    uint(0, status),
                    uint(1, 1),
                    Elem::End,
                ],
                ReadEnd::Clean,
            ))),
            _ => Reply::Unit(Ok(())),
        };
        calls.push(call);
        match remove_group_node_next(&p, phase, reply) {
            Progress::Call(n, c) => {
                phase = n;
                call = c;
            }
            Progress::Done(rep) => return (calls, Ok(rep)),
            Progress::Fail(e) => return (calls, Err(e)),
        }
    }
}

fn leave() -> Call {
    Call::InvokeForData {
        endpoint: 2,
        cluster: CLUSTER_GROUPS,
        command: CMD_REMOVE_GROUP,
        fields: Payload::Elems(encode_remove_group_fields(1)),
        timed: false,
    }
}

fn map_write(map: Vec<(u16, u16)>) -> Call {
    Call::WriteTlv {
        endpoint: 0,
        cluster: CLUSTER_GROUP_KEY_MANAGEMENT,
        attribute: ATTR_GROUP_KEY_MAP,
        data: Payload::GroupKeyMap(map),
        timed: false,
    }
}

fn reads(c: &Call) -> bool {
    matches!(c, Call::ReadAcl(_) | Call::ReadJson { .. })
}

#[test]
fn remove_group_node_runs_four_steps_and_removes_unreferenced_keyset() {
    let (calls, rep) = remove(
        Ok(Some(vec![admin()])),
        0,
        r#"[{"1": 1, "2": 42, "254": 1}]"#,
    );
    assert_eq!(
        rep.unwrap(),
        RemoveGroupNodeReport {
            acl_removed: true,
            group_removed: true,
            keymap_removed: true,
            keyset_removed: true
        }
    );
    let writes: Vec<Call> = calls.into_iter().filter(|c| !reads(c)).collect();
    assert_eq!(
        writes,
        vec![
            Call::WriteTlv {
                endpoint: 0,
                cluster: CLUSTER_ACCESS_CONTROL,
                attribute: ATTR_ACL,
                data: Payload::Elems(encode_acl_entries_tlv(&vec![admin()])),
                timed: false
            },
            leave(),
            map_write(vec![]),
            Call::Invoke {
                endpoint: 0,
                cluster: CLUSTER_GROUP_KEY_MANAGEMENT,
                command: CMD_KEY_SET_REMOVE,
                fields: Payload::Elems(encode_key_set_remove_fields(42)),
                timed: false
            },
        ]
    );
}

#[test]
fn remove_group_node_keeps_keyset_still_referenced_and_tolerates_not_found() {
    let (calls, rep) = remove(
        Ok(None),
        0x8B,
        r#"[{"1": 1, "2": 42, "254": 1}, {"1": 2, "2": 42, "254": 1}]"#,
    );
    assert_eq!(
        rep.unwrap(),
        RemoveGroupNodeReport {
            acl_removed: false,
            group_removed: false,
            keymap_removed: true,
            keyset_removed: false
        }
    );
    let writes: Vec<Call> = calls.into_iter().filter(|c| !reads(c)).collect();
    assert_eq!(writes, vec![leave(), map_write(vec![(2, 42)])]);
}

#[test]
fn remove_group_node_never_writes_acl_when_read_fails() {
    let (calls, rep) = remove(
        Err(MatError::parse_error("not a list".to_string())),
        0,
        "[]",
    );
    let err = rep.unwrap_err();
    assert!(err.detail.contains("acl read"), "{}", err.detail);
    assert!(calls.iter().all(reads));
}

#[test]
fn remove_group_node_rejects_another_status() {
    let (_, rep) = remove(Ok(None), 0x01, "[]");
    assert_eq!(rep.unwrap_err().kind, ErrorKind::DeviceRejected);
}

#[test]
fn write_ipk_keyset_invokes_key_set_write_on_ep0_with_keyset_0() {
    let epochs = vec![([0x0C; 16], 1), ([0x0E; 16], 2)];
    assert_eq!(
        write_ipk_keyset(epochs.clone()),
        Call::Invoke {
            endpoint: 0,
            cluster: 0x003F,
            command: 0x0000,
            fields: Payload::KeySetWriteMulti {
                keyset_id: 0,
                epochs
            },
            timed: false
        }
    );
}

#[test]
fn write_ipk_keyset_prefixes_error_with_step_name() {
    let err = ipk_keyset_written(Err(MatError::new(
        ErrorKind::DeviceRejected,
        "status 1".to_string(),
    )))
    .unwrap_err();
    assert_eq!(err.kind, ErrorKind::DeviceRejected);
    assert!(
        err.detail.starts_with("key-set-write (ipk): "),
        "{}",
        err.detail
    );
}

#[test]
fn epoch_key_is_sixteen_bytes_of_hex() {
    assert_eq!(epoch_key_from_hex(&"42".repeat(16)).unwrap(), [0x42; 16]);
    let e = epoch_key_from_hex("42").unwrap_err();
    assert_eq!(
        e.detail,
        "epoch key must be 32 hex chars (16 bytes), got 2 chars"
    );
    let e = epoch_key_from_hex(&"4x".repeat(16)).unwrap_err();
    assert_eq!(e.kind, ErrorKind::ParseError);
    assert!(e.detail.starts_with("invalid epoch key hex: "));
}

#[test]
fn epoch_key_is_made_of_digits_only() {
    let e = epoch_key_from_hex(&"+0".repeat(16)).unwrap_err();
    assert_eq!(e.kind, ErrorKind::ParseError);
    assert!(e.detail.starts_with("invalid epoch key hex: "));
    assert!(epoch_key_from_hex(&"-0".repeat(16)).is_err());
    assert!(epoch_key_from_hex(&"é".repeat(16)).is_err());
    assert_eq!(epoch_key_from_hex(&"aF".repeat(16)).unwrap(), [0xAF; 16]);
}

#[test]
fn greatest_key_gives_a_named_field_its_value() {
    let name_first = Json::object()
        .with("ExtAddress", Json::UInt(1))
        .with("0", Json::UInt(2));
    let id_first = Json::object()
        .with("0", Json::UInt(2))
        .with("ExtAddress", Json::UInt(1));
    let named = rename_struct_fields(&name_first, Table::Neighbor);
    assert_eq!(named.get("ExtAddress"), Some(&Json::UInt(1)));
    assert_eq!(named, rename_struct_fields(&id_first, Table::Neighbor));
}

#[test]
fn second_grant_writes_nothing() {
    let merged = vec![admin(), group_entry(10)];
    let (phase, _) = ensure_group_acl(10);
    let phase = match ensure_group_acl_next(phase, Reply::Acl(Ok(Some(merged)))) {
        Progress::Call(p, Call::WriteTlv { endpoint, .. }) => {
            assert_eq!(endpoint, 0);
            p
        }
        other => panic!("{other:?}"),
    };
    assert_eq!(
        ensure_group_acl_next(phase, Reply::Unit(Ok(()))),
        Progress::Done(true)
    );
    let (phase, _) = ensure_group_acl(10);
    assert_eq!(
        ensure_group_acl_next(phase, Reply::Acl(Ok(None))),
        Progress::Done(false)
    );
}
