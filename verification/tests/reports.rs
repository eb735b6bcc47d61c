//! What the commands of their own report.
use mat::chip_tool::{run_arguments, spawn_error, RunOutput, SpawnFailure};
use mat::commission::Transport;
use mat::conn::{Call, Progress, Reply};
use mat::device_op::DeviceOp;
use mat::diag::{
    dedup_preserving_order, deep_probes, dominant_error, mesh, mesh_begin, mesh_targets,
    node_checks, ping6_arguments, ping6_spawn_error, probe_error_kind, probe_ping6, skipped_probes,
    thread_missing, MeshProbeItem, Ping6Stats,
};
use mat::discover::{reach_of, run, NodeRecord, Reach};
use mat::enroll::{
    alias_write_error, certificate_dir, decode_hex, native_commission, next_node_id,
    record_success, thread_dataset,
};
use mat::error::{ErrorKind, MatError};
use mat::fabric::{
    generate_error, init_body, init_error, list_entry, list_error, reload_due, rotate_finished,
    rotate_mode, rotate_nodes, run_list, run_rotate_ipk, store_dir_error, FabricFacts, ListFailure,
};
use mat::json::{error_object, parse, render, text_list, u64_list, Json};
use mat::matd_stream::MatdReload;
use mat::native_direct::{
    diag_im, diag_im_next, diag_im_with_engine, execute, execute_next, map_engine_build_error,
    mesh_probe, mesh_probe_next, mesh_probe_one, plan, provision_note, run_op_with_deadline,
    suppresses_node_touched_hint, DiagImProbe, Execute, ImPhase, ImReads, MeshPhase, ProbeData,
};
use mat::op::{NodeOp, NodeOpKind, ProvisionParams};
use mat::probe::{cfid_hex, mdns_error, resolve_ledger_nodes, MatterInstance, Resolution};
use mat::rotate_ipk::{NodeOutcome, RotateMode, RotateOutcome, RotateStatus};
use mat::thread::{ThreadAttributes, ThreadCheck};
use mat::unpair::{device_failure_body, device_part, unpair_body};

fn fail(kind: ErrorKind, detail: &str) -> MatError {
    MatError::new(kind, detail.to_string())
}

fn item(node_id: u64, kind: ErrorKind) -> MeshProbeItem {
    MeshProbeItem {
        node_id,
        result: Err(fail(kind, &format!("node {node_id} failed"))),
    }
}

#[test]
fn dominant_error_picks_most_frequent_kind() {
    let items = vec![
        item(1, ErrorKind::Timeout),
        item(2, ErrorKind::Unreachable),
        item(3, ErrorKind::Unreachable),
    ];
    let e = dominant_error(&items);
    assert_eq!(e.kind, ErrorKind::Unreachable);
    assert!(e.detail.contains("node 1"));
    assert!(e.detail.contains("node 3"));
}

#[test]
fn dominant_error_tie_is_first_seen() {
    let items = vec![item(1, ErrorKind::Timeout), item(2, ErrorKind::Unreachable)];
    assert_eq!(dominant_error(&items).kind, ErrorKind::Timeout);
}

#[test]
fn dedup_preserving_order_removes_duplicates_keeping_first_seen_order() {
    assert_eq!(dedup_preserving_order(&[7, 7, 3, 7, 5, 3]), vec![7, 3, 5]);
    assert_eq!(dedup_preserving_order(&[]), Vec::<u64>::new());
    assert_eq!(dedup_preserving_order(&[1, 2, 3]), vec![1, 2, 3]);
}

#[test]
fn mesh_fails_only_where_every_node_did() {
    assert_eq!(mesh_targets(&vec![], &vec![4, 5]), vec![4, 5]);
    assert_eq!(mesh_targets(&vec![5, 5], &vec![4]), vec![5]);
    let items = vec![
        item(1, ErrorKind::Timeout),
        MeshProbeItem {
            node_id: 2,
            result: Ok(ProbeData {
                thread: Json::object(),
                identity: None,
            }),
        },
    ];
    assert!(mesh(&items).is_ok());
    assert_eq!(
        mesh(&vec![item(1, ErrorKind::Timeout)]).unwrap_err().kind,
        ErrorKind::Timeout
    );
}

fn instance(fabric: &str, node_id: u64, address: &str) -> MatterInstance {
    MatterInstance {
        compressed_fabric: fabric.to_string(),
        node_id,
        addresses: vec![address.to_string()],
    }
}

#[test]
fn deep_probes_tell_the_own_fabric_from_others() {
    let ping = Ok(Ping6Stats {
        loss_pct: 0,
        rtt_ms: 3u8,
    });
    let d = deep_probes(
        5,
        &Some("fd00::5".to_string()),
        ping,
        &Some("AA".to_string()),
        Ok(vec![instance("AA", 5, "fd00::5")]),
    );
    let ip = d.ip.unwrap();
    assert!(ip.ok);
    let mdns = d.mdns.unwrap();
    assert_eq!(mdns.advertised_self_fabric, Some(true));
    assert!(mdns.advertised_any_fabric);
    assert!(d.unavailable.is_empty());
    let lost: Result<Ping6Stats<u8>, MatError> = Ok(Ping6Stats {
        loss_pct: 100,
        rtt_ms: 0,
    });
    let d = deep_probes(
        5,
        &Some("fd00::5".to_string()),
        lost,
        &None,
        Err(fail(ErrorKind::Unreachable, "no mdns")),
    );
    assert!(!d.ip.unwrap().ok);
    assert!(d.mdns.is_none());
    assert_eq!(d.unavailable.len(), 1);
    assert_eq!(skipped_probes().len(), 2);
    assert_eq!(
        thread_missing(ErrorKind::Timeout).get("check"),
        Some(&Json::text("thread"))
    );
    assert_eq!(
        probe_error_kind(&fail(ErrorKind::Timeout, "x")),
        Json::text("timeout")
    );
}

#[test]
fn checks_of_a_node_are_put_together_in_order() {
    let im = |thread| DiagImProbe {
        resolved: true,
        op_kind: None,
        self_cfid: "AA".to_string(),
        thread,
    };
    let c = node_checks::<u8>(im(Err(ErrorKind::Timeout)), None);
    assert!(c.resolved && c.thread.is_none() && c.ip.is_none());
    let names: Vec<&Json> = c
        .unavailable
        .iter()
        .map(|u| u.get("check").unwrap())
        .collect();
    assert_eq!(
        names,
        vec![&Json::text("thread"), &Json::text("ip"), &Json::text("mdns")]
    );
    let check = ThreadCheck {
        neighbor_count: 1,
        best_lqi: Some(9),
        routing_role: None,
    };
    let deep = deep_probes::<u8>(
        5,
        &None,
        Err(fail(ErrorKind::ChildNotFound, "no ping")),
        &Some("AA".to_string()),
        Ok(vec![instance("AA", 5, "fd00::5")]),
    );
    let c = node_checks(im(Ok(check)), Some(deep));
    assert!(c.thread.is_some());
    assert!(c.mdns.unwrap().advertised_any_fabric);
    assert_eq!(c.unavailable.len(), 1);
    assert_eq!(
        c.unavailable[0].get("kind"),
        Some(&Json::text("no_address_in_store"))
    );
}

#[test]
fn mesh_survey_needs_known_nodes_and_a_backend() {
    assert_eq!(
        mesh_begin(&vec![5, 5], &vec![Ok(()), Ok(())], &vec![4], true).unwrap(),
        vec![5]
    );
    assert_eq!(
        mesh_begin(&vec![], &vec![], &vec![], false).unwrap(),
        Vec::<u64>::new()
    );
    let e = mesh_begin(&vec![], &vec![], &vec![4], false).unwrap_err();
    assert_eq!(
        e.detail,
        "diag mesh: native backend not configured (internal)"
    );
    let e = mesh_begin(
        &vec![9],
        &vec![Err(fail(ErrorKind::Other, "no node 9"))],
        &vec![4],
        true,
    )
    .unwrap_err();
    assert_eq!(e.detail, "no node 9");
}

#[test]
fn missing_ping_tool_is_its_own_kind() {
    assert_eq!(
        ping6_spawn_error(true, "ping6", "").kind,
        ErrorKind::ChildNotFound
    );
    assert_eq!(
        ping6_spawn_error(false, "ping6", "denied").detail,
        "ping6 spawn failed (\"ping6\"): denied"
    );
}

fn attrs() -> ThreadAttributes {
    ThreadAttributes {
        channel: None,
        routing_role: Some(0x0001),
        network_name: None,
        pan_id: None,
        extended_pan_id: None,
        mesh_local_prefix: None,
        neighbor_table: Some(0x0007),
        route_table: None,
        partition_id: None,
        leader_router_id: None,
    }
}

#[test]
fn diag_im_with_engine_reads_operational_and_thread_natively() {
    let cfid = [0x11, 0x22, 0x33, 0x44, 0x55, 0x66, 0x77, 0x88];
    let reads = ImReads {
        parts: Some(Ok(())),
        rows: Ok(vec![(
            0x0007,
            parse(r#"[{"5": 200}, {"5": 100}]"#).unwrap(),
        )]),
    };
    let p = diag_im_with_engine(&cfid, Ok(reads), &attrs());
    assert!(p.resolved);
    assert_eq!(p.op_kind, None);
    assert_eq!(p.self_cfid, "1122334455667788");
    let t = p.thread.expect("thread check");
    assert!(t.neighbor_count >= 1);
    assert_eq!(t.best_lqi, Some(200));
}

#[test]
fn diag_im_with_engine_reports_establish_failure_as_unresolved() {
    let p = diag_im_with_engine(
        &[1u8; 8],
        Err(fail(ErrorKind::Unreachable, "fake unreachable")),
        &attrs(),
    );
    assert!(!p.resolved);
    assert_eq!(p.op_kind, Some(ErrorKind::Unreachable));
    assert!(p.thread.is_err());
}

#[test]
fn diag_thread_propagates_err_when_read_cluster_fails() {
    let err = mesh_probe_one(
        Err(fail(ErrorKind::Unreachable, "fake unreachable")),
        Ok(Json::Null),
        &attrs(),
    )
    .unwrap_err();
    assert_eq!(err.kind, ErrorKind::Unreachable);
}

fn node(node_id: u64, kind: NodeOpKind) -> DeviceOp {
    DeviceOp::Node(NodeOp { node_id, kind })
}

#[test]
fn remove_fabric_suppresses_the_node_touched_hint() {
    let unpair = node(24, NodeOpKind::RemoveFabric);
    assert!(suppresses_node_touched_hint(&unpair));
    assert!(!plan(&unpair, 0).hint);
    let read = node(
        24,
        NodeOpKind::read(1, "onoff", "on-off", Some(6), Some(0)).unwrap(),
    );
    assert!(!suppresses_node_touched_hint(&read));
    assert!(!suppresses_node_touched_hint(&DeviceOp::GroupBump));
}

#[test]
fn op_deadline_fires_node_touched_hint_on_timeout() {
    let (r, hinted) = run_op_with_deadline::<()>(None, 10, Some(42));
    assert_eq!(r.unwrap_err().kind, ErrorKind::Timeout);
    assert_eq!(hinted, Some(42));
}

#[test]
fn op_deadline_passes_through_completion_without_hint() {
    let (r, hinted) = run_op_with_deadline(Some(Ok(Json::object())), 10_000, Some(42));
    assert!(r.is_ok());
    assert_eq!(hinted, None);
}

#[test]
fn nodes_and_key_are_checked_before_the_engine_is_built() {
    let op = DeviceOp::GroupProvision(ProvisionParams {
        group_id: 99,
        node_ids: vec![5, 6],
        keyset_id: 99,
        name: "e2e".into(),
        endpoint: 1,
        epoch_key: Some("42".repeat(16)),
        rebind: false,
    });
    let p = plan(&op, 1_000);
    assert_eq!(p.nodes, vec![5, 6]);
    assert_eq!(p.deadline_ms, None);
    let mut s = execute(&p);
    let mut seen = Vec::new();
    while !matches!(s, Execute::Run) {
        seen.push(format!("{s:?}"));
        s = execute_next(&p, s, Ok(()));
    }
    assert_eq!(
        seen,
        vec!["RequireNode(0)", "RequireNode(1)", "CheckKey", "BuildEngine"]
    );
    let unknown = fail(ErrorKind::Other, "no node 5");
    match execute_next(&p, Execute::RequireNode(0), Err(unknown)) {
        Execute::Fail(e) => assert_eq!(e.kind, ErrorKind::Other),
        other => panic!("{other:?}"),
    }
}

#[test]
fn run_with_engine_provision_attaches_direct_path_note() {
    assert!(provision_note().contains("restart"));
    let e = fail(ErrorKind::StoreMissing, "x");
    assert_eq!(map_engine_build_error(e).kind, ErrorKind::StoreMissing);
}

#[test]
fn device_failure_body_carries_kind_and_detail() {
    let e = fail(ErrorKind::Unreachable, "Node 15 is unreachable");
    let got: serde_json::Value = serde_json::from_str(&render(&device_failure_body(&e))).unwrap();
    let want: serde_json::Value = serde_json::from_str(
        r#"{ "removed": false, "error": { "kind": "unreachable", "detail": "Node 15 is unreachable" } }"#,
    )
    .unwrap();
    assert_eq!(got, want);
}

#[test]
fn forced_unpair_goes_on_without_the_device() {
    let gone = || Err(fail(ErrorKind::Unreachable, "gone"));
    assert!(device_part(gone(), false).is_err());
    let device = device_part(gone(), true).unwrap();
    assert_eq!(device.get("removed"), Some(&Json::Bool(false)));
    let body = unpair_body(15, &vec!["lamp".to_string()], device, true);
    assert_eq!(body.get("node_id"), Some(&Json::UInt(15)));
    assert_eq!(
        body.get("ledger").unwrap().get("removed"),
        Some(&Json::Bool(true))
    );
}

#[test]
fn cfid_hex_formats_16_uppercase_hex() {
    let cfid: [u8; 8] = [0x00, 0xAA, 0xBB, 0x11, 0x22, 0xCC, 0x33, 0x44];
    assert_eq!(cfid_hex(&cfid), "00AABB1122CC3344");
}

#[test]
fn search_fails_only_where_no_node_could_be_asked() {
    let cfid = [0xAB; 8];
    let found = resolve_ledger_nodes(
        vec![
            (1, Resolution::Found(vec!["fd00::1".to_string()])),
            (2, Resolution::Io),
            (3, Resolution::Silent),
        ],
        &cfid,
    )
    .unwrap();
    assert_eq!(found, vec![instance("ABABABABABABABAB", 1, "fd00::1")]);
    let e = resolve_ledger_nodes(vec![(1, Resolution::Io), (2, Resolution::Io)], &cfid);
    assert_eq!(
        e.unwrap_err(),
        "all ledger node resolves failed with an I/O error"
    );
    assert_eq!(
        resolve_ledger_nodes(vec![], &cfid).unwrap(),
        Vec::<MatterInstance>::new()
    );
    assert_eq!(mdns_error("eth0", "x").kind, ErrorKind::Unreachable);
}

#[test]
fn decode_hex_rejects_odd_length() {
    assert_eq!(decode_hex("abc"), None);
}

#[test]
fn decode_hex_rejects_empty() {
    assert_eq!(decode_hex(""), None);
}

#[test]
fn decode_hex_parses_valid_bytes() {
    assert_eq!(decode_hex("0e08"), Some(vec![0x0e, 0x08]));
}

#[test]
fn decode_hex_rejects_non_ascii_without_panicking() {
    assert_eq!(decode_hex("aéa"), None);
}

#[test]
fn paa_none_when_unset_and_no_default_dir() {
    assert_eq!(
        certificate_dir(None, "/s/paa-trust-store".to_string(), false),
        None
    );
}

#[test]
fn paa_uses_default_dir_when_present() {
    let dir = "/s/paa-trust-store".to_string();
    assert_eq!(certificate_dir(None, dir.clone(), true), Some(dir));
}

#[test]
fn cd_signer_none_when_unset_and_no_default_dir() {
    assert_eq!(
        certificate_dir(None, "/s/cd-signer-store".to_string(), false),
        None
    );
}

#[test]
fn cd_signer_uses_default_dir_when_present() {
    let dir = "/s/cd-signer-store".to_string();
    assert_eq!(certificate_dir(None, dir.clone(), true), Some(dir));
    assert_eq!(
        certificate_dir(Some("/env".to_string()), "/s/x".to_string(), false),
        Some("/env".to_string())
    );
}

#[test]
fn new_node_gets_the_next_number() {
    assert_eq!(next_node_id(&vec![]), 1);
    assert_eq!(next_node_id(&vec![3, 9, 4]), 10);
    let q = native_commission(
        true,
        "34970112332",
        None,
        &vec![3, 9],
        &Some("0e08".to_string()),
        (None, None),
        Transport::Auto,
    )
    .unwrap();
    assert_eq!(q.device_node_id, 10);
    assert_eq!(q.thread_dataset, Some(vec![0x0e, 0x08]));
    let e = thread_dataset(&Some("xy".to_string())).unwrap_err();
    assert_eq!(e.detail, "invalid --thread-dataset: expected hex bytes");
    let e = native_commission(
        false,
        "1",
        Some(1),
        &vec![],
        &None,
        (None, None),
        Transport::Auto,
    )
    .unwrap_err();
    assert!(e.detail.contains("not configured"), "{}", e.detail);
    assert_eq!(
        alias_write_error(5, "lamp", fail(ErrorKind::Other, "disk full")).detail,
        "node 5 was commissioned, but writing alias 'lamp' failed: disk full"
    );
    assert_eq!(
        record_success(5).get("status"),
        Some(&Json::text("success"))
    );
}

fn record(node_id: u64) -> NodeRecord {
    NodeRecord {
        node_id,
        address: Some("192.0.2.1".to_string()),
        commissioned_at: "2026-01-01T00:00:00Z".to_string(),
    }
}

#[test]
fn devices_list_offers_then_the_ledger() {
    let offer = Json::object().with("discriminator", Json::UInt(3840));
    let nodes = vec![record(1), record(2), record(3), record(4)];
    let reach = vec![
        Reach::NotAsked,
        Reach::Unknown,
        reach_of(true, true, true, Some("fd00::3".to_string())),
        reach_of(true, true, false, None),
    ];
    let body = run(Some("eth0"), Ok(vec![offer]), &nodes, &reach).unwrap();
    let got: serde_json::Value = serde_json::from_str(&render(&body)).unwrap();
    let want: serde_json::Value = serde_json::from_str(
        r#"{"devices": [
            {"discriminator": 3840, "state": "commissionable"},
            {"state": "commissioned", "node_id": 1, "commissioned_at": "2026-01-01T00:00:00Z",
             "address": "192.0.2.1"},
            {"state": "commissioned", "node_id": 2, "commissioned_at": "2026-01-01T00:00:00Z",
             "address": "192.0.2.1", "reachable": null},
            {"state": "commissioned", "node_id": 3, "commissioned_at": "2026-01-01T00:00:00Z",
             "address": "fd00::3", "reachable": true},
            {"state": "commissioned", "node_id": 4, "commissioned_at": "2026-01-01T00:00:00Z",
             "address": "192.0.2.1", "reachable": false, "stale": true}
        ]}"#,
    )
    .unwrap();
    assert_eq!(got, want);
    let e = run(Some("eth0"), Err("boom".to_string()), &vec![], &vec![]).unwrap_err();
    assert_eq!(e.kind, ErrorKind::Unreachable);
    assert_eq!(
        e.detail,
        "native commissionable browse failed on eth0: boom"
    );
    let e = run(None, Ok(vec![]), &vec![], &vec![]).unwrap_err();
    assert_eq!(e.kind, ErrorKind::Other);
}

#[test]
fn fabric_reports_and_failures() {
    let cfid = [0x0A; 8];
    let body = init_body("/s", 1, 2, &cfid, 112233);
    assert_eq!(
        body.get("compressed_fabric_id"),
        Some(&Json::text("0A0A0A0A0A0A0A0A"))
    );
    assert_eq!(init_error(true, "x", "/s").kind, ErrorKind::Other);
    assert_eq!(init_error(false, "x", "/s").kind, ErrorKind::StoreParse);
    assert_eq!(store_dir_error("/s", "x").kind, ErrorKind::StoreMissing);
    let unread = |missing| ListFailure {
        missing,
        detail: "x".to_string(),
    };
    assert_eq!(list_error(&unread(true), "/s/i").kind, ErrorKind::StoreMissing);
    assert_eq!(list_error(&unread(false), "/s/i").detail, "fabric list: x");
    assert_eq!(generate_error("x").detail, "fabric generate: x");
    let facts = FabricFacts {
        fabric_index: 2,
        fabric_id: 1,
        admin_node_id: 112233,
        cfid,
        own_epoch: true,
        rotation_pending: false,
    };
    let entry = list_entry(&facts, 2);
    assert_eq!(entry.get("fabric_index"), Some(&Json::UInt(2)));
    let facts_of = |i| FabricFacts {
        fabric_index: i,
        fabric_id: 1,
        admin_node_id: 112233,
        cfid,
        own_epoch: false,
        rotation_pending: true,
    };
    let list = run_list(Ok(vec![Ok(facts_of(1)), Ok(facts_of(2))]), "/s/i", 2).unwrap();
    assert_eq!(list.len(), 2);
    assert_eq!(list[0].get("current"), Some(&Json::Bool(false)));
    assert_eq!(list[1].get("current"), Some(&Json::Bool(true)));
    assert_eq!(list[1].get("ipk_epoch"), Some(&Json::text("chip-tool")));
    let e = run_list(Ok(vec![Ok(facts_of(1)), Err(unread(false))]), "/s/i", 2).unwrap_err();
    assert_eq!(e.kind, ErrorKind::StoreParse);
    assert_eq!(
        run_list(Err(unread(true)), "/s/i", 2).unwrap_err().detail,
        "/s/i not found — run `mat fabric init` to bootstrap the credential store"
    );
    assert_eq!(rotate_mode(true, true), RotateMode::Abort);
    assert_eq!(rotate_mode(true, false), RotateMode::CatchUp);
    assert_eq!(rotate_mode(false, false), RotateMode::Rotate);
    assert_eq!(rotate_nodes(vec![], vec![4]), vec![4]);
    assert_eq!(rotate_nodes(vec![5], vec![4]), vec![5]);
}

#[test]
fn rotation_takes_the_ledger_where_no_node_is_given() {
    let p = run_rotate_ipk(true, vec![], &vec![], vec![4, 5], (false, false), 30_000).unwrap();
    assert_eq!(p.node_ids, vec![4, 5]);
    assert_eq!(p.per_node_timeout_ms, 30_000);
    let unknown = || Err(fail(ErrorKind::Other, "no node 9"));
    let e = run_rotate_ipk(
        true,
        vec![4, 9],
        &vec![Ok(()), unknown()],
        vec![4],
        (true, false),
        0,
    )
    .unwrap_err();
    assert_eq!(e.detail, "no node 9");
    let e = run_rotate_ipk(false, vec![], &vec![], vec![], (false, false), 0).unwrap_err();
    assert!(e.detail.contains("not configured"), "{}", e.detail);
    let (body, r) = rotate_finished(Err(fail(ErrorKind::StoreMissing, "no kvs")), 1, None);
    assert!(body.is_none());
    assert_eq!(
        r.unwrap_err().detail,
        "no kvs — run `mat fabric init` to bootstrap the credential store"
    );
    let pending = RotateOutcome {
        status: RotateStatus::Pending,
        nodes: vec![NodeOutcome {
            node_id: 6,
            error: Some(fail(ErrorKind::Unreachable, "node 6: establish: x")),
        }],
    };
    let (body, r) = rotate_finished(Ok(pending), 1, None);
    assert_eq!(body.unwrap().get("status"), Some(&Json::text("pending")));
    assert_eq!(r.unwrap_err().kind, ErrorKind::Unreachable);
}

#[test]
fn child_processes_fail_by_cause() {
    let out = |code| RunOutput {
        stdout: String::new(),
        stderr: String::new(),
        code,
    };
    assert!(out(Some(0)).success());
    assert!(!out(Some(1)).success());
    assert!(!out(None).success());
    let missing = spawn_error(SpawnFailure::NotFound, "chip-tool", "x");
    assert_eq!(missing.kind, ErrorKind::ChildNotFound);
    assert_eq!(
        missing.detail,
        "chip-tool binary not found (\"chip-tool\"); set MAT_CHIP_TOOL_BIN or add it to PATH"
    );
    assert_eq!(
        run_arguments(vec!["onoff".to_string()], "/s"),
        vec!["onoff", "--storage-directory", "/s"]
    );
    assert_ne!(
        spawn_error(SpawnFailure::Other, "chip-tool", "x").kind,
        missing.kind
    );
}

#[test]
fn json_is_read_and_written() {
    let text = r#"{"a":[1,-2,2.5,"x\n",null,true],"b":{"c":18446744073709551615}}"#;
    let j = parse(text).unwrap();
    assert_eq!(render(&j), text);
    let list = j.get("a").unwrap().as_array().unwrap();
    assert_eq!(list[0].as_u64(), Some(1));
    assert_eq!(list[1], Json::Int(-2));
    assert_eq!(list[3].as_str(), Some(&"x\n".to_string()));
    assert_eq!(list[5].as_bool(), Some(true));
    assert_eq!(
        j.get("b").unwrap().u64_field("c"),
        Some(18446744073709551615)
    );
    assert!(parse("{").is_err());
    assert!(parse("1 2").is_err());
    assert_eq!(render(&u64_list(&vec![1, 2])), "[1,2]");
    assert_eq!(render(&text_list(&vec!["a\"b".to_string()])), "[\"a\\\"b\"]");
    let e = error_object(&fail(ErrorKind::Timeout, "late"));
    let v: serde_json::Value = serde_json::from_str(&render(&e)).unwrap();
    let w: serde_json::Value =
        serde_json::from_str(r#"{"kind":"timeout","detail":"late"}"#).unwrap();
    assert_eq!(v, w);
}

#[test]
fn error_kinds_have_their_names_both_ways() {
    for k in [
        ErrorKind::Timeout,
        ErrorKind::Unreachable,
        ErrorKind::DeviceRejected,
        ErrorKind::MatdUnavailable,
        ErrorKind::StoreMissing,
    ] {
        assert_eq!(ErrorKind::from_name(k.as_str()), Some(k));
    }
    assert_eq!(ErrorKind::from_name("nonsense"), None);
}

#[test]
fn reload_is_reported_after_a_change_over() {
    let outcome = |status| {
        Ok(RotateOutcome {
            status,
            nodes: vec![],
        })
    };
    assert!(reload_due(&outcome(RotateStatus::Rotated)));
    for status in [
        RotateStatus::Pending,
        RotateStatus::CaughtUp,
        RotateStatus::CatchUpIncomplete,
        RotateStatus::Aborted,
        RotateStatus::Idle,
    ] {
        assert!(!reload_due(&outcome(status)));
        let (body, _) = rotate_finished(outcome(status), 1, Some(MatdReload::Reloaded));
        assert_eq!(body.unwrap().get("matd_reload"), None);
    }
    assert!(!reload_due(&Err(fail(ErrorKind::Other, "x"))));
    for (reload, word) in [
        (MatdReload::Reloaded, "reloaded"),
        (MatdReload::NotRunning, "not_running"),
        (MatdReload::Failed, "failed"),
    ] {
        let (body, r) = rotate_finished(outcome(RotateStatus::Rotated), 1, Some(reload));
        assert_eq!(body.unwrap().get("matd_reload"), Some(&Json::text(word)));
        assert!(r.is_ok());
    }
}

#[test]
fn dataset_is_made_of_digits_only() {
    assert_eq!(decode_hex("+0"), None);
    let e = thread_dataset(&Some("+0".repeat(16))).unwrap_err();
    assert_eq!(e.detail, "invalid --thread-dataset: expected hex bytes");
}

#[test]
fn address_is_asked_by_ping6() {
    let deep = deep_probes::<u8>(
        5,
        &Some("fd00::5".to_string()),
        Ok(Ping6Stats {
            loss_pct: 0,
            rtt_ms: 4,
        }),
        &Some("AA".to_string()),
        Ok(vec![instance("AA", 5, "fd00::5")]),
    );
    let ip = deep.ip.unwrap();
    assert!(ip.ok && ip.rtt_ms == 4);
    assert_eq!(ip.method(), "ping6");
}

#[test]
fn first_of_equally_frequent_kinds_is_dominant() {
    let items = vec![
        item(1, ErrorKind::Other),
        item(2, ErrorKind::Unreachable),
        item(3, ErrorKind::Timeout),
        item(4, ErrorKind::Timeout),
        item(5, ErrorKind::Unreachable),
    ];
    assert_eq!(dominant_error(&items).kind, ErrorKind::Unreachable);
}

fn thread_cluster(endpoint: u16) -> Call {
    Call::ReadCluster {
        endpoint,
        cluster: 0x0035,
    }
}

#[test]
fn diagnosis_reads_thread_whatever_the_parts_gave() {
    let (s, call) = diag_im(1, Some((0x001D, 3)));
    assert_eq!(
        call,
        Call::ReadJson {
            endpoint: 0,
            cluster: 0x001D,
            attribute: 3
        }
    );
    let silent = || fail(ErrorKind::Timeout, "silent");
    match diag_im_next(1, s, Reply::Value(Err(silent()))) {
        Progress::Call(s, call) => {
            assert_eq!(call, thread_cluster(1));
            let reads = ImReads {
                parts: Some(Err(silent())),
                rows: Ok(vec![]),
            };
            assert_eq!(
                diag_im_next(1, s, Reply::Rows(Ok(vec![]))),
                Progress::Done(reads)
            );
        }
        other => panic!("{other:?}"),
    }
    assert_eq!(diag_im(2, None), (ImPhase::Rows(None), thread_cluster(2)));
    match diag_im_next(2, ImPhase::Rows(None), Reply::Rows(Err(silent()))) {
        Progress::Done(reads) => {
            let p = diag_im_with_engine(&[0; 8], Ok(reads), &attrs());
            assert_eq!(p.op_kind, Some(ErrorKind::Other));
            assert_eq!(p.thread, Err(ErrorKind::Timeout));
        }
        other => panic!("{other:?}"),
    }
}

#[test]
fn mesh_probe_asks_for_interfaces_only_behind_thread() {
    let (s, call) = mesh_probe();
    assert_eq!(call, thread_cluster(0));
    let e = fail(ErrorKind::Unreachable, "gone");
    assert_eq!(
        mesh_probe_next(&attrs(), MeshPhase::Rows, Reply::Rows(Err(e.clone()))),
        Progress::Fail(e.clone())
    );
    match mesh_probe_next(&attrs(), s, Reply::Rows(Ok(vec![]))) {
        Progress::Call(s, call) => {
            assert_eq!(
                call,
                Call::ReadJson {
                    endpoint: 0,
                    cluster: 0x0033,
                    attribute: 0
                }
            );
            match mesh_probe_next(&attrs(), s, Reply::Value(Err(e))) {
                Progress::Done(d) => assert!(d.identity.is_none()),
                other => panic!("{other:?}"),
            }
        }
        other => panic!("{other:?}"),
    }
}

#[test]
fn ping_tool_is_run_and_read() {
    assert_eq!(
        ping6_arguments("fd00::5"),
        vec!["-c", "3", "-W", "2", "fd00::5"]
    );
    let stats = || Ping6Stats {
        loss_pct: 33,
        rtt_ms: 7u8,
    };
    assert_eq!(probe_ping6("ping6", Ok(Some(stats()))).unwrap(), stats());
    let e = probe_ping6::<u8>("ping6", Ok(None)).unwrap_err();
    assert_eq!(e.kind, ErrorKind::ParseError);
    assert_eq!(e.detail, "ping6 output unparseable");
    let e = probe_ping6::<u8>("p6", Err((true, String::new()))).unwrap_err();
    assert_eq!(e.kind, ErrorKind::ChildNotFound);
    assert_eq!(e.detail, "ping6 not found (\"p6\")");
}
