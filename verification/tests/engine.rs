//! Building the engine, its sessions, and the failures of both.
use mat::engine::{
    check_identity, load_fabric_credentials, load_self_issue_materials, op_scope_id,
    self_issue_credentials, thread_egress_decision, Build, BuildAction, BuildEvent,
    CaseEstablisher, EngineParts, FabricCredentials, NativeConfig, SubscriptionInfo,
    ThreadIfaceChoice,
};
use mat::errmap::{
    map_commission_err, map_establish_err, map_resolve_err, map_session_err, DnssdClass,
    DnssdFailure, EstablishFailure, EstablishRole, ImClass, SessionClass, SessionFailure,
    WindowClass,
};
use mat::error::{ErrorKind, MatError};
use mat::session::{
    answered, answered_fields, establish_raw, invoke_request, next_report_full, read_onoff,
    reload_unsupported, subscribe_spec, subscribed, subscription_unsupported, timed_ms,
    EstablishAction, EstablishEvent, ImAnswer, InvokeRequest,
};

#[test]
fn thread_egress_explicit_failure_is_hard_error() {
    let r = thread_egress_decision(
        "eth0",
        &Some(ThreadIfaceChoice::Explicit("wpan9".into())),
        |_| Err("no such iface".into()),
    );
    assert!(r.is_err());
}

#[test]
fn thread_egress_auto_failure_degrades_to_lan_only() {
    let r = thread_egress_decision(
        "eth0",
        &Some(ThreadIfaceChoice::Auto("wpan0".into())),
        |_| Err("no such iface".into()),
    );
    assert_eq!(r.unwrap(), None);
}

#[test]
fn thread_egress_resolved_returns_scope() {
    let r = thread_egress_decision(
        "eth0",
        &Some(ThreadIfaceChoice::Auto("wpan0".into())),
        |_| Ok(7),
    );
    assert_eq!(r.unwrap(), Some(("wpan0".into(), 7)));
}

#[test]
fn thread_egress_none_is_lan_only() {
    let r = thread_egress_decision("eth0", &None, |_| unreachable!());
    assert_eq!(r.unwrap(), None);
}

#[test]
fn thread_egress_same_as_op_iface_is_skipped_without_resolving_auto() {
    let r = thread_egress_decision(
        "wpan0",
        &Some(ThreadIfaceChoice::Auto("wpan0".into())),
        |_| unreachable!("resolve must not be called when thread iface == op iface"),
    );
    assert_eq!(r.unwrap(), None);
}

#[test]
fn thread_egress_same_as_op_iface_is_skipped_without_resolving_explicit() {
    let r = thread_egress_decision(
        "wpan0",
        &Some(ThreadIfaceChoice::Explicit("wpan0".into())),
        |_| unreachable!("resolve must not be called when thread iface == op iface"),
    );
    assert_eq!(r.unwrap(), None);
}

#[test]
fn load_fabric_credentials_maps_missing_store_to_store_missing() {
    let read: Result<Result<(), String>, String> = Err("not found".to_string());
    let err = load_fabric_credentials(read).unwrap_err();
    assert_eq!(err.kind, ErrorKind::StoreMissing);
    let issued: Result<Result<(), String>, String> = Ok(Err("bad curve".to_string()));
    assert_eq!(
        load_fabric_credentials(issued).unwrap_err().kind,
        ErrorKind::StoreParse
    );
    let ok: Result<Result<u8, String>, String> = Ok(Ok(3));
    assert_eq!(load_fabric_credentials(ok).unwrap(), 3);
}

#[test]
fn load_self_issue_materials_hints_fabric_init_on_missing_store() {
    let read: Result<(), String> = Err("no such file".to_string());
    let err = load_self_issue_materials(read).unwrap_err();
    assert_eq!(err.kind, ErrorKind::StoreMissing);
    assert!(
        err.detail.starts_with("native: read KVS credentials: "),
        "{}",
        err.detail
    );
    assert!(
        err.detail.ends_with(" — run `mat fabric init`"),
        "{}",
        err.detail
    );
    let bad: Result<(), String> = Err("x".to_string());
    assert_eq!(
        self_issue_credentials(bad).unwrap_err().kind,
        ErrorKind::StoreParse
    );
}

#[test]
fn op_scope_id_maps_unknown_iface_to_other() {
    let err = op_scope_id("no-such-iface-at-all", Err("no such device".to_string())).unwrap_err();
    assert_eq!(err.kind, ErrorKind::Other);
    assert!(
        err.detail
            .starts_with("native: resolve iface \"no-such-iface-at-all\" index: "),
        "{}",
        err.detail
    );
    assert_eq!(op_scope_id("eth0", Ok(2)).unwrap(), 2);
}

#[test]
fn quoting_escapes_what_it_must() {
    let err = op_scope_id("a\"b\\c", Err("x".to_string())).unwrap_err();
    assert_eq!(err.detail, "native: resolve iface \"a\\\"b\\\\c\" index: x");
}

fn config(thread_iface: Option<ThreadIfaceChoice>) -> NativeConfig {
    NativeConfig {
        store: "/store".to_string(),
        iface: "eth0".to_string(),
        thread_iface,
        fabric_index: 1,
        issuer_index: 0,
    }
}

#[test]
fn build_fails_cleanly_without_kvs() {
    let (mut b, first) = Build::new(config(None));
    assert_eq!(first, BuildAction::LoadCredentials);
    let missing = MatError::new(ErrorKind::StoreMissing, "none".to_string());
    match b.step(BuildEvent::Credentials(Err(missing))) {
        BuildAction::Fail(e) => assert!(
            matches!(
                e.kind,
                ErrorKind::StoreMissing | ErrorKind::StoreParse | ErrorKind::Other
            ),
            "unexpected kind: {:?}",
            e.kind
        ),
        other => panic!("{other:?}"),
    }
}

#[test]
fn build_without_thread_is_ready_after_the_transport() {
    let (mut b, _) = Build::new(config(None));
    assert_eq!(
        b.step(BuildEvent::Credentials(Ok(()))),
        BuildAction::ResolveScope
    );
    assert_eq!(b.step(BuildEvent::Scope(Ok(2))), BuildAction::BindTransport);
    assert_eq!(
        b.step(BuildEvent::Bound(Ok(()))),
        BuildAction::Ready(EngineParts {
            scope_id: 2,
            thread_egress: false,
            thread_retry: true
        })
    );
}

#[test]
fn build_with_thread_opens_the_second_egress() {
    let (mut b, _) = Build::new(config(Some(ThreadIfaceChoice::Explicit("wpan0".into()))));
    b.step(BuildEvent::Credentials(Ok(())));
    b.step(BuildEvent::Scope(Ok(2)));
    assert_eq!(
        b.step(BuildEvent::Bound(Ok(()))),
        BuildAction::ResolveThread
    );
    assert_eq!(
        b.step(BuildEvent::ThreadIndex(Ok(5))),
        BuildAction::OpenThread("wpan0".to_string(), 5)
    );
    match b.step(BuildEvent::ThreadOpened(Err("denied".to_string()))) {
        BuildAction::Fail(e) => {
            assert_eq!(e.detail, "native: bind thread egress socket: denied")
        }
        other => panic!("{other:?}"),
    }
}

fn fake_creds(ipk: [u8; 16], fabric_id: u64, node_id: u64, root: [u8; 65]) -> FabricCredentials {
    FabricCredentials {
        fabric_id,
        node_id,
        root_public_key: root.to_vec(),
        ipk_operational: ipk.to_vec(),
    }
}

#[test]
fn establisher_reload_is_unsupported_by_default() {
    let err = reload_unsupported();
    assert_eq!(err.kind, ErrorKind::Other);
    assert!(
        err.detail.contains("not supported"),
        "detail={}",
        err.detail
    );
}

#[test]
fn default_establisher_rejects_subscription() {
    let err = subscription_unsupported();
    assert_eq!(err.kind, ErrorKind::Other);
    assert!(err.detail.contains("subscription"));
}

#[test]
fn check_identity_accepts_same_fabric_and_rejects_changes() {
    let a = fake_creds([0xCC; 16], 0x1234, 0x1B669, [0xAA; 65]);
    let b = fake_creds([0xDD; 16], 0x1234, 0x1B669, [0xAA; 65]);
    check_identity(&a, &b).expect("ipk change alone is fine");
    for (label, other) in [
        (
            "fabric_id",
            fake_creds([0xCC; 16], 0x9999, 0x1B669, [0xAA; 65]),
        ),
        ("node_id", fake_creds([0xCC; 16], 0x1234, 0x77, [0xAA; 65])),
        (
            "root key",
            fake_creds([0xCC; 16], 0x1234, 0x1B669, [0xAB; 65]),
        ),
    ] {
        let err = check_identity(&a, &other).unwrap_err();
        assert_eq!(err.kind, ErrorKind::Other, "{label}");
        assert!(
            err.detail.contains("restart matd"),
            "{label}: {}",
            err.detail
        );
    }
}

#[test]
fn case_establisher_swap_reports_ipk_change() {
    let mut est = CaseEstablisher {
        creds: fake_creds([0xCC; 16], 1, 2, [0xAA; 65]),
    };
    assert!(!est.swap_credentials(fake_creds([0xCC; 16], 1, 2, [0xAA; 65])));
    assert!(est.swap_credentials(fake_creds([0xDD; 16], 1, 2, [0xAA; 65])));
    assert_eq!(est.creds.ipk_operational, [0xDD; 16]);
}

#[test]
fn case_establisher_reload_maps_missing_store_to_store_missing() {
    let mut est = CaseEstablisher {
        creds: fake_creds([0xCC; 16], 1, 2, [0xAA; 65]),
    };
    let read: Result<Result<FabricCredentials, String>, String> = Err("not found".to_string());
    let err = est
        .reload_credentials(load_fabric_credentials(read))
        .unwrap_err();
    assert_eq!(err.kind, ErrorKind::StoreMissing);
    assert_eq!(est.creds.ipk_operational, [0xCC; 16]);
}

#[test]
fn case_establisher_reload_over_real_kvs_is_false_when_unchanged() {
    let mut est = CaseEstablisher {
        creds: fake_creds([0xCC; 16], 0x1234, 112233, [0xAA; 65]),
    };
    let fresh = fake_creds([0xCC; 16], 0x1234, 112233, [0xAA; 65]);
    assert!(!est.reload_credentials(Ok(fresh)).expect("intact store"));
    assert_eq!(est.creds.ipk_operational, [0xCC; 16]);
}

#[test]
fn case_establisher_reload_over_real_kvs_picks_up_a_rotated_ipk() {
    let mut est = CaseEstablisher {
        creds: fake_creds([0xCC; 16], 0x1234, 112233, [0xAA; 65]),
    };
    let fresh = fake_creds([0x5A; 16], 0x1234, 112233, [0xAA; 65]);
    assert!(est
        .reload_credentials(Ok(fresh))
        .expect("reload after a commit"));
    assert_eq!(est.creds.ipk_operational, [0x5A; 16]);
}

#[test]
fn case_establisher_reload_over_real_kvs_rejects_a_different_fabric() {
    let mut est = CaseEstablisher {
        creds: fake_creds([0xCC; 16], 0x1234, 112233, [0xAA; 65]),
    };
    let other = fake_creds([0xEE; 16], 0x9999, 112233, [0xAB; 65]);
    let err = est.reload_credentials(Ok(other)).unwrap_err();
    assert_eq!(err.kind, ErrorKind::Other);
    assert!(err.detail.contains("restart matd"), "detail={}", err.detail);
    assert_eq!(est.creds.ipk_operational, [0xCC; 16]);
}

fn dnssd(class: DnssdClass, text: &str) -> DnssdFailure {
    DnssdFailure {
        class,
        text: text.to_string(),
    }
}

fn session(class: SessionClass) -> SessionFailure {
    SessionFailure {
        class,
        text: "session".to_string(),
    }
}

#[test]
fn resolve_timeout_maps_to_timeout_kind() {
    let e = map_resolve_err(5, dnssd(DnssdClass::Timeout, "x"));
    assert_eq!(e.kind, ErrorKind::Timeout);
    assert!(e.detail.contains("node 5"), "detail: {}", e.detail);
    let e = map_resolve_err(5, dnssd(DnssdClass::Io, "boom"));
    assert_eq!(e.kind, ErrorKind::Unreachable);
    let e = map_resolve_err(5, dnssd(DnssdClass::Malformed, "bad"));
    assert_eq!(e.kind, ErrorKind::Unreachable);
}

#[test]
fn map_session_err_maps_malformed_message_to_parse_error() {
    let e = map_session_err(session(SessionClass::Message));
    assert_eq!(e.kind, ErrorKind::ParseError);
}

#[test]
fn map_session_err_splits_im_decode_failure_from_device_rejection() {
    for c in [ImClass::Malformed, ImClass::UnsupportedValue, ImClass::Tlv] {
        let e = map_session_err(session(SessionClass::Im(c)));
        assert_eq!(e.kind, ErrorKind::ParseError);
    }
    for c in [
        ImClass::StatusResponse,
        ImClass::AttributeStatus,
        ImClass::CommandStatus,
    ] {
        let e = map_session_err(session(SessionClass::Im(c)));
        assert_eq!(e.kind, ErrorKind::DeviceRejected);
    }
}

#[test]
fn invalid_argument_maps_to_parse_error() {
    let e = map_commission_err(
        WindowClass::InvalidArgument,
        "iterations must be in 1000..=100000",
    );
    assert_eq!(e.kind, ErrorKind::ParseError);
}

#[test]
fn establish_failures_name_the_role() {
    let e = map_establish_err(5, EstablishRole::Op, EstablishFailure::NoAddresses);
    assert_eq!(e.kind, ErrorKind::Unreachable);
    assert_eq!(e.detail, "native: no addresses resolved for node 5");
    let e = map_establish_err(
        5,
        EstablishRole::Subscription,
        EstablishFailure::Bind("in use".to_string()),
    );
    assert_eq!(e.detail, "native: bind subscription udp: in use");
    let e = map_establish_err(
        5,
        EstablishRole::Subscription,
        EstablishFailure::AllFailed("case failed".to_string()),
    );
    assert_eq!(e.kind, ErrorKind::SessionFailed);
    assert_eq!(e.detail, "native: subscription case failed");
}

#[test]
fn session_is_looked_up_then_opened() {
    let role = EstablishRole::Op;
    assert_eq!(
        establish_raw(5, role, EstablishEvent::Resolved(Ok(()))),
        EstablishAction::Open
    );
    assert_eq!(
        establish_raw(5, role, EstablishEvent::Opened(Ok(()))),
        EstablishAction::Ready
    );
    match establish_raw(
        5,
        role,
        EstablishEvent::Resolved(Err(dnssd(DnssdClass::Timeout, "x"))),
    ) {
        EstablishAction::Fail(e) => {
            assert_eq!(e.kind, ErrorKind::Timeout);
            assert_eq!(e.detail, "native: mDNS resolve node 5: x");
        }
        other => panic!("{other:?}"),
    }
}

#[test]
fn on_off_answer_must_be_a_bool() {
    assert!(read_onoff(Ok(ImAnswer::Bool(true))).unwrap());
    let e = read_onoff(Ok(ImAnswer::Other("UInt(3)".to_string()))).unwrap_err();
    assert_eq!(e.kind, ErrorKind::ParseError);
    assert_eq!(e.detail, "native: on-off not a bool: UInt(3)");
    let e = read_onoff(Err(session(SessionClass::Timeout))).unwrap_err();
    assert_eq!(e.kind, ErrorKind::Timeout);
}

#[test]
fn timed_command_takes_the_way_of_those_with_an_answer() {
    assert_eq!(timed_ms(true), Some(10_000));
    assert_eq!(timed_ms(false), None);
    assert_eq!(invoke_request(false), InvokeRequest::Plain);
    assert_eq!(invoke_request(true), InvokeRequest::ForData(Some(10_000)));
    assert_eq!(
        answered_fields(Ok(None)).unwrap(),
        Vec::<u8>::new()
    );
    assert_eq!(answered(Ok::<u8, SessionFailure>(1)).unwrap(), 1);
}

#[test]
fn silence_between_reports_is_no_failure() {
    let waited: Result<u8, SessionFailure> = Err(session(SessionClass::Silence));
    assert_eq!(next_report_full(waited).unwrap(), None);
    assert_eq!(
        next_report_full(Ok::<u8, SessionFailure>(7)).unwrap(),
        Some(7)
    );
    let broken: Result<u8, SessionFailure> = Err(session(SessionClass::Io));
    assert_eq!(
        next_report_full(broken).unwrap_err().kind,
        ErrorKind::Unreachable
    );
}

#[test]
fn subscription_keeps_the_fixed_policy() {
    let s = subscribe_spec(vec![6, 8], vec![], Some(41));
    assert_eq!(s.min_interval_floor_s, 0);
    assert_eq!(s.max_interval_ceiling_s, 300);
    assert!(!s.keep_subscriptions);
    assert_eq!(s.clusters, vec![6, 8]);
    assert_eq!(s.event_min, Some(41));
    assert_eq!(
        subscribed(Ok((9, 300))).unwrap(),
        SubscriptionInfo {
            subscription_id: 9,
            max_interval_s: 300
        }
    );
}
