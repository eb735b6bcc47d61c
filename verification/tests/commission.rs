//! Taking a device in: its routes, its failures and the keys.
use mat::commission::{
    ble_precheck, ble_usable, commission, commission_error, compose_failure, discover_manual, discover_qr,
    epoch_adopted, epoch_default_tested, epoch_derived, epoch_read, is_dead_end, kind_of,
    parse_code, pick_by_short_strict, plan_routes, run_route, short_detail, Address, CaseClass,
    Code, CommissionAction, CommissionClass, CommissionEvent, CommissionFailure,
    CommissionRequest, CommissionTarget,
    CommissionableInstance, Discovered, EpochAction, EpochChoice, PaseClass, PlanAction, PlanRun,
    Route, RouteFail, RouteOutcome, Transport,
};
use mat::errmap::{DnssdClass, DnssdFailure, ImClass, SessionClass};
use mat::error::{ErrorKind, MatError};

fn fake_commissionable(d: u32) -> CommissionableInstance {
    CommissionableInstance {
        port: Some(5540),
        addresses: vec![Address {
            segments: [0xfd00, 0, 0, 0, 0, 0, 0, 1],
            text: "fd00::1".to_string(),
        }],
        discriminator: Some(d),
    }
}

fn pick_by_short(list: &Vec<CommissionableInstance>, short: u8) -> Option<&CommissionableInstance> {
    match pick_by_short_strict(list, short) {
        Ok(Some(i)) => Some(&list[i]),
        _ => None,
    }
}

#[test]
fn error_kind_mapping_follows_spec() {
    assert_eq!(
        kind_of(&CommissionClass::Timeout("pase".to_string())),
        ErrorKind::Timeout
    );
    assert_eq!(
        kind_of(&CommissionClass::CommandStatus),
        ErrorKind::DeviceRejected
    );
    assert_eq!(kind_of(&CommissionClass::Malformed), ErrorKind::ParseError);
    assert_eq!(
        kind_of(&CommissionClass::NetworkConfig),
        ErrorKind::Unreachable
    );
    assert_eq!(
        kind_of(&CommissionClass::Attestation),
        ErrorKind::DeviceRejected
    );
    assert_eq!(kind_of(&CommissionClass::Noc), ErrorKind::DeviceRejected);
    assert_eq!(kind_of(&CommissionClass::Csr), ErrorKind::ParseError);
    assert_eq!(
        kind_of(&CommissionClass::Ble {
            step: "gatt".to_string(),
            detail: "x".to_string()
        }),
        ErrorKind::CommissionFailed
    );
}

#[test]
fn kind_of_splits_timeout_and_rejection_out_of_commission_failed() {
    assert_eq!(
        kind_of(&CommissionClass::Pase(PaseClass::ExchangeTimeout)),
        ErrorKind::Timeout
    );
    assert_eq!(
        kind_of(&CommissionClass::Case(CaseClass::ExchangeTimeout)),
        ErrorKind::Timeout
    );
    assert_eq!(
        kind_of(&CommissionClass::Session(SessionClass::Timeout)),
        ErrorKind::Timeout
    );
    assert_eq!(
        kind_of(&CommissionClass::Pase(PaseClass::ConfirmMismatch)),
        ErrorKind::DeviceRejected
    );
    assert_eq!(
        kind_of(&CommissionClass::Pase(PaseClass::StatusReport)),
        ErrorKind::DeviceRejected
    );
    assert_eq!(
        kind_of(&CommissionClass::Case(CaseClass::PeerStatus)),
        ErrorKind::DeviceRejected
    );
    assert_eq!(
        kind_of(&CommissionClass::Case(CaseClass::Sigma2SignatureInvalid)),
        ErrorKind::DeviceRejected
    );
    assert_eq!(
        kind_of(&CommissionClass::Case(CaseClass::EstablishmentFailed)),
        ErrorKind::DeviceRejected
    );
    assert_eq!(
        kind_of(&CommissionClass::Pase(PaseClass::Other)),
        ErrorKind::CommissionFailed
    );
    assert_eq!(
        kind_of(&CommissionClass::Case(CaseClass::Other)),
        ErrorKind::CommissionFailed
    );
}

#[test]
fn manual_code_short_filter_selects_unique_match() {
    let list = vec![fake_commissionable(0x0800), fake_commissionable(0x0F00)];
    assert_eq!(pick_by_short(&list, 8).unwrap().discriminator, Some(0x0800));
    assert!(pick_by_short(&list, 1).is_none());
}

#[test]
fn manual_code_short_filter_rejects_ambiguous() {
    let list = vec![fake_commissionable(0x0801), fake_commissionable(0x08FF)];
    let e = pick_by_short_strict(&list, 8).unwrap_err();
    assert_eq!(e.kind, ErrorKind::CommissionFailed);
    assert_eq!(
        e.detail,
        "ambiguous short discriminator 8: multiple commissionable devices"
    );
}

const DEFAULT_EPOCH: [u8; 16] = *b"temporary ipk 01";

#[test]
fn resolve_ipk_epoch_adopts_and_persists_default_when_key_absent() {
    assert_eq!(epoch_read(Ok(None)), EpochAction::TestDefault);
    assert_eq!(epoch_default_tested(true), EpochAction::AdoptDefault);
    assert_eq!(
        epoch_adopted(Ok(())),
        EpochAction::Done(EpochChoice::Default)
    );
}

#[test]
fn resolve_ipk_epoch_reads_persisted_epoch_without_rewriting() {
    let epoch = vec![0x11u8; 16];
    assert_eq!(
        epoch_read(Ok(Some(epoch.clone()))),
        EpochAction::Derive(epoch.clone())
    );
    let operational = vec![0x77u8; 16];
    assert_eq!(
        epoch_derived(epoch.clone(), &operational, &operational),
        EpochAction::Done(EpochChoice::Persisted(epoch))
    );
}

#[test]
fn resolve_ipk_epoch_rejects_operational_unrelated_to_default() {
    assert_eq!(epoch_read(Ok(None)), EpochAction::TestDefault);
    match epoch_default_tested(false) {
        EpochAction::Fail(e) => assert_eq!(e.kind, ErrorKind::StoreParse),
        other => panic!("{other:?}"),
    }
}

#[test]
fn epoch_failures_are_store_errors() {
    match epoch_derived(DEFAULT_EPOCH.to_vec(), &vec![1; 16], &vec![2; 16]) {
        EpochAction::Fail(e) => assert_eq!(e.kind, ErrorKind::StoreParse),
        other => panic!("{other:?}"),
    }
    match epoch_adopted(Err("disk full".to_string())) {
        EpochAction::Fail(e) => {
            assert_eq!(e.kind, ErrorKind::StoreParse);
            assert_eq!(e.detail, "kvs ipk epoch adopt write: disk full");
        }
        other => panic!("{other:?}"),
    }
    assert!(matches!(
        epoch_read(Err("bad hex".to_string())),
        EpochAction::Fail(_)
    ));
}

fn qr() -> Code {
    Code::Qr {
        passcode: 20202021,
        long: 1082,
    }
}

fn manual() -> Code {
    Code::Manual {
        passcode: 20202021,
        short: 4,
    }
}

fn hit() -> Discovered {
    Discovered::Hit {
        target: CommissionTarget::Discriminator(1082),
        label: "on-network(2001:db8::1)".to_string(),
    }
}

const BLE_OK: bool = true;
const BLE_UNUSABLE: bool = false;

#[test]
fn plan_routes_auto_qr_hit_falls_back_to_ble() {
    let routes = plan_routes(&qr(), Transport::Auto, &hit(), BLE_OK).unwrap();
    assert_eq!(routes.len(), 2);
    assert!(matches!(routes[0], Route::OnNetwork { .. }));
    assert!(matches!(routes[1], Route::Ble));
}

#[test]
fn plan_routes_auto_qr_hit_omits_ble_when_it_cannot_run() {
    let routes = plan_routes(&qr(), Transport::Auto, &hit(), BLE_UNUSABLE).unwrap();
    assert_eq!(routes.len(), 1);
    assert!(matches!(routes[0], Route::OnNetwork { .. }));
}

#[test]
fn plan_routes_auto_qr_miss_is_ble_only() {
    let routes = plan_routes(&qr(), Transport::Auto, &Discovered::Miss, BLE_OK).unwrap();
    assert_eq!(routes.len(), 1);
    assert!(matches!(routes[0], Route::Ble));
}

#[test]
fn plan_routes_auto_qr_miss_still_plans_ble_when_it_cannot_run() {
    let routes = plan_routes(&qr(), Transport::Auto, &Discovered::Miss, BLE_UNUSABLE).unwrap();
    assert_eq!(routes.len(), 1);
    assert!(matches!(routes[0], Route::Ble));
}

#[test]
fn plan_routes_auto_manual_hit_is_on_network_only() {
    let routes = plan_routes(&manual(), Transport::Auto, &hit(), BLE_OK).unwrap();
    assert_eq!(routes.len(), 1);
    assert!(matches!(routes[0], Route::OnNetwork { .. }));
}

#[test]
fn plan_routes_auto_manual_miss_is_unreachable_with_qr_hint() {
    let e = plan_routes(&manual(), Transport::Auto, &Discovered::Miss, BLE_OK).unwrap_err();
    assert_eq!(e.kind, ErrorKind::Unreachable);
    assert!(e.detail.contains("manual code cannot use BLE"));
}

#[test]
fn plan_routes_on_network_qr_hit_never_includes_ble() {
    let routes = plan_routes(&qr(), Transport::OnNetwork, &hit(), BLE_OK).unwrap();
    assert_eq!(routes.len(), 1);
    assert!(matches!(routes[0], Route::OnNetwork { .. }));
}

#[test]
fn plan_routes_on_network_qr_miss_is_unreachable() {
    let e = plan_routes(&qr(), Transport::OnNetwork, &Discovered::Miss, BLE_OK).unwrap_err();
    assert_eq!(e.kind, ErrorKind::Unreachable);
    assert!(e.detail.contains("on-network"));
}

#[test]
fn plan_routes_on_network_manual_miss_is_unreachable_with_qr_hint() {
    let e = plan_routes(&manual(), Transport::OnNetwork, &Discovered::Miss, BLE_OK).unwrap_err();
    assert_eq!(e.kind, ErrorKind::Unreachable);
    assert!(e.detail.contains("manual code cannot use BLE"));
}

#[test]
fn plan_routes_ble_qr_skips_mdns_entirely() {
    let routes = plan_routes(&qr(), Transport::Ble, &Discovered::NotConsulted, BLE_OK).unwrap();
    assert_eq!(routes.len(), 1);
    assert!(matches!(routes[0], Route::Ble));
}

#[test]
fn plan_routes_ble_manual_is_internal_error() {
    let e = plan_routes(&manual(), Transport::Ble, &Discovered::NotConsulted, BLE_OK).unwrap_err();
    assert_eq!(e.kind, ErrorKind::Other);
}

#[test]
fn dead_end_is_limited_to_pase_and_predelivery() {
    assert!(is_dead_end(&CommissionClass::Timeout(
        "no usable address".to_string()
    )));
    assert!(is_dead_end(&CommissionClass::Pase(
        PaseClass::ExchangeTimeout
    )));
    assert!(is_dead_end(&CommissionClass::Discovery));
}

#[test]
fn case_timeout_is_not_a_dead_end() {
    let e = CommissionClass::Case(CaseClass::ExchangeTimeout);
    assert_eq!(kind_of(&e), ErrorKind::Timeout);
    assert!(!is_dead_end(&e));
}

#[test]
fn device_rejection_is_not_a_dead_end() {
    assert!(!is_dead_end(&CommissionClass::Pase(
        PaseClass::ConfirmMismatch
    )));
    assert!(!is_dead_end(&CommissionClass::CommandStatus));
}

#[test]
fn post_pase_timeouts_are_not_dead_ends() {
    assert!(!is_dead_end(&CommissionClass::Timeout(
        "operational discovery after thread join".to_string()
    )));
    assert!(!is_dead_end(&CommissionClass::Timeout(
        "no usable operational address".to_string()
    )));
}

fn on_network_route() -> Route {
    Route::OnNetwork {
        target: CommissionTarget::Discriminator(1082),
        label: "on-network(2001:db8::1)".to_string(),
    }
}

fn route_fail(kind: ErrorKind, detail: &str, dead_end: bool) -> RouteFail {
    RouteFail {
        err: MatError::new(kind, detail.to_string()),
        dead_end,
    }
}

/// Runs a plan with the given outcome of each route; gives the routes that were
/// tried and the result.
fn drive(
    routes: Vec<Route>,
    outcomes: Vec<Result<(), RouteFail>>,
) -> (Vec<usize>, Result<(), MatError>) {
    let (mut run, mut action) = PlanRun::new(routes);
    let mut calls = Vec::new();
    let mut left = outcomes.into_iter();
    loop {
        match action {
            PlanAction::Run(i) => {
                calls.push(i);
                action = run.run_plan(left.next().unwrap());
            }
            PlanAction::Done(r) => return (calls, r),
        }
    }
}

#[test]
fn run_plan_advances_to_the_next_route_on_a_dead_end() {
    let (calls, out) = drive(
        vec![on_network_route(), Route::Ble],
        vec![
            Err(route_fail(
                ErrorKind::Timeout,
                "native commissioning failed: pase error: no acknowledgement",
                true,
            )),
            Ok(()),
        ],
    );
    assert!(out.is_ok());
    assert_eq!(calls, vec![0, 1]);
}

#[test]
fn run_plan_stops_at_the_first_route_when_it_is_not_a_dead_end() {
    let (calls, out) = drive(
        vec![on_network_route(), Route::Ble],
        vec![Err(route_fail(
            ErrorKind::DeviceRejected,
            "native commissioning failed: pase error: confirmation mismatch",
            false,
        ))],
    );
    let err = out.unwrap_err();
    assert_eq!(calls, vec![0]);
    assert_eq!(err.kind, ErrorKind::DeviceRejected);
    assert_eq!(
        err.detail,
        "native commissioning failed: pase error: confirmation mismatch"
    );
}

#[test]
fn run_plan_stops_on_success_without_touching_later_routes() {
    let (calls, out) = drive(vec![on_network_route(), Route::Ble], vec![Ok(())]);
    assert!(out.is_ok());
    assert_eq!(calls, vec![0]);
}

#[test]
fn run_plan_composes_every_failure_and_keeps_the_last_kind() {
    let (calls, out) = drive(
        vec![on_network_route(), Route::Ble],
        vec![
            Err(route_fail(
                ErrorKind::Timeout,
                "native commissioning failed: pase error: no acknowledgement",
                true,
            )),
            Err(route_fail(
                ErrorKind::Unreachable,
                "native commissioning: ble scan: not seen",
                false,
            )),
        ],
    );
    let err = out.unwrap_err();
    assert_eq!(calls, vec![0, 1]);
    assert_eq!(err.kind, ErrorKind::Unreachable);
    assert!(err
        .detail
        .starts_with("native commissioning: all routes failed — "));
    assert!(err
        .detail
        .contains("on-network(2001:db8::1): pase error: no acknowledgement"));
    assert!(err.detail.contains("ble: ble scan: not seen"));
}

#[test]
fn single_route_failure_is_reported_verbatim() {
    let (calls, out) = drive(
        vec![Route::Ble],
        vec![Err(route_fail(
            ErrorKind::Timeout,
            "native commissioning failed: x",
            true,
        ))],
    );
    let err = out.unwrap_err();
    assert_eq!(calls, vec![0]);
    assert_eq!(err.kind, ErrorKind::Timeout);
    assert_eq!(err.detail, "native commissioning failed: x");
}

#[test]
fn multi_route_failure_lists_every_route() {
    let last = MatError::new(
        ErrorKind::Unreachable,
        "native commissioning: no dataset".to_string(),
    );
    let out = compose_failure(
        &vec![
            "on-network(2001:db8::1): pase timed out".to_string(),
            "ble: no dataset".to_string(),
        ],
        last,
    );
    assert_eq!(out.kind, ErrorKind::Unreachable);
    assert!(out
        .detail
        .starts_with("native commissioning: all routes failed — "));
    assert!(out
        .detail
        .contains("on-network(2001:db8::1): pase timed out"));
    assert!(out.detail.contains("ble: no dataset"));
}

#[test]
fn short_detail_strips_known_prefixes() {
    assert_eq!(short_detail("native commissioning failed: boom"), "boom");
    assert_eq!(short_detail("native commissioning: boom"), "boom");
    assert_eq!(short_detail("boom"), "boom");
}

#[test]
fn code_is_read_as_qr_by_its_prefix() {
    assert_eq!(
        parse_code("MT:ABC", Ok((20202021, 1082)), Err("unused".to_string())).unwrap(),
        qr()
    );
    assert_eq!(
        parse_code("34970112332", Err("unused".to_string()), Ok((20202021, 4))).unwrap(),
        manual()
    );
    let e = parse_code("MT:?", Err("bad base38".to_string()), Ok((1, 1))).unwrap_err();
    assert!(e.detail.contains("bad base38"), "{}", e.detail);
    let e = parse_code("12", Ok((1, 1)), Err("too short".to_string())).unwrap_err();
    assert!(e.detail.contains("too short"), "{}", e.detail);
}

#[test]
fn search_by_long_discriminator_hits_misses_or_fails() {
    match discover_qr(1082, Ok(Some("2001:db8::1".to_string()))).unwrap() {
        Discovered::Hit { target, label } => {
            assert_eq!(target, CommissionTarget::Discriminator(1082));
            assert_eq!(label, "on-network(2001:db8::1)");
        }
        other => panic!("{other:?}"),
    }
    let timeout = DnssdFailure {
        class: DnssdClass::Timeout,
        text: "mdns timeout".to_string(),
    };
    assert_eq!(discover_qr(1082, Err(timeout)).unwrap(), Discovered::Miss);
    let io = DnssdFailure {
        class: DnssdClass::Io,
        text: "no route".to_string(),
    };
    assert!(discover_qr(1082, Err(io)).is_err());
}

#[test]
fn search_by_short_discriminator_takes_the_only_match() {
    let list = vec![fake_commissionable(0x0800), fake_commissionable(0x0F00)];
    match discover_manual(8, 3, Ok(list)).unwrap() {
        Discovered::Hit { target, .. } => assert_eq!(
            target,
            CommissionTarget::Addr {
                segments: [0xfd00, 0, 0, 0, 0, 0, 0, 1],
                port: 5540,
                scope_id: 0
            }
        ),
        other => panic!("{other:?}"),
    }
    assert_eq!(
        discover_manual(1, 3, Ok(vec![fake_commissionable(0x0800)])).unwrap(),
        Discovered::Miss
    );
}

#[test]
fn search_by_short_discriminator_scopes_link_local_addresses() {
    let mut d = fake_commissionable(0x0800);
    d.addresses = vec![Address {
        segments: [0xfe80, 0, 0, 0, 0, 0, 0, 9],
        text: "fe80::9".to_string(),
    }];
    match discover_manual(8, 3, Ok(vec![d])).unwrap() {
        Discovered::Hit { target, .. } => assert_eq!(
            target,
            CommissionTarget::Addr {
                segments: [0xfe80, 0, 0, 0, 0, 0, 0, 9],
                port: 5540,
                scope_id: 3
            }
        ),
        other => panic!("{other:?}"),
    }
}

#[test]
fn ble_route_says_what_it_lacks() {
    let e = ble_precheck(Some(1082), false, true).unwrap_err();
    assert!(e.err.detail.contains("no BLE support"), "{}", e.err.detail);
    assert!(!e.dead_end);
    let e = ble_precheck(Some(1082), true, false).unwrap_err();
    assert!(
        e.err.detail.contains("no --thread-dataset"),
        "{}",
        e.err.detail
    );
    assert!(ble_precheck(Some(1082), true, true).is_ok());
}

#[test]
fn ble_scan_miss_is_unreachable() {
    let f = CommissionFailure {
        class: CommissionClass::Ble {
            step: "scan".to_string(),
            detail: "not seen".to_string(),
        },
        text: "ble scan: not seen".to_string(),
    };
    let e = run_route(&Route::Ble, RouteOutcome::Failed(f)).unwrap_err();
    assert_eq!(e.err.kind, ErrorKind::Unreachable);
    assert_eq!(e.err.detail, "native commissioning: ble scan: not seen");
}

#[test]
fn failed_route_keeps_kind_and_text() {
    let f = CommissionFailure {
        class: CommissionClass::Session(SessionClass::Im(ImClass::StatusResponse)),
        text: "status 0x85".to_string(),
    };
    let e = commission_error(&f);
    assert_eq!(e.detail, "native commissioning failed: status 0x85");
    let out = run_route(&on_network_route(), RouteOutcome::Failed(f)).unwrap_err();
    assert_eq!(out.err.kind, e.kind);
    assert!(!out.dead_end);
}

#[test]
fn materials_are_ready_before_the_search() {
    let a = commission(
        "eth0",
        &qr(),
        Transport::Auto,
        BLE_OK,
        CommissionEvent::Iface(Ok(2)),
    );
    assert_eq!(a, CommissionAction::ReadMaterials);
    let a = commission(
        "eth0",
        &qr(),
        Transport::Auto,
        BLE_OK,
        CommissionEvent::Discovered(Ok(hit())),
    );
    match a {
        CommissionAction::Routes(r) => assert_eq!(r.len(), 2),
        other => panic!("{other:?}"),
    }
    let a = commission(
        "wlan9",
        &qr(),
        Transport::Auto,
        BLE_OK,
        CommissionEvent::Iface(Err("no such device".to_string())),
    );
    match a {
        CommissionAction::Fail(e) => assert_eq!(
            e.detail,
            "native commissioning: resolve iface \"wlan9\": no such device"
        ),
        other => panic!("{other:?}"),
    }
}

#[test]
fn ble_needs_a_build_and_a_dataset() {
    let request = |thread_dataset| CommissionRequest {
        setup_code: "MT:X".to_string(),
        device_node_id: 5,
        thread_dataset,
        paa_dir: None,
        cd_signer_dir: None,
        transport: Transport::Auto,
    };
    assert!(ble_usable(true, &request(Some(vec![1]))));
    assert!(!ble_usable(true, &request(None)));
    assert!(!ble_usable(false, &request(Some(vec![1]))));
    assert!(!ble_usable(false, &request(None)));
}

#[test]
fn only_a_qr_payload_has_a_long_discriminator() {
    let qr = Code::Qr {
        passcode: 20_202_021,
        long: 3_840,
    };
    let manual = Code::Manual {
        passcode: 123,
        short: 15,
    };
    assert_eq!((qr.passcode(), qr.long()), (20_202_021, Some(3_840)));
    assert_eq!((manual.passcode(), manual.long()), (123, None));
}
