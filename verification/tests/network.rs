//! Interfaces, units, groupcasts and the lookup cache.
use mat::error::ErrorKind;
use mat::group::{group_send_error, send, GroupOutcome, GroupSendClass, SendAction, SendEvent};
use mat::group_settings::{
    map_gs_read_err, map_rotation_err, run_list, write_group_provision, GroupSettingsClass,
    GroupSettingsFailure, GroupTable,
};
use mat::iface_select::{autodetect, scan, select, IfaceEntry, IfaceInfo, SelectError};
use mat::resolver::{
    cache_key, CacheAction, CacheEvent, CachingResolver, CACHE_MISS_TIMEOUT_MS,
};
use mat::units::{resolve_color_temp, resolve_level};

fn ifi(name: &str, flags: u32, up: bool, ll: bool) -> IfaceInfo {
    IfaceInfo {
        name: name.into(),
        flags,
        operstate_up: up,
        has_ipv6_ll: ll,
    }
}

const ETH: u32 = 0x1 | 0x1000;
const LO: u32 = 0x1 | 0x8 | 0x1000;
const TS: u32 = 0x1 | 0x10 | 0x1000;

#[test]
fn selects_single_ethernet() {
    let infos = [ifi("eth0", ETH, true, true), ifi("lo", LO, true, true)];
    assert_eq!(select(&infos).unwrap(), "eth0");
}

#[test]
fn excludes_pointopoint_tailscale() {
    let infos = [
        ifi("eth0", ETH, true, true),
        ifi("tailscale0", TS, true, true),
    ];
    assert_eq!(select(&infos).unwrap(), "eth0");
}

#[test]
fn excludes_down_carrier_and_missing_ll() {
    let infos = [
        ifi("eth0", ETH, true, true),
        ifi("docker0", ETH, false, true),
        ifi("veth1", ETH, true, false),
    ];
    assert_eq!(select(&infos).unwrap(), "eth0");
}

#[test]
fn zero_candidates_is_error() {
    let infos = [ifi("lo", LO, true, true)];
    assert!(matches!(select(&infos), Err(SelectError::NoCandidate)));
}

#[test]
fn multiple_candidates_is_ambiguous_and_lists_names() {
    let infos = [ifi("eth0", ETH, true, true), ifi("wlan0", ETH, true, true)];
    match select(&infos) {
        Err(SelectError::Ambiguous(names)) => assert_eq!(names, vec!["eth0", "wlan0"]),
        other => panic!("expected Ambiguous, got {other:?}"),
    }
}

#[test]
fn autodetect_asks_for_the_interface_where_it_cannot_choose() {
    assert_eq!(
        autodetect(Ok(vec![ifi("eth0", ETH, true, true)])).unwrap(),
        "eth0"
    );
    let e = autodetect(Ok(vec![])).unwrap_err();
    assert_eq!(e.kind, ErrorKind::Other);
    assert!(e.detail.contains("no usable interface"), "{}", e.detail);
    let e = autodetect(Ok(vec![
        ifi("eth0", ETH, true, true),
        ifi("wlan0", ETH, true, true),
    ]))
    .unwrap_err();
    assert_eq!(
        e.detail,
        "iface autodetect: ambiguous candidates [eth0, wlan0]; set MAT_IFACE"
    );
    let e = autodetect(Err("denied".to_string())).unwrap_err();
    assert_eq!(e.detail, "iface autodetect: scan failed: denied");
}

#[test]
fn scan_reads_flags_state_and_addresses() {
    let table = "fe80000000000000021e06fffe000001 02 40 20 80     eth0\n\
                 fd000000000000000000000000000001 02 40 00 80     eth0\r\n\
                 00000000000000000000000000000001 01 80 10 80       lo\n\
                 fe80000000000000021e06fffe000002 03 40 20 80\n";
    let entry = |name: &str, flags: Option<&str>, state: Option<&str>| IfaceEntry {
        name: name.to_string(),
        flags: flags.map(|s| s.to_string()),
        operstate: state.map(|s| s.to_string()),
    };
    let infos = scan(
        &vec![
            entry("eth0", Some("0x1003\n"), Some("up\n")),
            entry("lo", Some("0x9\n"), Some("unknown\n")),
            entry("bad", Some("0xzz"), None),
            entry("big", Some("100000000"), Some(" up ")),
            entry("all", Some("FFFFffff"), Some("UP")),
        ],
        table,
    );
    assert_eq!(
        infos,
        vec![
            ifi("eth0", 0x1003, true, true),
            ifi("lo", 0x9, false, false),
            ifi("bad", 0, false, false),
            ifi("big", 0, true, false),
            ifi("all", 0xffff_ffff, false, false),
        ]
    );
}

#[test]
fn tests_kelvin_2700_converts_to_370_mireds() {
    assert_eq!(resolve_color_temp(Some(2700), None), (370, 2700));
}

#[test]
fn tests_kelvin_6500_rounds_to_154_mireds() {
    assert_eq!(resolve_color_temp(Some(6500), None), (154, 6500));
}

#[test]
fn tests_mireds_direct_computes_kelvin_echo() {
    assert_eq!(resolve_color_temp(None, Some(370)), (370, 2703));
}

#[test]
fn tests_resolve_level_rounds_percent_to_254_scale() {
    assert_eq!(resolve_level(0), 0);
    assert_eq!(resolve_level(1), 3);
    assert_eq!(resolve_level(50), 127);
    assert_eq!(resolve_level(100), 254);
}

#[test]
fn invoke_kelvin_2700_converts_to_370_mireds() {
    assert_eq!(resolve_color_temp(Some(2700), None), (370, 2700));
}

#[test]
fn invoke_kelvin_6500_rounds_to_154_mireds() {
    assert_eq!(resolve_color_temp(Some(6500), None), (154, 6500));
}

#[test]
fn invoke_mireds_direct_computes_kelvin_echo() {
    assert_eq!(resolve_color_temp(None, Some(370)), (370, 2703));
}

#[test]
fn invoke_resolve_level_rounds_percent_to_254_scale() {
    assert_eq!(resolve_level(0), 0);
    assert_eq!(resolve_level(1), 3);
    assert_eq!(resolve_level(50), 127);
    assert_eq!(resolve_level(100), 254);
}

#[test]
fn units_kelvin_2700_converts_to_370_mireds() {
    assert_eq!(resolve_color_temp(Some(2700), None), (370, 2700));
}

#[test]
fn units_kelvin_6500_rounds_to_154_mireds() {
    assert_eq!(resolve_color_temp(Some(6500), None), (154, 6500));
}

#[test]
fn units_mireds_direct_computes_kelvin_echo() {
    assert_eq!(resolve_color_temp(None, Some(370)), (370, 2703));
}

#[test]
fn units_resolve_level_rounds_percent_to_254_scale() {
    assert_eq!(resolve_level(0), 0);
    assert_eq!(resolve_level(1), 3);
    assert_eq!(resolve_level(50), 127);
    assert_eq!(resolve_level(100), 254);
}

#[test]
fn cache_miss_timeout_is_pinned() {
    assert_eq!(CACHE_MISS_TIMEOUT_MS, 35_000);
}

#[test]
fn cache_key_is_the_full_service_name() {
    assert_eq!(cache_key("AB12-0000"), "AB12-0000._matter._tcp.local");
}

#[test]
fn caching_resolver_returns_cached_hit_immediately() {
    let (mut r, first) = CachingResolver::new();
    assert_eq!(first, CacheAction::Look);
    assert_eq!(r.step(CacheEvent::Looked(true)), CacheAction::Found);
}

#[test]
fn caching_resolver_awaits_listener_fill_then_returns() {
    let (mut r, _) = CachingResolver::new();
    assert_eq!(r.step(CacheEvent::Looked(false)), CacheAction::Request);
    assert_eq!(r.step(CacheEvent::Requested), CacheAction::ReadClock);
    assert_eq!(r.step(CacheEvent::Clock(0)), CacheAction::ReadClock);
    assert_eq!(r.step(CacheEvent::Clock(1)), CacheAction::Sleep(500));
    assert_eq!(r.step(CacheEvent::Slept), CacheAction::Look);
    assert_eq!(r.step(CacheEvent::Looked(true)), CacheAction::Found);
}

#[test]
fn caching_resolver_times_out_when_never_filled() {
    let (mut r, _) = CachingResolver::new();
    r.step(CacheEvent::Looked(false));
    r.step(CacheEvent::Requested);
    r.step(CacheEvent::Clock(0));
    let mut now = 0;
    let mut action = r.step(CacheEvent::Clock(now));
    let mut polls = 0;
    while let CacheAction::Sleep(ms) = action {
        now += ms;
        polls += 1;
        assert_eq!(r.step(CacheEvent::Slept), CacheAction::Look);
        assert_eq!(r.step(CacheEvent::Looked(false)), CacheAction::ReadClock);
        action = r.step(CacheEvent::Clock(now));
    }
    assert_eq!(action, CacheAction::TimedOut);
    assert_eq!(polls, 70);
}

#[test]
fn group_send_error_maps_io_to_unreachable_and_crypto_to_other() {
    let io = group_send_error(10, GroupSendClass::Io, "send failed");
    assert_eq!(io.kind, ErrorKind::Unreachable);
    let crypto = group_send_error(10, GroupSendClass::Crypto, "payload too large");
    assert_eq!(crypto.kind, ErrorKind::Other);
    assert!(
        crypto.detail.contains("group 10"),
        "detail: {}",
        crypto.detail
    );
}

#[test]
fn group_invoke_sends_multicast_and_reports_sent() {
    assert_eq!(
        send(10, false, SendEvent::Credentials(Ok(()))),
        SendAction::ReadCounter
    );
    assert_eq!(
        send(10, false, SendEvent::Counter(Ok(Some(77)))),
        SendAction::LoadCounter(77)
    );
    assert_eq!(
        send(10, false, SendEvent::CounterLoaded(Ok(()))),
        SendAction::BuildSender
    );
    assert_eq!(
        send(10, false, SendEvent::SenderBuilt(Ok(()))),
        SendAction::Transmit
    );
    assert_eq!(
        send(
            10,
            true,
            SendEvent::Transmitted(Ok(vec!["eth0".to_string()]))
        ),
        SendAction::Done(GroupOutcome::Sent {
            egress: vec!["eth0".to_string()]
        })
    );
    let r = send(
        99,
        true,
        SendEvent::Credentials(Err("no keyset".to_string())),
    );
    assert_eq!(
        r,
        SendAction::Done(GroupOutcome::Unavailable(
            "group 99 credentials: no keyset (not provisioned? run `mat group provision`)"
                .to_string()
        ))
    );
}

fn gs(class: GroupSettingsClass) -> GroupSettingsFailure {
    GroupSettingsFailure {
        class,
        text: "raw".to_string(),
    }
}

#[test]
fn write_group_provision_writes_kvs_and_maps_duplicate_to_other() {
    write_group_provision(Ok(())).unwrap();
    let err = write_group_provision(Err(gs(GroupSettingsClass::DuplicateBind {
        group_id: 99,
        keyset_id: 99,
    })))
    .unwrap_err();
    assert_eq!(err.kind, ErrorKind::Other);
    assert!(err.detail.contains("--rebind"), "{}", err.detail);
}

#[test]
fn locked_kvs_is_hard_error_not_fallback_shaped() {
    let err = write_group_provision(Err(gs(GroupSettingsClass::Locked))).unwrap_err();
    assert_eq!(err.kind, ErrorKind::Other);
    assert!(err.detail.contains("locked"), "{}", err.detail);
}

#[test]
fn missing_and_corrupt_stores_have_their_own_kinds() {
    let e = map_gs_read_err(gs(GroupSettingsClass::NotFound), "/s/main.ini");
    assert_eq!(e.kind, ErrorKind::StoreMissing);
    let corrupt = || GroupSettingsClass::Corrupt {
        key: "f/1/k/0".to_string(),
        reason: "short".to_string(),
    };
    assert_eq!(
        map_gs_read_err(gs(corrupt()), "/s/main.ini").kind,
        ErrorKind::StoreParse
    );
    assert_eq!(
        map_rotation_err(gs(corrupt())).detail,
        "inconsistent ipk rotation state at f/1/k/0: short"
    );
}

#[test]
fn mireds_come_back_from_their_kelvin() {
    for m in 1..=1_000u16 {
        let (_, kelvin) = resolve_color_temp(None, Some(m));
        assert_eq!(resolve_color_temp(Some(kelvin), None), (m, kelvin));
    }
}

#[test]
fn no_two_percentages_share_a_level() {
    for p in 0..100u8 {
        assert!(resolve_level(p) < resolve_level(p + 1), "{p}");
    }
    assert_eq!((resolve_level(0), resolve_level(100)), (0, 254));
}

#[test]
fn groups_are_listed_as_recorded() {
    let table = || GroupTable {
        groups: vec![(7, "hall".to_string(), Some(42))],
        keysets: vec![(42, vec![7])],
    };
    assert_eq!(run_list(Ok(table()), "/s/main.ini").unwrap(), table());
    let e = run_list(Err(gs(GroupSettingsClass::NotFound)), "/s/main.ini").unwrap_err();
    assert_eq!(e.kind, ErrorKind::StoreMissing);
    assert_eq!(
        e.detail,
        "/s/main.ini not found — run `mat fabric init` to bootstrap the credential store"
    );
}
