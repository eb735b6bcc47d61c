//! Sessions for one operation, and groups over several nodes.
use mat::error::{ErrorKind, MatError};
use mat::group_node::RemoveGroupNodeReport;
use mat::group_settings::{GroupSettingsClass, GroupSettingsFailure};
use mat::op::ProvisionParams;
use mat::runner::{
    grant, grant_next, node_params, provision, provision_next, provision_report,
    provision_written, remove_group, remove_group_next, remove_report, GrantRun, NodeWalk,
    OneShot, ProvisionRun, RemoveRun, SessionEvent, Walked,
};

#[test]
fn one_shot_closes_and_calls_after_close_on_success() {
    let s: OneShot<u8> = OneShot::Establish;
    let s = s.step(SessionEvent::Established(Ok(())));
    assert_eq!(s, OneShot::Run);
    let s = s.step(SessionEvent::Ran(Ok(1)));
    assert_eq!(s, OneShot::Close(Ok(1)));
    let s = s.step(SessionEvent::Closed);
    assert_eq!(s, OneShot::AfterClose(Ok(1)));
    assert_eq!(s.step(SessionEvent::Told), OneShot::Return(Ok(1)));
}

#[test]
fn one_shot_closes_on_failure_and_does_not_retry() {
    let timeout = || MatError::new(ErrorKind::Timeout, "no reply".to_string());
    let s: OneShot<u8> = OneShot::Establish;
    let s = s.step(SessionEvent::Established(Ok(())));
    let s = s.step(SessionEvent::Ran(Err(timeout())));
    assert_eq!(s, OneShot::Close(Err(timeout())));
    let s = s.step(SessionEvent::Closed).step(SessionEvent::Told);
    assert_eq!(s, OneShot::Return(Err(timeout())));
}

fn params(epoch_key: Option<String>) -> ProvisionParams {
    ProvisionParams {
        group_id: 99,
        node_ids: vec![5],
        keyset_id: 99,
        name: "e2e".into(),
        endpoint: 1,
        epoch_key,
        rebind: false,
    }
}

#[test]
fn provision_writes_controller_state_and_builds_body_with_note() {
    let p = params(Some("42".repeat(16)));
    let key = match provision(true, Ok("42".repeat(16))) {
        ProvisionRun::Controller(k) => k,
        other => panic!("{other:?}"),
    };
    assert_eq!(key, [0x42; 16]);
    let (w, id) = match provision_written(p.node_ids.clone(), Ok(())) {
        ProvisionRun::Node(w, id) => (w, id),
        other => panic!("{other:?}"),
    };
    assert_eq!(id, 5);
    let np = node_params(&p, key);
    assert_eq!((np.group_id, np.keyset_id, np.endpoint), (99, 99, 1));
    assert_eq!((np.name.as_str(), np.epoch_key), ("e2e", [0x42; 16]));
    assert_eq!(provision_next(w, Ok(())), ProvisionRun::Done);
    let body = provision_report(&p, Some("restart matd".to_string()));
    assert_eq!(body.node_ids, vec![5]);
    assert_eq!(body.note, Some("restart matd".to_string()));
    assert_eq!(provision_report(&p, None).note, None);
}

#[test]
fn provision_hard_errors_when_group_settings_ctx_missing() {
    match provision(false, Ok("42".repeat(16))) {
        ProvisionRun::Fail(e) => assert_eq!(e.kind, ErrorKind::Other),
        other => panic!("{other:?}"),
    }
}

#[test]
fn provision_stops_at_a_bad_key_and_at_an_unwritten_store() {
    match provision(true, Ok("42".to_string())) {
        ProvisionRun::Fail(e) => assert_eq!(e.kind, ErrorKind::ParseError),
        other => panic!("{other:?}"),
    }
    let locked = GroupSettingsFailure {
        class: GroupSettingsClass::Locked,
        text: "locked".to_string(),
    };
    match provision_written(vec![5], Err(locked)) {
        ProvisionRun::Fail(e) => assert!(e.detail.contains("locked"), "{}", e.detail),
        other => panic!("{other:?}"),
    }
}

fn rejected() -> MatError {
    MatError::new(ErrorKind::DeviceRejected, "status 1".to_string())
}

#[test]
fn provision_prefixes_node_errors_with_node_id() {
    let w = match provision_written(vec![5], Ok(())) {
        ProvisionRun::Node(w, _) => w,
        other => panic!("{other:?}"),
    };
    match provision_next(w, Err(rejected())) {
        ProvisionRun::Fail(err) => {
            assert_eq!(err.kind, ErrorKind::DeviceRejected);
            assert!(err.detail.starts_with("node 5: "), "{}", err.detail);
        }
        other => panic!("{other:?}"),
    }
}

fn all_removed() -> RemoveGroupNodeReport {
    RemoveGroupNodeReport {
        acl_removed: true,
        group_removed: true,
        keymap_removed: true,
        keyset_removed: true,
    }
}

fn first_node(r: RemoveRun) -> NodeWalk<RemoveGroupNodeReport> {
    match r {
        RemoveRun::Node(w, 5) => w,
        other => panic!("{other:?}"),
    }
}

#[test]
fn remove_group_stops_at_first_node_failure_and_leaves_controller_kvs() {
    let w = first_node(remove_group(true, vec![5]));
    let unreachable = MatError::new(ErrorKind::Unreachable, "no route".to_string());
    match remove_group_next(w, Err(unreachable)) {
        RemoveRun::Fail(err) => {
            assert_eq!(err.kind, ErrorKind::Unreachable);
            assert!(err.detail.starts_with("node 5: "), "{}", err.detail);
        }
        other => panic!("{other:?}"),
    }
}

#[test]
fn remove_group_reports_per_node_steps_and_drops_controller_state() {
    let w = first_node(remove_group(true, vec![5]));
    let done = match remove_group_next(w, Ok(all_removed())) {
        RemoveRun::Controller(done) => done,
        other => panic!("{other:?}"),
    };
    let rep = remove_report(1, 1, &vec![5], &done, Ok(Some(true))).unwrap();
    assert_eq!(rep.nodes, vec![(5, all_removed())]);
    assert_eq!((rep.controller_removed, rep.keyset_removed), (true, true));
}

#[test]
fn remove_group_reports_false_when_controller_kvs_lacks_the_group() {
    let rep = remove_report(1, 1, &vec![5], &vec![all_removed()], Ok(None)).unwrap();
    assert_eq!((rep.controller_removed, rep.keyset_removed), (false, false));
    assert!(rep.nodes[0].1.group_removed);
}

#[test]
fn remove_group_hard_errors_when_group_settings_ctx_missing() {
    match remove_group(false, vec![5]) {
        RemoveRun::Fail(e) => assert_eq!(e.kind, ErrorKind::Other),
        other => panic!("{other:?}"),
    }
}

#[test]
fn grant_reports_updated_nodes() {
    let w = match grant(vec![5]) {
        GrantRun::Node(w, 5) => w,
        other => panic!("{other:?}"),
    };
    assert_eq!(
        grant_next(w, Ok(true)),
        GrantRun::Done {
            updated: vec![5],
            unchanged: vec![]
        }
    );
}

#[test]
fn grant_parts_changed_from_unchanged_nodes() {
    let mut run = grant(vec![5, 6, 7]);
    for changed in [true, false, true] {
        run = match run {
            GrantRun::Node(w, _) => grant_next(w, Ok(changed)),
            other => panic!("{other:?}"),
        };
    }
    assert_eq!(
        run,
        GrantRun::Done {
            updated: vec![5, 7],
            unchanged: vec![6]
        }
    );
    match grant(vec![5, 6]) {
        GrantRun::Node(w, _) => match grant_next(w, Err(rejected())) {
            GrantRun::Fail(e) => assert_eq!(e.detail, "node 5: status 1"),
            other => panic!("{other:?}"),
        },
        other => panic!("{other:?}"),
    }
}

#[test]
fn walk_over_no_nodes_is_done() {
    assert_eq!(NodeWalk::<u8>::start(vec![]), Walked::Done(vec![]));
    assert_eq!(provision_written(vec![], Ok(())), ProvisionRun::Done);
    assert_eq!(
        grant(vec![]),
        GrantRun::Done {
            updated: vec![],
            unchanged: vec![]
        }
    );
}
