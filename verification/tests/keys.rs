//! Changing the identity protection key of a fabric.
use mat::error::{ErrorKind, MatError};
use mat::group_settings::{GroupSettingsClass, GroupSettingsFailure};
use mat::json::{render, Json};
use mat::rotate_ipk::{
    abort_only, catch_up, catch_up_keys, decode_generated_epoch_hex, epochs_for, needs_credentials,
    node_action, node_behind, node_keys, node_timed_out, one_node, read_slot_error, rotate,
    run_with, CatchUp, IpkEpochSlot, NodeAction, OneNode, OneNodeEvent, RotateEvent,
    RotateIpkParams, RotateMode, RotateOutcome, RotateStart, RotateStatus, Rotation, Turn,
};

const CUR: [u8; 16] = [0x0C; 16];
const NEXT: [u8; 16] = [0x0E; 16];
const PREV: [u8; 16] = [0x0A; 16];

/// The keys of a node's two sessions.
type Keys = ([u8; 16], [u8; 16]);

/// What a controller's store holds while a key changes.
struct Store {
    current: [u8; 16],
    next: Option<[u8; 16]>,
    prev: Option<[u8; 16]>,
}

fn store() -> Store {
    Store {
        current: CUR,
        next: None,
        prev: None,
    }
}

fn hex(key: [u8; 16]) -> String {
    key.iter().map(|b| format!("{b:02x}")).collect()
}

/// Changes the key over some nodes, whose results are given.
fn run_rotate(
    store: &mut Store,
    node_ids: Vec<u64>,
    mut node: impl FnMut(u64, Keys) -> Result<(), MatError>,
) -> Result<RotateOutcome, MatError> {
    let cur = store.current;
    let mut s = match run_with(RotateMode::Rotate) {
        RotateStart::Rotate(s) => s,
        other => panic!("{other:?}"),
    };
    loop {
        let ev = match &s {
            Rotation::ReadNext => RotateEvent::SlotRead(Ok(store.next)),
            Rotation::Generate => RotateEvent::Generated(hex(NEXT)),
            Rotation::Begin(k) => {
                store.next = Some(*k);
                RotateEvent::Stored(Ok(()))
            }
            Rotation::Prepare(_) => RotateEvent::Prepared(Ok(())),
            Rotation::Node { done, .. } => RotateEvent::NodeDone(node(
                node_behind(&node_ids, done).unwrap(),
                node_keys(&cur, &s).unwrap(),
            )),
            Rotation::Commit { next, .. } => {
                store.prev = Some(store.current);
                store.current = *next;
                store.next = None;
                RotateEvent::Stored(Ok(()))
            }
        };
        match rotate(&cur, &node_ids, s, ev) {
            Turn::Go(n) => s = n,
            Turn::Done(o) => return Ok(o),
            Turn::Fail(e) => return Err(e),
        }
    }
}

fn failing(kind: ErrorKind) -> MatError {
    MatError::new(kind, "fake".to_string())
}

/// One node's part; each of its steps may fail. Gives what was done, with the
/// key of each session, and the result.
fn run_node(
    id: u64,
    keys: Keys,
    old: Result<(), MatError>,
    write: Result<(), MatError>,
    new: Result<(), MatError>,
) -> (Vec<String>, Result<(), MatError>) {
    let mut sessions = vec![old, new].into_iter();
    let mut write = Some(write);
    let mut log = Vec::new();
    let mut s = OneNode::EstablishOld;
    loop {
        let ev = match node_action(&keys.0, &keys.1, &s) {
            NodeAction::Establish(key) => {
                let label = if key == CUR { "cur" } else { "other" };
                log.push(format!("{label}:establish:{id}"));
                OneNodeEvent::Established(sessions.next().unwrap())
            }
            NodeAction::Write(epochs) => {
                assert_eq!(epochs, vec![(keys.0, 1), (keys.1, 2)]);
                OneNodeEvent::Written(write.take().unwrap())
            }
            NodeAction::Close => OneNodeEvent::Closed,
            NodeAction::Nothing => break,
        };
        s = one_node(id, s, ev);
    }
    match s {
        OneNode::Return(r) => (log, r),
        other => panic!("{other:?}"),
    }
}

fn field<'a>(j: &'a Json, key: &str) -> &'a Json {
    j.get(key).unwrap()
}

#[test]
fn rotate_all_ok_commits_and_records_prev() {
    let mut st = store();
    let mut log = Vec::new();
    let out = run_rotate(&mut st, vec![5, 6], |id, keys| {
        let (sessions, r) = run_node(id, keys, Ok(()), Ok(()), Ok(()));
        log.extend(sessions);
        r
    })
    .unwrap();
    assert_eq!(out.status, RotateStatus::Rotated);
    assert!(out.nodes.iter().all(|n| n.error.is_none()));
    assert_eq!(
        log,
        vec![
            "cur:establish:5",
            "other:establish:5",
            "cur:establish:6",
            "other:establish:6",
        ]
    );
    assert_eq!((st.current, st.prev, st.next), (NEXT, Some(CUR), None));
    let body = out.body(2);
    assert_eq!(field(&body, "status"), &Json::text("rotated"));
    assert_eq!(
        field(&body, "nodes").as_array().unwrap()[0],
        Json::object()
            .with("node_id", Json::UInt(5))
            .with("status", Json::text("ok"))
    );
    assert!(field(&body, "note").as_str().unwrap().contains("restart"));
    assert!(out.partial_error().is_none());
    assert!(!render(&body).to_lowercase().contains(&hex(NEXT)));
}

#[test]
fn rotate_with_one_failure_stays_pending_and_is_resumable() {
    let mut st = store();
    let out = run_rotate(&mut st, vec![5, 6, 7], |id, keys| {
        let old = if id == 6 {
            Err(failing(ErrorKind::Unreachable))
        } else {
            Ok(())
        };
        run_node(id, keys, old, Ok(()), Ok(())).1
    })
    .unwrap();
    assert_eq!(out.status, RotateStatus::Pending);
    assert_eq!(out.nodes.len(), 3);
    assert!(out.nodes[0].error.is_none() && out.nodes[2].error.is_none());
    let e6 = out.nodes[1].error.as_ref().unwrap();
    assert_eq!(e6.kind, ErrorKind::Unreachable);
    assert!(
        e6.detail.starts_with("node 6: establish: "),
        "{}",
        e6.detail
    );
    assert_eq!((st.current, st.prev, st.next), (CUR, None, Some(NEXT)));
    let pe = out.partial_error().unwrap();
    assert_eq!(pe.kind, ErrorKind::Unreachable);
    assert!(
        pe.detail.contains("1 of 3 nodes failed") && pe.detail.contains("node 6"),
        "{}",
        pe.detail
    );
    let body = out.body(2);
    let failed = &field(&body, "nodes").as_array().unwrap()[1];
    assert_eq!(
        field(field(failed, "error"), "kind"),
        &Json::text("unreachable")
    );

    st.next = Some([0x77; 16]);
    let out = run_rotate(&mut st, vec![6], |_, _| Ok(())).unwrap();
    assert_eq!(out.status, RotateStatus::Rotated);
    assert_eq!((st.current, st.prev), ([0x77; 16], Some(CUR)));
}

#[test]
fn rotate_key_set_write_rejection_is_failed_node() {
    let mut st = store();
    let mut sessions = Vec::new();
    let out = run_rotate(&mut st, vec![5], |id, keys| {
        let rejected = MatError::new(
            ErrorKind::DeviceRejected,
            "key-set-write (ipk): status 1".to_string(),
        );
        let (s, r) = run_node(id, keys, Ok(()), Err(rejected), Ok(()));
        sessions = s;
        r
    })
    .unwrap();
    assert_eq!(out.status, RotateStatus::Pending);
    let e = out.nodes[0].error.as_ref().unwrap();
    assert_eq!(e.kind, ErrorKind::DeviceRejected);
    assert!(
        e.detail.starts_with("node 5: key-set-write (ipk): "),
        "{}",
        e.detail
    );
    assert_eq!(sessions, vec!["cur:establish:5"]);
}

#[test]
fn rotate_verify_case_failure_is_failed_node_with_step_name() {
    let mut st = store();
    let out = run_rotate(&mut st, vec![5], |id, keys| {
        run_node(id, keys, Ok(()), Ok(()), Err(failing(ErrorKind::SessionFailed))).1
    })
    .unwrap();
    assert_eq!(out.status, RotateStatus::Pending);
    let e = out.nodes[0].error.as_ref().unwrap();
    assert_eq!(e.kind, ErrorKind::SessionFailed);
    assert!(
        e.detail.starts_with("node 5: verify-case: "),
        "{}",
        e.detail
    );
}

#[test]
fn rotate_with_no_nodes_commits_immediately() {
    let mut st = store();
    let out = run_rotate(&mut st, vec![], |_, _| panic!("no node")).unwrap();
    assert_eq!(out.status, RotateStatus::Rotated);
    assert!(out.nodes.is_empty());
    assert_eq!(st.prev, Some(CUR));
}

#[test]
fn rotate_per_node_timeout_marks_node_timeout_and_continues() {
    let mut st = store();
    let out = run_rotate(&mut st, vec![5, 6], |id, _| Err(node_timed_out(id, 50))).unwrap();
    assert_eq!(out.status, RotateStatus::Pending);
    assert_eq!(out.nodes.len(), 2);
    assert!(out
        .nodes
        .iter()
        .all(|n| n.error.as_ref().unwrap().kind == ErrorKind::Timeout));
}

#[test]
fn rotate_ends_where_the_store_fails() {
    let locked = GroupSettingsFailure {
        class: GroupSettingsClass::Locked,
        text: "locked".to_string(),
    };
    let nodes = vec![5];
    match rotate(
        &CUR,
        &nodes,
        Rotation::Begin(NEXT),
        RotateEvent::Stored(Err(locked)),
    ) {
        Turn::Fail(e) => assert_eq!(e.kind, ErrorKind::Other),
        other => panic!("{other:?}"),
    }
    match rotate(
        &CUR,
        &nodes,
        Rotation::ReadNext,
        RotateEvent::SlotRead(Err("torn".to_string())),
    ) {
        Turn::Fail(e) => assert_eq!(e, read_slot_error(IpkEpochSlot::Next, "torn")),
        other => panic!("{other:?}"),
    }
    assert!(decode_generated_epoch_hex("zz").is_err());
    assert_eq!(decode_generated_epoch_hex(&hex(NEXT)).unwrap(), NEXT);
}

fn run_catch_up(
    prev: Option<[u8; 16]>,
    next: Option<[u8; 16]>,
    node_ids: Vec<u64>,
    mut node: impl FnMut(u64, Keys) -> Result<(), MatError>,
) -> Result<RotateOutcome, MatError> {
    let mut s = match run_with(RotateMode::CatchUp) {
        RotateStart::CatchUp(s) => s,
        other => panic!("{other:?}"),
    };
    loop {
        let ev = match &s {
            CatchUp::ReadPrev => RotateEvent::SlotRead(Ok(prev)),
            CatchUp::ReadNext(_) => RotateEvent::SlotRead(Ok(next)),
            CatchUp::Prepare(k) => {
                assert_eq!(Some(*k), prev);
                RotateEvent::Prepared(Ok(()))
            }
            CatchUp::Node { done, .. } => RotateEvent::NodeDone(node(
                node_behind(&node_ids, done).unwrap(),
                catch_up_keys(&CUR, &s).unwrap(),
            )),
        };
        match catch_up(&node_ids, s, ev) {
            Turn::Go(n) => s = n,
            Turn::Done(o) => return Ok(o),
            Turn::Fail(e) => return Err(e),
        }
    }
}

#[test]
fn catch_up_uses_prev_to_write_and_cur_to_verify() {
    let out = run_catch_up(Some(PREV), None, vec![9], |id, keys| {
        assert_eq!(keys, (PREV, CUR));
        let (sessions, r) = run_node(id, keys, Ok(()), Ok(()), Ok(()));
        assert_eq!(sessions, vec!["other:establish:9", "cur:establish:9"]);
        r
    })
    .unwrap();
    assert_eq!(out.status, RotateStatus::CaughtUp);
    assert_eq!(field(&out.body(2), "status"), &Json::text("caught_up"));
    assert_eq!(epochs_for(PREV, CUR), vec![(PREV, 1), (CUR, 2)]);
}

#[test]
fn catch_up_without_prev_or_while_pending_is_other() {
    let e = run_catch_up(None, None, vec![9], |_, _| Ok(())).unwrap_err();
    assert_eq!(e.kind, ErrorKind::Other);
    assert!(e.detail.contains("no previous ipk epoch"), "{}", e.detail);
    let e = run_catch_up(Some(PREV), Some(NEXT), vec![9], |_, _| Ok(())).unwrap_err();
    assert_eq!(e.kind, ErrorKind::Other);
    assert!(e.detail.contains("pending"), "{}", e.detail);
}

#[test]
fn catch_up_failure_is_incomplete_with_partial_error() {
    let out = run_catch_up(Some(PREV), None, vec![9], |id, keys| {
        run_node(
            id,
            keys,
            Err(failing(ErrorKind::SessionFailed)),
            Ok(()),
            Ok(()),
        )
        .1
    })
    .unwrap();
    assert_eq!(out.status, RotateStatus::CatchUpIncomplete);
    let pe = out.partial_error().unwrap();
    assert_eq!(pe.kind, ErrorKind::SessionFailed);
    assert!(pe.detail.contains("catch-up incomplete"), "{}", pe.detail);
    assert!(field(&out.body(2), "note")
        .as_str()
        .unwrap()
        .contains("re-commission"));
}

#[test]
fn abort_clears_pending_and_is_idle_otherwise() {
    let out = abort_only(Ok(false)).unwrap();
    assert_eq!(out.status, RotateStatus::Idle);
    assert_eq!(field(&out.body(2), "status"), &Json::text("idle"));
    let out = abort_only(Ok(true)).unwrap();
    assert_eq!(out.status, RotateStatus::Aborted);
    assert_eq!(run_with(RotateMode::Abort), RotateStart::Abort);
}

#[test]
fn run_abort_mode_does_not_require_credentials() {
    assert!(!needs_credentials(RotateMode::Abort));
    assert!(needs_credentials(RotateMode::Rotate));
    assert!(needs_credentials(RotateMode::CatchUp));
    assert_eq!(abort_only(Ok(true)).unwrap().status, RotateStatus::Aborted);
}

#[test]
fn statuses_have_wire_words() {
    for (s, w) in [
        (RotateStatus::Rotated, "rotated"),
        (RotateStatus::Pending, "pending"),
        (RotateStatus::CaughtUp, "caught_up"),
        (RotateStatus::CatchUpIncomplete, "catch_up_incomplete"),
        (RotateStatus::Aborted, "aborted"),
        (RotateStatus::Idle, "idle"),
    ] {
        assert_eq!(s.as_str(), w);
    }
}

#[test]
fn resumed_rotation_uses_no_third_key() {
    let mut st = store();
    st.next = Some([0x77; 16]);
    let out = run_rotate(&mut st, vec![5, 6], |id, _| match id {
        6 => Err(failing(ErrorKind::Timeout)),
        _ => Ok(()),
    })
    .unwrap();
    assert_eq!(out.status, RotateStatus::Pending);
    assert_eq!((st.current, st.prev, st.next), (CUR, None, Some([0x77; 16])));
    let out = run_rotate(&mut st, vec![5, 6], |_, _| Ok(())).unwrap();
    assert_eq!(out.status, RotateStatus::Rotated);
    assert_eq!((st.current, st.prev, st.next), ([0x77; 16], Some(CUR), None));
}

#[test]
fn second_abort_is_idle() {
    let mut next = Some(NEXT);
    let first = abort_only(Ok(next.take().is_some())).unwrap();
    assert_eq!(first.status, RotateStatus::Aborted);
    assert!(first.nodes.is_empty());
    let second = abort_only(Ok(next.take().is_some())).unwrap();
    assert_eq!(second.status, RotateStatus::Idle);
    assert!(second.nodes.is_empty());
}

#[test]
fn made_key_with_signs_is_refused() {
    let e = decode_generated_epoch_hex(&"+0".repeat(16)).unwrap_err();
    assert_eq!(e.kind, ErrorKind::Other);
    assert!(!e.detail.contains('+'));
}

#[test]
fn rotation_pairs_the_current_key_with_the_next() {
    let mut seen = Vec::new();
    let mut st = store();
    st.next = Some([0x77; 16]);
    run_rotate(&mut st, vec![5, 6], |id, keys| {
        seen.push((id, keys));
        Ok(())
    })
    .unwrap();
    assert_eq!(seen, vec![(5, (CUR, [0x77; 16])), (6, (CUR, [0x77; 16]))]);
    assert_eq!(node_keys(&CUR, &Rotation::Prepare(NEXT)), None);
    assert_eq!(catch_up_keys(&CUR, &CatchUp::Prepare(PREV)), None);
}

#[test]
fn outcomes_are_those_of_the_given_nodes_in_order() {
    let ids = vec![9, 3, 9, 1];
    let mut st = store();
    let out = run_rotate(&mut st, ids.clone(), |id, _| match id {
        3 => Err(failing(ErrorKind::Timeout)),
        _ => Ok(()),
    })
    .unwrap();
    let told: Vec<u64> = out.nodes.iter().map(|n| n.node_id).collect();
    assert_eq!(told, ids);
    assert!(out.nodes[1].error.is_some());
    let out = run_catch_up(Some(PREV), None, ids.clone(), |_, _| Ok(())).unwrap();
    let told: Vec<u64> = out.nodes.iter().map(|n| n.node_id).collect();
    assert_eq!(told, ids);
    assert_eq!(node_behind(&ids, &Vec::new()), Some(9));
    assert_eq!(node_behind(&ids, &out.nodes), None);
}

#[test]
fn node_counts_only_with_both_sessions() {
    let keys = (CUR, NEXT);
    let fail = || Err(failing(ErrorKind::Timeout));
    let (log, r) = run_node(5, keys, Ok(()), Ok(()), Ok(()));
    assert_eq!((log.len(), r), (2, Ok(())));
    assert!(run_node(5, keys, fail(), Ok(()), Ok(())).1.is_err());
    assert!(run_node(5, keys, Ok(()), fail(), Ok(())).1.is_err());
    assert!(run_node(5, keys, Ok(()), Ok(()), fail()).1.is_err());
}

#[test]
fn zero_is_no_limit_for_a_node() {
    let limit = |per_node_timeout_ms| {
        RotateIpkParams {
            node_ids: vec![5],
            mode: RotateMode::Rotate,
            per_node_timeout_ms,
        }
        .node_limit_ms()
    };
    assert_eq!(limit(0), None);
    assert_eq!(limit(50), Some(50));
}
