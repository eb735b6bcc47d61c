//! The direct path: one session for one operation, without the daemon.
use vstd::prelude::*;
use vstd::string::*;
use crate::conn::{
    row_views,
    Call,
    Progress,
    Reply,
    ATTR_NETWORK_INTERFACES,
    CLUSTER_GENERAL_DIAG,
    CLUSTER_THREAD_DIAG,
};
use crate::device_op::DeviceOp;
use crate::error::{error, ErrorKind, ErrorView, MatError};
use crate::json::{Json, JsonView};
use crate::op::NodeOpKind;
use crate::text;
use crate::thread::{
    diag_thread,
    identity_in,
    identity_view,
    snapshot,
    thread_check,
    thread_check_from_snapshot,
    thread_identity,
    Identity,
    IdentityView,
    ThreadAttributes,
    ThreadCheck,
};

verus! {

/// What goes with the report of a group that was given on the direct path.
pub fn provision_note() -> (s: &'static str)
    ensures
        s@
            == "controller group state written natively to kvs; if matd is running, restart it to reload group state"@,
{
    "controller group state written natively to kvs; if matd is running, restart it to reload group state"
}

/// Whether an operation takes its node away: the daemon would look for a node
/// that is gone.
pub open spec fn removes_node(op: DeviceOp) -> bool {
    op matches DeviceOp::Node(n) && n.kind == NodeOpKind::RemoveFabric
}

/// Whether the daemon is not told of the node that an operation touched: only
/// where the node goes away.
pub fn suppresses_node_touched_hint(op: &DeviceOp) -> (r: bool)
    ensures
        r == removes_node(*op),
{
    match op {
        DeviceOp::Node(n) => match &n.kind {
            NodeOpKind::RemoveFabric => true,
            _ => false,
        },
        _ => false,
    }
}

/// The nodes that an operation needs to be commissioned. A groupcast and a jump
/// of the counter need none.
pub open spec fn needed_nodes(op: DeviceOp) -> Seq<u64> {
    match op {
        DeviceOp::Node(n) => seq![n.node_id],
        DeviceOp::GroupProvision(p) => p.node_ids@,
        DeviceOp::GroupGrant { node_ids, .. } => node_ids@,
        DeviceOp::GroupRemove { node_ids, .. } => node_ids@,
        DeviceOp::Group(_) => Seq::empty(),
        DeviceOp::GroupBump => Seq::empty(),
    }
}

/// The node that an operation is for, where it is for one.
pub open spec fn single_node(op: DeviceOp) -> Option<u64> {
    match op {
        DeviceOp::Node(n) => Some(n.node_id),
        _ => None,
    }
}

/// The group that an operation is for, where it is for one.
pub open spec fn single_group(op: DeviceOp) -> Option<u16> {
    match op {
        DeviceOp::Group(g) => Some(g.group_id),
        DeviceOp::GroupProvision(p) => Some(p.group_id),
        DeviceOp::GroupGrant { group_id, .. } => Some(group_id),
        DeviceOp::GroupRemove { group_id, .. } => Some(group_id),
        DeviceOp::Node(_) => None,
        DeviceOp::GroupBump => None,
    }
}

/// The key that an operation was given, where it was given one.
pub open spec fn given_key(op: DeviceOp) -> Option<String> {
    match op {
        DeviceOp::GroupProvision(p) => p.epoch_key,
        _ => None,
    }
}

fn copy_ids(v: &Vec<u64>) -> (r: Vec<u64>)
    ensures
        r@ == v@,
{
    let mut r: Vec<u64> = Vec::new();
    let mut i: usize = 0;
    while i < v.len()
        invariant
            i <= v.len(),
            r@ == v@.take(i as int),
        decreases v.len() - i,
    {
        r.push(v[i]);
        assert(r@ =~= v@.take(i + 1));
        i += 1;
    }
    assert(v@.take(i as int) =~= v@);
    r
}

/// What has to be in order before an operation runs, and how long it may take.
#[derive(Debug, PartialEq, Eq)]
pub struct Plan {
    /// Nodes that must be commissioned.
    pub nodes: Vec<u64>,
    /// A key that must be valid.
    pub key: Option<String>,
    pub node_id: Option<u64>,
    pub group_id: Option<u16>,
    /// The time limit, where there is one.
    pub deadline_ms: Option<u64>,
    /// Whether the daemon is told of the node.
    pub hint: bool,
}

/// Plans an operation on the direct path.
pub fn plan(op: &DeviceOp, op_timeout_ms: u64) -> (p: Plan)
    ensures
        p.nodes@ == needed_nodes(*op),
        p.key == given_key(*op),
        p.node_id == single_node(*op),
        p.group_id == single_group(*op),
        p.deadline_ms == if op.budgeted() && op_timeout_ms > 0 {
            Some(op_timeout_ms)
        } else {
            None
        },
        p.hint == !removes_node(*op),
{
    let nodes = match op {
        DeviceOp::Node(n) => {
            let mut v: Vec<u64> = Vec::new();
            v.push(n.node_id);
            v
        },
        DeviceOp::GroupProvision(p) => copy_ids(&p.node_ids),
        DeviceOp::GroupGrant { node_ids, .. } => copy_ids(node_ids),
        DeviceOp::GroupRemove { node_ids, .. } => copy_ids(node_ids),
        DeviceOp::Group(_) => Vec::new(),
        DeviceOp::GroupBump => Vec::new(),
    };
    let key = match op {
        DeviceOp::GroupProvision(p) => text::copy_text(&p.epoch_key),
        _ => None,
    };
    let node_id = match op {
        DeviceOp::Node(n) => Some(n.node_id),
        _ => None,
    };
    let group_id = match op {
        DeviceOp::Group(g) => Some(g.group_id),
        DeviceOp::GroupProvision(p) => Some(p.group_id),
        DeviceOp::GroupGrant { group_id, .. } => Some(*group_id),
        DeviceOp::GroupRemove { group_id, .. } => Some(*group_id),
        _ => None,
    };
    let deadline_ms = if op.budget_applies() && op_timeout_ms > 0 {
        Some(op_timeout_ms)
    } else {
        None
    };
    Plan {
        nodes,
        key,
        node_id,
        group_id,
        deadline_ms,
        hint: !suppresses_node_touched_hint(op),
    }
}

/// What the direct path does next.
#[derive(Debug, PartialEq, Eq)]
pub enum Execute {
    /// Look up the node at this place of the plan.
    RequireNode(usize),
    /// Check the key of the plan.
    CheckKey,
    BuildEngine,
    Run,
    Fail(MatError),
}

/// What a step of the direct path says.
pub enum ExecuteView {
    RequireNode(int),
    CheckKey,
    BuildEngine,
    Run,
    Fail(ErrorView),
}

impl View for Execute {
    type V = ExecuteView;

    open spec fn view(&self) -> ExecuteView {
        match *self {
            Execute::RequireNode(i) => ExecuteView::RequireNode(i as int),
            Execute::CheckKey => ExecuteView::CheckKey,
            Execute::BuildEngine => ExecuteView::BuildEngine,
            Execute::Run => ExecuteView::Run,
            Execute::Fail(e) => ExecuteView::Fail(e@),
        }
    }
}

/// The next check behind some nodes: the next node, the key where one was
/// given, or the engine.
pub open spec fn check_at(nodes: Seq<u64>, has_key: bool, i: int) -> ExecuteView {
    if i < nodes.len() {
        ExecuteView::RequireNode(i)
    } else if has_key {
        ExecuteView::CheckKey
    } else {
        ExecuteView::BuildEngine
    }
}

/// The advice for a store without credentials.
pub open spec fn build_error(e: ErrorView) -> ErrorView {
    if e.kind == ErrorKind::StoreMissing && !text::occurs(e.detail, "mat fabric init"@) {
        error(
            e.kind,
            e.detail + " — run `mat fabric init` to bootstrap the credential store"@,
        )
    } else {
        e
    }
}

/// Adds to a store without credentials how to make them.
pub fn map_engine_build_error(e: MatError) -> (f: MatError)
    ensures
        f@ == build_error(e@),
{
    if e.kind == ErrorKind::StoreMissing && !text::contains(e.detail.as_str(), "mat fabric init") {
        MatError::new(
            e.kind,
            e.detail.concat(" — run `mat fabric init` to bootstrap the credential store"),
        )
    } else {
        e
    }
}

/// The advice is given once: mapping an error again changes nothing.
pub proof fn law_advice_is_given_once(e: ErrorView)
    ensures
        build_error(build_error(e)) == build_error(e),
{
    let advice = " — run `mat fabric init` to bootstrap the credential store"@;
    let word = "mat fabric init"@;
    reveal_strlit(" — run `mat fabric init` to bootstrap the credential store");
    reveal_strlit("mat fabric init");
    let full = e.detail + advice;
    let at: int = e.detail.len() as int + 8;
    assert(full.subrange(at, at + word.len()) =~= word);
    assert(text::occurs_at(full, word, at));
}

/// What follows on the direct path: nodes, key and engine are in order before
/// anything is sent.
pub open spec fn execute_step(
    nodes: Seq<u64>,
    has_key: bool,
    s: ExecuteView,
    r: Result<(), ErrorView>,
) -> ExecuteView {
    match (s, r) {
        (ExecuteView::RequireNode(i), Ok(_)) => check_at(nodes, has_key, i + 1),
        (ExecuteView::RequireNode(_), Err(e)) => ExecuteView::Fail(e),
        (ExecuteView::CheckKey, Ok(_)) => ExecuteView::BuildEngine,
        (ExecuteView::CheckKey, Err(e)) => ExecuteView::Fail(e),
        (ExecuteView::BuildEngine, Ok(_)) => ExecuteView::Run,
        (ExecuteView::BuildEngine, Err(e)) => ExecuteView::Fail(build_error(e)),
        _ => s,
    }
}

/// What a check says.
pub open spec fn checked(r: Result<(), MatError>) -> Result<(), ErrorView> {
    match r {
        Ok(_) => Ok(()),
        Err(e) => Err(e@),
    }
}

fn next_check(p: &Plan, i: usize) -> (s: Execute)
    ensures
        s@ == check_at(p.nodes@, p.key is Some, i as int),
{
    if i < p.nodes.len() {
        Execute::RequireNode(i)
    } else if p.key.is_some() {
        Execute::CheckKey
    } else {
        Execute::BuildEngine
    }
}

/// Begins an operation on the direct path.
pub fn execute(p: &Plan) -> (s: Execute)
    ensures
        s@ == check_at(p.nodes@, p.key is Some, 0),
{
    next_check(p, 0)
}

/// Goes on with an operation on the direct path.
pub fn execute_next(p: &Plan, s: Execute, r: Result<(), MatError>) -> (n: Execute)
    requires
        s matches Execute::RequireNode(i) ==> i < p.nodes.len(),
    ensures
        n@ == execute_step(p.nodes@, p.key is Some, s@, checked(r)),
        n matches Execute::RequireNode(i) ==> i < p.nodes.len(),
{
    match (s, r) {
        (Execute::RequireNode(i), Ok(_)) => next_check(p, i + 1),
        (Execute::RequireNode(_), Err(e)) => Execute::Fail(e),
        (Execute::CheckKey, Ok(_)) => Execute::BuildEngine,
        (Execute::CheckKey, Err(e)) => Execute::Fail(e),
        (Execute::BuildEngine, Ok(_)) => Execute::Run,
        (Execute::BuildEngine, Err(e)) => Execute::Fail(map_engine_build_error(e)),
        (s, _) => s,
    }
}

/// The states of the direct path over the results of its checks.
pub open spec fn execute_run(
    nodes: Seq<u64>,
    has_key: bool,
    results: Seq<Result<(), ErrorView>>,
) -> ExecuteView
    decreases results.len(),
{
    if results.len() == 0 {
        check_at(nodes, has_key, 0)
    } else {
        execute_step(
            nodes,
            has_key,
            execute_run(nodes, has_key, results.drop_last()),
            results.last(),
        )
    }
}

/// How many checks come before the engine is built.
pub open spec fn checks(nodes: Seq<u64>, has_key: bool) -> int {
    nodes.len() + if has_key {
        1int
    } else {
        0int
    }
}

proof fn lemma_execute_position(
    nodes: Seq<u64>,
    has_key: bool,
    results: Seq<Result<(), ErrorView>>,
)
    ensures
        match execute_run(nodes, has_key, results) {
            ExecuteView::RequireNode(i) => i == results.len() && i < nodes.len() && forall|k: int|
                0 <= k < results.len() ==> (#[trigger] results[k]) is Ok,
            ExecuteView::CheckKey => has_key && results.len() == nodes.len() && forall|k: int|
                0 <= k < results.len() ==> (#[trigger] results[k]) is Ok,
            ExecuteView::BuildEngine => results.len() == checks(nodes, has_key) && forall|k: int|
                0 <= k < results.len() ==> (#[trigger] results[k]) is Ok,
            ExecuteView::Run => results.len() > checks(nodes, has_key) && forall|k: int|
                0 <= k <= checks(nodes, has_key) ==> (#[trigger] results[k]) is Ok,
            ExecuteView::Fail(_) => true,
        },
    decreases results.len(),
{
    if results.len() > 0 {
        let front = results.drop_last();
        lemma_execute_position(nodes, has_key, front);
        assert(forall|k: int| 0 <= k < front.len() ==> front[k] == #[trigger] results[k]);
    }
}

/// An operation runs only when every node, the key where one was given, and the
/// engine were in order.
pub proof fn law_nothing_runs_unchecked(
    nodes: Seq<u64>,
    has_key: bool,
    results: Seq<Result<(), ErrorView>>,
)
    requires
        execute_run(nodes, has_key, results) is Run,
    ensures
        results.len() > checks(nodes, has_key),
        forall|k: int| 0 <= k <= checks(nodes, has_key) ==> (#[trigger] results[k]) is Ok,
{
    lemma_execute_position(nodes, has_key, results);
}

/// The failure of an operation that took too long.
pub open spec fn late(op_timeout_ms: u64) -> ErrorView {
    error(
        ErrorKind::Timeout,
        "op deadline exceeded after "@ + text::dec(op_timeout_ms as nat) + "ms (direct path)"@,
    )
}

/// Ends an operation with a time limit: its result, and the node to tell the
/// daemon of. An operation that was cut off could not close its session, so the
/// daemon is told here; one that ended has done so itself.
pub fn run_op_with_deadline<T>(
    outcome: Option<Result<T, MatError>>,
    op_timeout_ms: u64,
    node_id: Option<u64>,
) -> (r: (Result<T, MatError>, Option<u64>))
    ensures
        match outcome {
            Some(o) => r.0 == o && r.1 is None,
            None => r.1 == node_id && (r.0 matches Err(e) && e@ == late(op_timeout_ms)),
        },
{
    match outcome {
        Some(o) => (o, None),
        None => (
            Err(
                MatError::new(
                    ErrorKind::Timeout,
                    "op deadline exceeded after ".to_owned().concat(
                        &text::decimal(op_timeout_ms),
                    ).concat("ms (direct path)"),
                ),
            ),
            node_id,
        ),
    }
}

/// What a node answers of its own accord: whether it is there, and its Thread
/// signals.
#[derive(Debug, PartialEq, Eq)]
pub struct DiagImProbe {
    pub resolved: bool,
    pub op_kind: Option<ErrorKind>,
    pub self_cfid: String,
    pub thread: Result<ThreadCheck, ErrorKind>,
}

/// What the reads on a session gave: the list of parts, where its ids are
/// known, and the rows of the Thread cluster.
#[derive(Debug, PartialEq, Eq)]
pub struct ImReads {
    pub parts: Option<Result<(), MatError>>,
    pub rows: Result<Vec<(u32, Json)>, MatError>,
}

/// Whether the node answered, and how it failed where it did not.
pub open spec fn answered(parts: Option<Result<(), MatError>>) -> (bool, Option<ErrorKind>) {
    match parts {
        None => (false, Some(ErrorKind::Other)),
        Some(Ok(_)) => (true, None),
        Some(Err(e)) => (false, Some(e.kind)),
    }
}

/// The Thread signals that the rows give.
pub open spec fn signals(
    rows: Result<Vec<(u32, Json)>, MatError>,
    attrs: ThreadAttributes,
) -> Result<ThreadCheck, ErrorKind> {
    match rows {
        Err(e) => Err(e.kind),
        Ok(v) => match thread_check(snapshot(row_views(v@), attrs).fields) {
            Err(e) => Err(e.kind),
            Ok(c) => Ok(c),
        },
    }
}

/// Sums up what a node answered. A node that no session could be made with is
/// not there, and gives no signals.
pub fn diag_im_with_engine(
    cfid: &[u8; 8],
    reads: Result<ImReads, MatError>,
    attrs: &ThreadAttributes,
) -> (p: DiagImProbe)
    ensures
        p.self_cfid@ == text::hex_upper(cfid@),
        reads matches Err(e) ==> !p.resolved && p.op_kind == Some(e.kind) && p.thread == Err::<
            ThreadCheck,
            ErrorKind,
        >(e.kind),
        reads matches Ok(x) ==> (p.resolved, p.op_kind) == answered(x.parts) && p.thread == signals(
            x.rows,
            *attrs,
        ),
{
    let self_cfid = text::hex_upper_text(cfid.as_slice());
    match reads {
        Err(e) => DiagImProbe {
            resolved: false,
            op_kind: Some(e.kind),
            self_cfid,
            thread: Err(e.kind),
        },
        Ok(x) => {
            let (resolved, op_kind) = match x.parts {
                None => (false, Some(ErrorKind::Other)),
                Some(Ok(_)) => (true, None),
                Some(Err(e)) => (false, Some(e.kind)),
            };
            let thread = match x.rows {
                Err(e) => Err(e.kind),
                Ok(v) => match thread_check_from_snapshot(&diag_thread(&v, attrs)) {
                    Err(e) => Err(e.kind),
                    Ok(c) => Ok(c),
                },
            };
            DiagImProbe { resolved, op_kind, self_cfid, thread }
        },
    }
}

/// What one node gives to the picture of the mesh.
#[derive(Debug, PartialEq, Eq)]
pub struct ProbeData {
    pub thread: Json,
    pub identity: Option<Identity>,
}

/// What a node gives to the picture says.
pub struct ProbeView {
    pub thread: JsonView,
    pub identity: Option<IdentityView>,
}

impl View for ProbeData {
    type V = ProbeView;

    open spec fn view(&self) -> ProbeView {
        ProbeView { thread: self.thread@, identity: identity_view(self.identity) }
    }
}

/// What a node gives: its Thread diagnosis is needed, its identity is not.
pub open spec fn mesh_data(
    rows: Result<Vec<(u32, Json)>, MatError>,
    interfaces: Result<Json, MatError>,
    attrs: ThreadAttributes,
) -> Result<ProbeView, ErrorView> {
    match rows {
        Err(e) => Err(e@),
        Ok(v) => Ok(
            ProbeView {
                thread: snapshot(row_views(v@), attrs).fields,
                identity: match interfaces {
                    Ok(i) => identity_in(i@),
                    Err(_) => None,
                },
            },
        ),
    }
}

/// Sums up what one node gives to the picture of the mesh.
pub fn mesh_probe_one(
    rows: Result<Vec<(u32, Json)>, MatError>,
    interfaces: Result<Json, MatError>,
    attrs: &ThreadAttributes,
) -> (r: Result<ProbeData, MatError>)
    ensures
        match r {
            Ok(d) => mesh_data(rows, interfaces, *attrs) == Ok::<ProbeView, ErrorView>(d@),
            Err(e) => mesh_data(rows, interfaces, *attrs) == Err::<ProbeView, ErrorView>(e@),
        },
{
    match rows {
        Err(e) => Err(e),
        Ok(v) => {
            let identity = match interfaces {
                Ok(i) => thread_identity(&i),
                Err(_) => None,
            };
            Ok(ProbeData { thread: diag_thread(&v, attrs).fields, identity })
        },
    }
}

/// How far the reads of a diagnosis are.
#[derive(Debug, PartialEq, Eq)]
pub enum ImPhase {
    /// The list of parts is asked for.
    Parts,
    /// The Thread cluster is asked for; what came of the list of parts is kept.
    Rows(Option<Result<(), MatError>>),
}

/// The read of the Thread cluster of an endpoint.
pub open spec fn thread_read(endpoint: u16) -> Call {
    Call::ReadCluster { endpoint, cluster: CLUSTER_THREAD_DIAG }
}

/// Begins the reads of a diagnosis: the list of parts, where its ids are known,
/// and then the Thread cluster.
pub fn diag_im(endpoint: u16, parts: Option<(u32, u32)>) -> (r: (ImPhase, Call))
    ensures
        match parts {
            Some((cluster, attribute)) => r == (
                ImPhase::Parts,
                (Call::ReadJson { endpoint: 0, cluster, attribute }),
            ),
            None => r == (ImPhase::Rows(None), thread_read(endpoint)),
        },
{
    match parts {
        Some((cluster, attribute)) => (
            ImPhase::Parts,
            Call::ReadJson { endpoint: 0, cluster, attribute },
        ),
        None => (
            ImPhase::Rows(None),
            Call::ReadCluster { endpoint, cluster: CLUSTER_THREAD_DIAG },
        ),
    }
}

/// Goes on with the reads of a diagnosis. The Thread cluster is read whatever
/// came of the list of parts, and neither failure ends the diagnosis.
pub fn diag_im_next(endpoint: u16, phase: ImPhase, reply: Reply) -> (r: Progress<ImPhase, ImReads>)
    requires
        phase is Parts ==> reply is Value,
        phase is Rows ==> reply is Rows,
    ensures
        match phase {
            ImPhase::Parts => r == Progress::<ImPhase, ImReads>::Call(
                ImPhase::Rows(
                    Some(
                        match reply->Value_0 {
                            Ok(_) => Ok(()),
                            Err(e) => Err(e),
                        },
                    ),
                ),
                thread_read(endpoint),
            ),
            ImPhase::Rows(parts) => r == Progress::<ImPhase, ImReads>::Done(
                ImReads { parts, rows: reply->Rows_0 },
            ),
        },
{
    match phase {
        ImPhase::Parts => {
            let parts = match reply.value() {
                Ok(_) => Ok(()),
                Err(e) => Err(e),
            };
            Progress::Call(
                ImPhase::Rows(Some(parts)),
                Call::ReadCluster { endpoint, cluster: CLUSTER_THREAD_DIAG },
            )
        },
        ImPhase::Rows(parts) => Progress::Done(ImReads { parts, rows: reply.rows() }),
    }
}

/// How far the reads for the picture of the mesh are.
#[derive(Debug, PartialEq, Eq)]
pub enum MeshPhase {
    /// The Thread cluster is asked for.
    Rows,
    /// The interfaces are asked for; the Thread cluster is kept.
    Interfaces(Vec<(u32, Json)>),
}

/// Begins the reads for the picture of the mesh: the Thread cluster, and then
/// the interfaces.
pub fn mesh_probe() -> (r: (MeshPhase, Call))
    ensures
        r == (MeshPhase::Rows, thread_read(0)),
{
    (MeshPhase::Rows, Call::ReadCluster { endpoint: 0, cluster: CLUSTER_THREAD_DIAG })
}

/// Goes on with the reads for the picture of the mesh. The interfaces are asked
/// for only behind a Thread cluster that was read, and what comes of them does
/// not fail the node.
pub fn mesh_probe_next(attrs: &ThreadAttributes, phase: MeshPhase, reply: Reply) -> (r: Progress<
    MeshPhase,
    ProbeData,
>)
    requires
        phase is Rows ==> reply is Rows,
        phase is Interfaces ==> reply is Value,
    ensures
        match phase {
            MeshPhase::Rows => match reply->Rows_0 {
                Err(e) => r == Progress::<MeshPhase, ProbeData>::Fail(e),
                Ok(rows) => r == Progress::<MeshPhase, ProbeData>::Call(
                    MeshPhase::Interfaces(rows),
                    (Call::ReadJson {
                        endpoint: 0,
                        cluster: CLUSTER_GENERAL_DIAG,
                        attribute: ATTR_NETWORK_INTERFACES,
                    }),
                ),
            },
            MeshPhase::Interfaces(rows) => r matches Progress::Done(d) && mesh_data(
                Ok(rows),
                reply->Value_0,
                *attrs,
            ) == Ok::<ProbeView, ErrorView>(d@),
        },
{
    match phase {
        MeshPhase::Rows => match reply.rows() {
            Err(e) => Progress::Fail(e),
            Ok(rows) => Progress::Call(
                MeshPhase::Interfaces(rows),
                Call::ReadJson {
                    endpoint: 0,
                    cluster: CLUSTER_GENERAL_DIAG,
                    attribute: ATTR_NETWORK_INTERFACES,
                },
            ),
        },
        MeshPhase::Interfaces(rows) => match mesh_probe_one(Ok(rows), reply.value(), attrs) {
            Ok(d) => Progress::Done(d),
            Err(e) => Progress::Fail(e),
        },
    }
}

/// The nodes that an operation needs are the ones that it names: its own, or
/// those of the list, in order. An operation of a group alone needs none.
pub proof fn law_operation_needs_the_nodes_it_names(op: DeviceOp)
    ensures
        op matches DeviceOp::Node(n) ==> needed_nodes(op) == seq![n.node_id] && single_node(op)
            == Some(n.node_id) && single_group(op) is None,
        op matches DeviceOp::Group(g) ==> needed_nodes(op).len() == 0 && single_group(op) == Some(
            g.group_id,
        ) && single_node(op) is None,
        op matches DeviceOp::GroupProvision(p) ==> needed_nodes(op) == p.node_ids@ && single_group(
            op,
        ) == Some(p.group_id) && given_key(op) == p.epoch_key,
        op matches DeviceOp::GroupGrant { group_id, node_ids } ==> needed_nodes(op) == node_ids@
            && single_group(op) == Some(group_id),
        op matches DeviceOp::GroupRemove { group_id, node_ids, .. } ==> needed_nodes(op)
            == node_ids@ && single_group(op) == Some(group_id),
        op is GroupBump ==> needed_nodes(op).len() == 0,
        !(op is GroupProvision) ==> given_key(op) is None,
        !(op is Node) ==> single_node(op) is None,
{
}

/// A store that is missing comes with the advice to make one, unless the error
/// gives it already; no other error is changed.
pub proof fn law_missing_store_comes_with_advice(e: ErrorView)
    ensures
        build_error(e).kind == e.kind,
        build_error(e).detail.take(e.detail.len() as int) == e.detail,
        e.kind != ErrorKind::StoreMissing ==> build_error(e) == e,
        e.kind == ErrorKind::StoreMissing ==> text::occurs(
            build_error(e).detail,
            "mat fabric init"@,
        ),
{
    let d = build_error(e).detail;
    assert(d.take(e.detail.len() as int) =~= e.detail);
    if e.kind == ErrorKind::StoreMissing && !text::occurs(e.detail, "mat fabric init"@) {
        let tail = " — run `mat fabric init` to bootstrap the credential store"@;
        reveal_strlit(" — run `mat fabric init` to bootstrap the credential store");
        reveal_strlit("mat fabric init");
        let k: int = (e.detail.len() + 8) as int;
        assert(d =~= e.detail + tail);
        assert(d.subrange(k, k + "mat fabric init"@.len()) =~= "mat fabric init"@);
        assert(text::occurs_at(d, "mat fabric init"@, k));
    }
}

/// The checks come in order: each node that is needed, then the key, then the
/// engine; any failure ends the operation with that failure.
pub proof fn law_checks_come_in_order(nodes: Seq<u64>, has_key: bool, i: int, e: ErrorView)
    requires
        0 <= i < nodes.len(),
    ensures
        check_at(nodes, has_key, 0) == ExecuteView::RequireNode(0),
        execute_step(nodes, has_key, ExecuteView::RequireNode(i), Ok(())) == (if i + 1
            < nodes.len() {
            ExecuteView::RequireNode(i + 1)
        } else if has_key {
            ExecuteView::CheckKey
        } else {
            ExecuteView::BuildEngine
        }),
        execute_step(nodes, has_key, ExecuteView::RequireNode(i), Err(e)) == ExecuteView::Fail(e),
        execute_step(nodes, has_key, ExecuteView::CheckKey, Ok(())) == ExecuteView::BuildEngine,
        execute_step(nodes, has_key, ExecuteView::CheckKey, Err(e)) == ExecuteView::Fail(e),
        execute_step(nodes, has_key, ExecuteView::BuildEngine, Ok(())) == ExecuteView::Run,
        execute_step(nodes, has_key, ExecuteView::BuildEngine, Err(e)) matches ExecuteView::Fail(f)
            && f.kind == e.kind,
{
}

/// A node counts as found if it answered, and its Thread signals are those of
/// the report; a failure of either keeps its kind.
pub proof fn law_probe_keeps_what_was_read(
    parts: Option<Result<(), MatError>>,
    rows: Result<Vec<(u32, Json)>, MatError>,
    interfaces: Result<Json, MatError>,
    attrs: ThreadAttributes,
)
    ensures
        answered(parts).0 <==> parts matches Some(Ok(_)),
        parts matches Some(Err(e)) ==> answered(parts).1 == Some(e.kind),
        parts matches Some(Ok(_)) ==> answered(parts).1 is None,
        rows matches Err(e) ==> signals(rows, attrs) == Err::<ThreadCheck, ErrorKind>(e.kind)
            && mesh_data(rows, interfaces, attrs) == Err::<ProbeView, ErrorView>(e@),
        rows matches Ok(v) ==> (thread_check(snapshot(row_views(v@), attrs).fields) matches Ok(c)
            ==> signals(rows, attrs) == Ok::<ThreadCheck, ErrorKind>(c)),
        rows matches Ok(v) ==> (mesh_data(rows, interfaces, attrs) matches Ok(p) && p.thread
            == snapshot(row_views(v@), attrs).fields && (interfaces matches Ok(i) ==> p.identity
            == identity_in(i@)) && (interfaces is Err ==> p.identity is None)),
{
}

/// A probe reads the Thread diagnosis of the endpoint that was asked for, and a
/// deadline that passed is a timeout that says how long it was.
pub proof fn law_probe_reads_the_thread_diagnosis(endpoint: u16, ms: u64)
    ensures
        thread_read(endpoint) == (Call::ReadCluster { endpoint, cluster: 0x0035 }),
        late(ms).kind == ErrorKind::Timeout,
        text::occurs(late(ms).detail, text::dec(ms as nat)),
{
    let d = late(ms).detail;
    let t = text::dec(ms as nat);
    let k: int = "op deadline exceeded after "@.len() as int;
    assert(d.subrange(k, k + t.len()) =~= t);
    assert(text::occurs_at(d, t, k));
}

/// Where the parts could not even be asked for, the failure is of no kind in
/// particular.
pub proof fn law_unasked_parts_are_of_no_kind()
    ensures
        answered(None) == (false, Some(ErrorKind::Other)),
{
}

/// Only leaving a fabric takes a node away.
pub proof fn law_only_leaving_removes_a_node(op: DeviceOp)
    ensures
        removes_node(op) <==> (op matches DeviceOp::Node(n) && n.kind is RemoveFabric),
{
}

} // verus!
