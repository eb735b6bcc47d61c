//! Rotation of the identity protection key.
//!
//! The next key is stored before any node is touched, so that an interrupted
//! rotation goes on with the same key. Each node is given the old and the new
//! key, and shows that it took the new one by accepting a session with it. The
//! controller changes over only when every node did.
use vstd::prelude::*;
use vstd::string::*;
use crate::error::{error, prefixed, ErrorKind, ErrorView, MatError};
use crate::group_node::hex_pairs;
use crate::group_settings::{map_rotation_err, rotation_error, GroupSettingsFailure};
use crate::json::{error_json, error_object, json_views, Json, JsonView};
use crate::runner::node_failure;
use crate::text;

verus! {

/// What to do with the key.
#[derive(Debug, Clone, Copy, PartialEq, Eq, Structural)]
pub enum RotateMode {
    Rotate,
    /// Give the current key to nodes that were left behind.
    CatchUp,
    /// Drop a key that is not in use yet.
    Abort,
}

/// What a rotation needs to know.
#[derive(Debug, PartialEq, Eq)]
pub struct RotateIpkParams {
    pub node_ids: Vec<u64>,
    pub mode: RotateMode,
    /// The time for one node; zero for no limit.
    pub per_node_timeout_ms: u64,
}

impl RotateIpkParams {
    /// The time for one node, where there is a limit.
    pub fn node_limit_ms(&self) -> (r: Option<u64>)
        ensures
            self.per_node_timeout_ms == 0 ==> r is None,
            self.per_node_timeout_ms > 0 ==> r == Some(self.per_node_timeout_ms),
    {
        if self.per_node_timeout_ms == 0 {
            None
        } else {
            Some(self.per_node_timeout_ms)
        }
    }
}

/// How a rotation ended.
#[derive(Debug, Clone, Copy, PartialEq, Eq, Structural)]
pub enum RotateStatus {
    Rotated,
    Pending,
    CaughtUp,
    CatchUpIncomplete,
    Aborted,
    Idle,
}

impl RotateStatus {
    /// The word for a status.
    pub open spec fn word(self) -> Seq<char> {
        match self {
            RotateStatus::Rotated => "rotated"@,
            RotateStatus::Pending => "pending"@,
            RotateStatus::CaughtUp => "caught_up"@,
            RotateStatus::CatchUpIncomplete => "catch_up_incomplete"@,
            RotateStatus::Aborted => "aborted"@,
            RotateStatus::Idle => "idle"@,
        }
    }

    /// The word for a status.
    pub fn as_str(self) -> (s: &'static str)
        ensures
            s@ == self.word(),
    {
        match self {
            RotateStatus::Rotated => "rotated",
            RotateStatus::Pending => "pending",
            RotateStatus::CaughtUp => "caught_up",
            RotateStatus::CatchUpIncomplete => "catch_up_incomplete",
            RotateStatus::Aborted => "aborted",
            RotateStatus::Idle => "idle",
        }
    }
}

/// What became of one node.
#[derive(Debug, PartialEq, Eq)]
pub struct NodeOutcome {
    pub node_id: u64,
    pub error: Option<MatError>,
}

/// What an outcome says.
pub struct OutcomeView {
    pub node_id: u64,
    pub error: Option<ErrorView>,
}

impl View for NodeOutcome {
    type V = OutcomeView;

    open spec fn view(&self) -> OutcomeView {
        OutcomeView {
            node_id: self.node_id,
            error: match self.error {
                Some(e) => Some(e@),
                None => None,
            },
        }
    }
}

/// What some outcomes say.
pub open spec fn outcomes(v: Seq<NodeOutcome>) -> Seq<OutcomeView> {
    Seq::new(v.len(), |i: int| v[i]@)
}

/// The end of a rotation.
#[derive(Debug, PartialEq, Eq)]
pub struct RotateOutcome {
    pub status: RotateStatus,
    pub nodes: Vec<NodeOutcome>,
}

/// What the end of a rotation says.
pub struct RotateView {
    pub status: RotateStatus,
    pub nodes: Seq<OutcomeView>,
}

impl View for RotateOutcome {
    type V = RotateView;

    open spec fn view(&self) -> RotateView {
        RotateView { status: self.status, nodes: outcomes(self.nodes@) }
    }
}

/// The report of one node.
pub open spec fn node_body(n: OutcomeView) -> JsonView {
    let base = Seq::<(Seq<char>, JsonView)>::empty().push(("node_id"@, JsonView::UInt(n.node_id)));
    JsonView::Object(
        match n.error {
            None => base.push(("status"@, JsonView::Str("ok"@))),
            Some(e) => base.push(("status"@, JsonView::Str("failed"@))).push(
                ("error"@, error_json(e)),
            ),
        },
    )
}

/// The advice that goes with a status.
pub open spec fn note_of(status: RotateStatus) -> Option<Seq<char>> {
    match status {
        RotateStatus::Rotated => Some(
            "if matd is running, restart it before the next rotation to load the new IPK; nodes left out of --nodes need `mat fabric rotate-ipk --catch-up --nodes <N>`"@,
        ),
        RotateStatus::Pending => Some(
            "no controller-side change yet; re-run `mat fabric rotate-ipk` with the same nodes to retry, or with --nodes <subset> to commit without the failed ones (catch them up later with --catch-up)"@,
        ),
        RotateStatus::CatchUpIncomplete => Some(
            "failed nodes may be two epochs behind; if --catch-up keeps failing with session_failed, re-commission them"@,
        ),
        _ => None,
    }
}

/// The report of a rotation. It holds no key.
pub open spec fn rotate_body(r: RotateView, fabric_index: u8) -> JsonView {
    let base = Seq::<(Seq<char>, JsonView)>::empty().push(
        ("fabric_index"@, JsonView::UInt(fabric_index as u64)),
    ).push(("status"@, JsonView::Str(r.status.word()))).push(
        (
            "nodes"@,
            JsonView::Array(Seq::new(r.nodes.len(), |i: int| node_body(r.nodes[i]))),
        ),
    );
    JsonView::Object(
        match note_of(r.status) {
            Some(note) => base.push(("note"@, JsonView::Str(note))),
            None => base,
        },
    )
}

/// Those of some outcomes that failed, in order.
pub open spec fn failures(nodes: Seq<OutcomeView>) -> Seq<OutcomeView>
    decreases nodes.len(),
{
    if nodes.len() == 0 {
        Seq::empty()
    } else if nodes.last().error is Some {
        failures(nodes.drop_last()).push(nodes.last())
    } else {
        failures(nodes.drop_last())
    }
}

/// How a failed node is listed.
pub open spec fn failure_text(n: OutcomeView) -> Seq<char> {
    "node "@ + text::dec(n.node_id as nat) + ": "@ + n.error->0.kind.name()
}

/// The list of failed nodes.
pub open spec fn failure_texts(nodes: Seq<OutcomeView>) -> Seq<Seq<char>> {
    Seq::new(failures(nodes).len(), |i: int| failure_text(failures(nodes)[i]))
}

/// What a status with failed nodes is called.
pub open spec fn partial_name(status: RotateStatus) -> Option<Seq<char>> {
    match status {
        RotateStatus::Pending => Some("ipk rotation pending"@),
        RotateStatus::CatchUpIncomplete => Some("ipk catch-up incomplete"@),
        _ => None,
    }
}

/// The error that goes with failed nodes: of the kind of the first of them.
pub open spec fn partial(r: RotateView) -> Option<ErrorView> {
    match partial_name(r.status) {
        Some(what) if failures(r.nodes).len() > 0 => Some(
            error(
                failures(r.nodes)[0].error->0.kind,
                what + ": "@ + text::dec(failures(r.nodes).len()) + " of "@ + text::dec(
                    r.nodes.len(),
                ) + " nodes failed ("@ + text::joined(failure_texts(r.nodes), ", "@)
                    + "); see stdout for per-node detail"@,
            ),
        ),
        _ => None,
    }
}

fn node_report(n: &NodeOutcome) -> (j: Json)
    ensures
        j@ == node_body(n@),
{
    let base = Json::object().with("node_id", Json::UInt(n.node_id));
    match &n.error {
        None => base.with("status", Json::text("ok")),
        Some(e) => base.with("status", Json::text("failed")).with("error", error_object(e)),
    }
}

impl RotateOutcome {
    /// The advice that goes with the status.
    pub fn note(&self) -> (r: Option<&'static str>)
        ensures
            r is Some <==> note_of(self.status) is Some,
            r matches Some(s) ==> note_of(self.status) == Some(s@),
    {
        match self.status {
            RotateStatus::Rotated => Some(
                "if matd is running, restart it before the next rotation to load the new IPK; nodes left out of --nodes need `mat fabric rotate-ipk --catch-up --nodes <N>`",
            ),
            RotateStatus::Pending => Some(
                "no controller-side change yet; re-run `mat fabric rotate-ipk` with the same nodes to retry, or with --nodes <subset> to commit without the failed ones (catch them up later with --catch-up)",
            ),
            RotateStatus::CatchUpIncomplete => Some(
                "failed nodes may be two epochs behind; if --catch-up keeps failing with session_failed, re-commission them",
            ),
            _ => None,
        }
    }

    /// The report of the rotation.
    pub fn body(&self, fabric_index: u8) -> (j: Json)
        ensures
            j@ == rotate_body(self@, fabric_index),
    {
        let mut items: Vec<Json> = Vec::new();
        let mut i: usize = 0;
        while i < self.nodes.len()
            invariant
                i <= self.nodes.len(),
                items.len() == i,
                forall|k: int| 0 <= k < i ==> (#[trigger] items@[k])@ == node_body(self.nodes@[k]@),
            decreases self.nodes.len() - i,
        {
            items.push(node_report(&self.nodes[i]));
            i += 1;
        }
        assert(json_views(items@) =~= Seq::new(
            self@.nodes.len(),
            |k: int| node_body(self@.nodes[k]),
        ));
        let base = Json::object().with("fabric_index", Json::UInt(fabric_index as u64)).with(
            "status",
            Json::text(self.status.as_str()),
        ).with("nodes", Json::array(items));
        match self.note() {
            Some(note) => base.with("note", Json::text(note)),
            None => base,
        }
    }

    /// The error that goes with failed nodes; none where the rotation is
    /// complete.
    pub fn partial_error(&self) -> (r: Option<MatError>)
        ensures
            r is Some <==> partial(self@) is Some,
            r matches Some(e) ==> partial(self@) == Some(e@),
    {
        let what = match self.status {
            RotateStatus::Pending => "ipk rotation pending",
            RotateStatus::CatchUpIncomplete => "ipk catch-up incomplete",
            _ => {
                return None;
            },
        };
        let ghost all = self@.nodes;
        let mut list: Vec<String> = Vec::new();
        let mut first: Option<ErrorKind> = None;
        assert(text::texts(list@) =~= failure_texts(all.take(0)));
        let mut i: usize = 0;
        while i < self.nodes.len()
            invariant
                i <= self.nodes.len(),
                all == outcomes(self.nodes@),
                text::texts(list@) == failure_texts(all.take(i as int)),
                list.len() == failures(all.take(i as int)).len(),
                list.len() == 0 ==> first is None,
                list.len() > 0 ==> first == Some(failures(all.take(i as int))[0].error->0.kind),
            decreases self.nodes.len() - i,
        {
            assert(all.take(i + 1).drop_last() =~= all.take(i as int));
            assert(all.take(i + 1).last() == self.nodes@[i as int]@);
            let n = &self.nodes[i];
            if let Some(e) = &n.error {
                let ghost before = failures(all.take(i as int));
                let ghost texts_before = text::texts(list@);
                if list.len() == 0 {
                    first = Some(e.kind);
                }
                list.push(
                    "node ".to_owned().concat(&text::decimal(n.node_id)).concat(": ").concat(
                        e.kind.as_str(),
                    ),
                );
                assert(failures(all.take(i + 1)) == before.push(n@));
                assert(text::texts(list@) =~= texts_before.push(failure_text(n@)));
                assert(text::texts(list@) =~= failure_texts(all.take(i + 1)));
            }
            i += 1;
        }
        assert(all.take(i as int) =~= all);
        match first {
            None => None,
            Some(kind) => Some(
                MatError::new(
                    kind,
                    what.to_owned().concat(": ").concat(&text::decimal(list.len() as u64)).concat(
                        " of ",
                    ).concat(&text::decimal(self.nodes.len() as u64)).concat(
                        " nodes failed (",
                    ).concat(&text::join(&list, ", ")).concat(
                        "); see stdout for per-node detail",
                    ),
                ),
            ),
        }
    }
}

/// A place of the store that holds a key.
#[derive(Debug, Clone, Copy, PartialEq, Eq, Structural)]
pub enum IpkEpochSlot {
    Current,
    Next,
    Prev,
}

impl IpkEpochSlot {
    /// The name of a place.
    pub open spec fn label(self) -> Seq<char> {
        match self {
            IpkEpochSlot::Current => "Current"@,
            IpkEpochSlot::Next => "Next"@,
            IpkEpochSlot::Prev => "Prev"@,
        }
    }

    fn name(self) -> (s: &'static str)
        ensures
            s@ == self.label(),
    {
        match self {
            IpkEpochSlot::Current => "Current",
            IpkEpochSlot::Next => "Next",
            IpkEpochSlot::Prev => "Prev",
        }
    }
}

/// The failure to read a key from its place.
pub open spec fn slot_error(slot: IpkEpochSlot, detail: Seq<char>) -> ErrorView {
    error(ErrorKind::StoreParse, "kvs ipk epoch ("@ + slot.label() + "): "@ + detail)
}

/// Maps the failure to read a key from its place.
pub fn read_slot_error(slot: IpkEpochSlot, detail: &str) -> (e: MatError)
    ensures
        e@ == slot_error(slot, detail@),
{
    MatError::new(
        ErrorKind::StoreParse,
        "kvs ipk epoch (".to_owned().concat(slot.name()).concat("): ").concat(detail),
    )
}

/// The refusal of a made key. It does not show the key.
pub open spec fn bad_generated() -> ErrorView {
    error(ErrorKind::Other, "generated epoch key is not 32 hex chars (internal)"@)
}

/// The key that 32 hex digits spell.
pub open spec fn generated_key(hex: Seq<char>) -> Option<Seq<u8>> {
    let bytes = vstd::utf8::encode_utf8(hex);
    if bytes.len() == 32 {
        hex_pairs(bytes, 16)
    } else {
        None
    }
}

/// Reads a key that was just made. A failure does not show the key.
pub fn decode_generated_epoch_hex(hex: &str) -> (r: Result<[u8; 16], MatError>)
    ensures
        r is Ok <==> generated_key(hex@) is Some,
        r matches Ok(k) ==> generated_key(hex@) == Some(k@),
        r matches Err(e) ==> e@ == bad_generated(),
{
    match crate::group_node::epoch_key_from_hex(hex) {
        Ok(k) => Ok(k),
        Err(_) => Err(
            MatError::fixed(
                ErrorKind::Other,
                "generated epoch key is not 32 hex chars (internal)",
            ),
        ),
    }
}

fn same_key(a: &[u8; 16], b: &[u8; 16]) -> (r: bool)
    ensures
        r == (a@ == b@),
{
    let mut i: usize = 0;
    while i < 16
        invariant
            i <= 16,
            forall|k: int| 0 <= k < i ==> a@[k] == b@[k],
        decreases 16 - i,
    {
        if a[i] != b[i] {
            return false;
        }
        i += 1;
    }
    assert(a@ =~= b@);
    true
}

/// What a rotation does next.
#[derive(Debug, PartialEq, Eq)]
pub enum Rotation {
    /// Read the key of an interrupted rotation.
    ReadNext,
    /// Make a key.
    Generate,
    /// Store the next key.
    Begin([u8; 16]),
    /// Prepare sessions with the current and with the next key.
    Prepare([u8; 16]),
    /// Give both keys to the node behind those done.
    Node { next: [u8; 16], done: Vec<NodeOutcome> },
    /// Change over.
    Commit { next: [u8; 16], nodes: Vec<NodeOutcome> },
}

/// What a step of a rotation says.
pub enum RotationView {
    ReadNext,
    Generate,
    Begin(Seq<u8>),
    Prepare(Seq<u8>),
    Node { next: Seq<u8>, done: Seq<OutcomeView> },
    Commit { next: Seq<u8>, nodes: Seq<OutcomeView> },
}

impl View for Rotation {
    type V = RotationView;

    open spec fn view(&self) -> RotationView {
        match *self {
            Rotation::ReadNext => RotationView::ReadNext,
            Rotation::Generate => RotationView::Generate,
            Rotation::Begin(k) => RotationView::Begin(k@),
            Rotation::Prepare(k) => RotationView::Prepare(k@),
            Rotation::Node { next, done } => RotationView::Node {
                next: next@,
                done: outcomes(done@),
            },
            Rotation::Commit { next, nodes } => RotationView::Commit {
                next: next@,
                nodes: outcomes(nodes@),
            },
        }
    }
}

/// What came of a step of a rotation or of catching up.
#[derive(Debug, PartialEq, Eq)]
pub enum RotateEvent {
    /// The key in a place, or why it could not be read.
    SlotRead(Result<Option<[u8; 16]>, String>),
    Generated(String),
    Stored(Result<(), GroupSettingsFailure>),
    Prepared(Result<(), MatError>),
    NodeDone(Result<(), MatError>),
}

/// Where a rotation or catching up stands.
#[derive(Debug, PartialEq, Eq)]
pub enum Turn<S> {
    Go(S),
    Done(RotateOutcome),
    Fail(MatError),
}

/// What a turn says.
pub enum TurnView<S> {
    Go(S),
    Done(RotateView),
    Fail(ErrorView),
}

impl<S: View> View for Turn<S> {
    type V = TurnView<S::V>;

    open spec fn view(&self) -> TurnView<S::V> {
        match *self {
            Turn::Go(s) => TurnView::Go(s@),
            Turn::Done(o) => TurnView::Done(o@),
            Turn::Fail(e) => TurnView::Fail(e@),
        }
    }
}

/// Whether an event answers what a rotation waits for.
pub open spec fn rotate_expects(s: RotationView, ev: RotateEvent) -> bool {
    match s {
        RotationView::ReadNext => ev is SlotRead,
        RotationView::Generate => ev is Generated,
        RotationView::Begin(_) => ev is Stored,
        RotationView::Prepare(_) => ev is Prepared,
        RotationView::Node { .. } => ev is NodeDone,
        RotationView::Commit { .. } => ev is Stored,
    }
}

/// The outcome of a node that gave a result.
pub open spec fn outcome_of(node_id: u64, r: Result<(), MatError>) -> OutcomeView {
    OutcomeView {
        node_id,
        error: match r {
            Ok(_) => None,
            Err(e) => Some(e@),
        },
    }
}

/// The next node of a rotation, or its end: the change-over where no node
/// failed.
pub open spec fn rotate_at(node_ids: Seq<u64>, next: Seq<u8>, done: Seq<OutcomeView>) -> TurnView<
    RotationView,
> {
    if done.len() < node_ids.len() {
        TurnView::Go(RotationView::Node { next, done })
    } else if failures(done).len() > 0 {
        TurnView::Done(RotateView { status: RotateStatus::Pending, nodes: done })
    } else {
        TurnView::Go(RotationView::Commit { next, nodes: done })
    }
}

/// What follows in a rotation.
pub open spec fn rotate_step(
    cur: Seq<u8>,
    node_ids: Seq<u64>,
    s: RotationView,
    ev: RotateEvent,
) -> TurnView<RotationView> {
    match s {
        RotationView::ReadNext => match ev->SlotRead_0 {
            Err(detail) => TurnView::Fail(slot_error(IpkEpochSlot::Next, detail@)),
            Ok(Some(k)) => TurnView::Go(RotationView::Prepare(k@)),
            Ok(None) => TurnView::Go(RotationView::Generate),
        },
        RotationView::Generate => match generated_key(ev->Generated_0@) {
            None => TurnView::Fail(bad_generated()),
            Some(k) => if k == cur {
                TurnView::Go(RotationView::Generate)
            } else {
                TurnView::Go(RotationView::Begin(k))
            },
        },
        RotationView::Begin(k) => match ev->Stored_0 {
            Err(f) => TurnView::Fail(rotation_error(f)),
            Ok(_) => TurnView::Go(RotationView::Prepare(k)),
        },
        RotationView::Prepare(k) => match ev->Prepared_0 {
            Err(e) => TurnView::Fail(e@),
            Ok(_) => rotate_at(node_ids, k, Seq::empty()),
        },
        RotationView::Node { next, done } => rotate_at(
            node_ids,
            next,
            done.push(outcome_of(node_ids[done.len() as int], ev->NodeDone_0)),
        ),
        RotationView::Commit { next, nodes } => match ev->Stored_0 {
            Err(f) => TurnView::Fail(rotation_error(f)),
            Ok(_) => TurnView::Done(RotateView { status: RotateStatus::Rotated, nodes }),
        },
    }
}

fn any_failed(nodes: &Vec<NodeOutcome>) -> (r: bool)
    ensures
        r == (failures(outcomes(nodes@)).len() > 0),
{
    let ghost all = outcomes(nodes@);
    let mut i: usize = 0;
    while i < nodes.len()
        invariant
            i <= nodes.len(),
            all == outcomes(nodes@),
            failures(all.take(i as int)).len() == 0,
        decreases nodes.len() - i,
    {
        assert(all.take(i + 1).drop_last() =~= all.take(i as int));
        assert(all.take(i + 1).last() == nodes@[i as int]@);
        if nodes[i].error.is_some() {
            proof {
                lemma_failures_grow(all, i + 1);
            }
            return true;
        }
        i += 1;
    }
    assert(all.take(i as int) =~= all);
    false
}

proof fn lemma_failures_grow(nodes: Seq<OutcomeView>, i: int)
    requires
        0 <= i <= nodes.len(),
    ensures
        failures(nodes.take(i)).len() <= failures(nodes).len(),
    decreases nodes.len() - i,
{
    if i < nodes.len() {
        assert(nodes.take(i + 1).drop_last() =~= nodes.take(i));
        lemma_failures_grow(nodes, i + 1);
    } else {
        assert(nodes.take(i) =~= nodes);
    }
}

fn add_outcome(done: Vec<NodeOutcome>, node_id: u64, r: Result<(), MatError>) -> (v: Vec<
    NodeOutcome,
>)
    ensures
        outcomes(v@) == outcomes(done@).push(outcome_of(node_id, r)),
{
    let ghost before = outcomes(done@);
    let mut done = done;
    let error = match r {
        Ok(_) => None,
        Err(e) => Some(e),
    };
    done.push(NodeOutcome { node_id, error });
    assert(outcomes(done@) =~= before.push(outcome_of(node_id, r)));
    done
}

fn next_rotation(node_ids: &Vec<u64>, next: [u8; 16], done: Vec<NodeOutcome>) -> (r: Turn<Rotation>)
    ensures
        r@ == rotate_at(node_ids@, next@, outcomes(done@)),
        r matches Turn::Go(Rotation::Node { done: d, .. }) ==> d.len() < node_ids.len(),
{
    if done.len() < node_ids.len() {
        Turn::Go(Rotation::Node { next, done })
    } else if any_failed(&done) {
        Turn::Done(RotateOutcome { status: RotateStatus::Pending, nodes: done })
    } else {
        Turn::Go(Rotation::Commit { next, nodes: done })
    }
}

/// Goes on with a rotation.
pub fn rotate(cur: &[u8; 16], node_ids: &Vec<u64>, s: Rotation, ev: RotateEvent) -> (r: Turn<
    Rotation,
>)
    requires
        rotate_expects(s@, ev),
        s matches Rotation::Node { done, .. } ==> done.len() < node_ids.len(),
    ensures
        r@ == rotate_step(cur@, node_ids@, s@, ev),
        r matches Turn::Go(Rotation::Node { done, .. }) ==> done.len() < node_ids.len(),
{
    match (s, ev) {
        (Rotation::ReadNext, RotateEvent::SlotRead(r)) => match r {
            Err(detail) => Turn::Fail(read_slot_error(IpkEpochSlot::Next, detail.as_str())),
            Ok(Some(k)) => Turn::Go(Rotation::Prepare(k)),
            Ok(None) => Turn::Go(Rotation::Generate),
        },
        (Rotation::Generate, RotateEvent::Generated(hex)) => match decode_generated_epoch_hex(
            hex.as_str(),
        ) {
            Err(e) => Turn::Fail(e),
            Ok(k) => if same_key(&k, cur) {
                Turn::Go(Rotation::Generate)
            } else {
                Turn::Go(Rotation::Begin(k))
            },
        },
        (Rotation::Begin(k), RotateEvent::Stored(r)) => match r {
            Err(f) => Turn::Fail(map_rotation_err(f)),
            Ok(_) => Turn::Go(Rotation::Prepare(k)),
        },
        (Rotation::Prepare(k), RotateEvent::Prepared(r)) => match r {
            Err(e) => Turn::Fail(e),
            Ok(_) => {
                let none: Vec<NodeOutcome> = Vec::new();
                assert(outcomes(none@) =~= Seq::empty());
                next_rotation(node_ids, k, none)
            },
        },
        (Rotation::Node { next, done }, RotateEvent::NodeDone(r)) => {
            let id: u64 = node_ids[done.len()];
            next_rotation(node_ids, next, add_outcome(done, id, r))
        },
        (Rotation::Commit { next, nodes }, RotateEvent::Stored(r)) => match r {
            Err(f) => Turn::Fail(map_rotation_err(f)),
            Ok(_) => Turn::Done(RotateOutcome { status: RotateStatus::Rotated, nodes }),
        },
        _ => vstd::pervasive::unreached(),
    }
}

/// No node is touched before the next key is stored: a rotation prepares only
/// with the key that was found stored or that was just stored.
pub proof fn law_next_key_is_stored_first(
    cur: Seq<u8>,
    node_ids: Seq<u64>,
    s: RotationView,
    ev: RotateEvent,
    k: Seq<u8>,
)
    requires
        rotate_expects(s, ev),
        rotate_step(cur, node_ids, s, ev) == TurnView::Go(RotationView::Prepare(k)),
    ensures
        (s is ReadNext && (ev->SlotRead_0 matches Ok(Some(key)) && key@ == k)) || (s
            == RotationView::Begin(k) && ev->Stored_0 is Ok),
{
}

/// A node is given keys only once sessions were prepared, and then in turn: the
/// key stays the one that was prepared.
pub proof fn law_nodes_get_the_prepared_key(
    cur: Seq<u8>,
    node_ids: Seq<u64>,
    s: RotationView,
    ev: RotateEvent,
    next: Seq<u8>,
    done: Seq<OutcomeView>,
)
    requires
        rotate_expects(s, ev),
        rotate_step(cur, node_ids, s, ev) == TurnView::Go(RotationView::Node { next, done }),
    ensures
        (s == RotationView::Prepare(next) && done.len() == 0) || (s matches RotationView::Node {
            next: n,
            done: d,
        } && n == next && done.len() == d.len() + 1),
{
}

/// An interrupted rotation goes on with the key that it stored: no other is
/// made.
pub proof fn law_resume_keeps_the_key(cur: Seq<u8>, node_ids: Seq<u64>, k: [u8; 16])
    ensures
        rotate_step(cur, node_ids, RotationView::ReadNext, RotateEvent::SlotRead(Ok(Some(k))))
            == TurnView::Go(RotationView::Prepare(k@)),
{
}

/// A key that is made for a rotation is not the current one.
pub proof fn law_made_key_is_new(
    cur: Seq<u8>,
    node_ids: Seq<u64>,
    hex: String,
    k: Seq<u8>,
)
    requires
        rotate_step(cur, node_ids, RotationView::Generate, RotateEvent::Generated(hex))
            == TurnView::Go(RotationView::Begin(k)),
    ensures
        k != cur,
{
}

proof fn lemma_no_failures(nodes: Seq<OutcomeView>)
    ensures
        failures(nodes).len() == 0 <==> forall|i: int|
            0 <= i < nodes.len() ==> (#[trigger] nodes[i]).error is None,
    decreases nodes.len(),
{
    if nodes.len() > 0 {
        let front = nodes.drop_last();
        lemma_no_failures(front);
        if failures(nodes).len() == 0 {
            assert forall|i: int| 0 <= i < nodes.len() implies (#[trigger] nodes[i]).error is None by {
                if i < front.len() {
                    assert(front[i] == nodes[i]);
                }
            }
        } else if forall|i: int| 0 <= i < nodes.len() ==> (#[trigger] nodes[i]).error is None {
            assert forall|i: int| 0 <= i < front.len() implies (#[trigger] front[i]).error is None by {
                assert(front[i] == nodes[i]);
            }
            assert(nodes[nodes.len() - 1].error is None);
        }
    }
}

/// Once every node gave its result the controller changes over exactly when
/// none of them failed; otherwise the rotation stays pending.
pub proof fn law_change_over_needs_every_node(
    node_ids: Seq<u64>,
    next: Seq<u8>,
    done: Seq<OutcomeView>,
)
    requires
        done.len() >= node_ids.len(),
    ensures
        (forall|i: int| 0 <= i < done.len() ==> (#[trigger] done[i]).error is None)
            ==> rotate_at(node_ids, next, done) == TurnView::Go(
            RotationView::Commit { next, nodes: done },
        ),
        (exists|i: int| 0 <= i < done.len() && (#[trigger] done[i]).error is Some)
            ==> rotate_at(node_ids, next, done) == TurnView::<RotationView>::Done(
            RotateView { status: RotateStatus::Pending, nodes: done },
        ),
{
    lemma_no_failures(done);
}

/// The keys that a store keeps for a fabric.
pub struct Slots {
    pub current: Option<Seq<u8>>,
    pub next: Option<Seq<u8>>,
    pub prev: Option<Seq<u8>>,
}

/// Whether a reading, where it succeeds, gives what stands in a place.
pub open spec fn reads(r: Result<Option<[u8; 16]>, String>, slot: Option<Seq<u8>>) -> bool {
    match r {
        Err(_) => true,
        Ok(Some(k)) => slot == Some(k@),
        Ok(None) => slot is None,
    }
}

/// Whether an event is one that a store with these keys can give.
pub open spec fn rotate_tells(slots: Slots, s: RotationView, ev: RotateEvent) -> bool {
    &&& rotate_expects(s, ev)
    &&& s is ReadNext ==> reads(ev->SlotRead_0, slots.next)
}

/// The keys of a store behind a step of a rotation: a next key that was stored
/// waits in its place, and the change-over moves it and the current key one
/// place on. A write that failed changes nothing.
pub open spec fn slots_after(
    slots: Slots,
    cur: Seq<u8>,
    s: RotationView,
    ev: RotateEvent,
) -> Slots {
    match s {
        RotationView::Begin(k) => if ev->Stored_0 is Ok {
            Slots { current: slots.current, next: Some(k), prev: slots.prev }
        } else {
            slots
        },
        RotationView::Commit { next, .. } => if ev->Stored_0 is Ok {
            Slots { current: Some(next), next: None, prev: Some(cur) }
        } else {
            slots
        },
        _ => slots,
    }
}

/// A rotation and the keys of its store.
pub struct RotateState {
    pub turn: TurnView<RotationView>,
    pub slots: Slots,
}

/// Where a rotation over some events stands, and what the store then keeps.
pub open spec fn rotate_run(
    cur: Seq<u8>,
    node_ids: Seq<u64>,
    slots: Slots,
    events: Seq<RotateEvent>,
) -> RotateState
    decreases events.len(),
{
    if events.len() == 0 {
        RotateState { turn: TurnView::Go(RotationView::ReadNext), slots }
    } else {
        let before = rotate_run(cur, node_ids, slots, events.drop_last());
        match before.turn {
            TurnView::Go(s) => RotateState {
                turn: rotate_step(cur, node_ids, s, events.last()),
                slots: slots_after(before.slots, cur, s, events.last()),
            },
            _ => before,
        }
    }
}

/// Whether every event of a rotation is one that its store can give.
pub open spec fn rotate_told(
    cur: Seq<u8>,
    node_ids: Seq<u64>,
    slots: Slots,
    events: Seq<RotateEvent>,
) -> bool
    decreases events.len(),
{
    if events.len() == 0 {
        true
    } else {
        let before = rotate_run(cur, node_ids, slots, events.drop_last());
        rotate_told(cur, node_ids, slots, events.drop_last()) && (before.turn matches TurnView::Go(
            s,
        ) ==> rotate_tells(before.slots, s, events.last()))
    }
}

/// Whether a rotation knows no key but the current one and this one, and the
/// store keeps this one: as the next key until the change-over, which makes it
/// the current one.
pub open spec fn keeps_key(cur: Seq<u8>, slots: Slots, n: Seq<u8>, r: RotateState) -> bool {
    let waiting = Slots { current: slots.current, next: Some(n), prev: slots.prev };
    match r.turn {
        TurnView::Go(s) => r.slots == waiting && match s {
            RotationView::ReadNext => true,
            RotationView::Generate => false,
            RotationView::Begin(_) => false,
            RotationView::Prepare(k) => k == n,
            RotationView::Node { next, .. } => next == n,
            RotationView::Commit { next, .. } => next == n,
        },
        TurnView::Done(o) => match o.status {
            RotateStatus::Rotated => r.slots == (Slots {
                current: Some(n),
                next: None,
                prev: Some(cur),
            }),
            RotateStatus::Pending => r.slots == waiting,
            _ => false,
        },
        TurnView::Fail(_) => r.slots == waiting,
    }
}

/// A rotation that finds a next key stored goes on with it to the end: no other
/// key is made, stored, or used for a session. Where it changes over, that key
/// is the current one, the one before it the previous one, and none waits;
/// where it does not, the store is as it was found.
pub proof fn law_resumed_rotation_keeps_its_key(
    cur: Seq<u8>,
    node_ids: Seq<u64>,
    slots: Slots,
    n: Seq<u8>,
    events: Seq<RotateEvent>,
)
    requires
        slots.next == Some(n),
        rotate_told(cur, node_ids, slots, events),
    ensures
        keeps_key(cur, slots, n, rotate_run(cur, node_ids, slots, events)),
    decreases events.len(),
{
    if events.len() > 0 {
        law_resumed_rotation_keeps_its_key(cur, node_ids, slots, n, events.drop_last());
    }
}

/// Whether a rotation has stored its key by the time it uses it.
pub open spec fn stores_key(cur: Seq<u8>, slots: Slots, r: RotateState) -> bool {
    match r.turn {
        TurnView::Go(s) => match s {
            RotationView::ReadNext => r.slots == slots,
            RotationView::Generate => r.slots == slots,
            RotationView::Begin(k) => r.slots == slots && k != cur,
            RotationView::Prepare(k) => k != cur && keeps_key(cur, slots, k, r),
            RotationView::Node { next, .. } => next != cur && keeps_key(cur, slots, next, r),
            RotationView::Commit { next, .. } => next != cur && keeps_key(cur, slots, next, r),
        },
        TurnView::Done(o) => match o.status {
            RotateStatus::Rotated => r.slots.current matches Some(k) && k != cur && keeps_key(
                cur,
                slots,
                k,
                r,
            ),
            RotateStatus::Pending => r.slots.next matches Some(k) && k != cur && keeps_key(
                cur,
                slots,
                k,
                r,
            ),
            _ => false,
        },
        TurnView::Fail(_) => r.slots.current == slots.current && r.slots.prev == slots.prev,
    }
}

/// A rotation that finds no next key makes one that is not the current one, and
/// stores it before a node sees it. Where it stays pending the key waits in the
/// store and nothing else changed there; where it changes over, the key is the
/// current one.
pub proof fn law_new_rotation_stores_its_key(
    cur: Seq<u8>,
    node_ids: Seq<u64>,
    slots: Slots,
    events: Seq<RotateEvent>,
)
    requires
        slots.next is None,
        rotate_told(cur, node_ids, slots, events),
    ensures
        stores_key(cur, slots, rotate_run(cur, node_ids, slots, events)),
    decreases events.len(),
{
    if events.len() > 0 {
        law_new_rotation_stores_its_key(cur, node_ids, slots, events.drop_last());
    }
}

/// A rotation that stayed pending leaves a key behind, and the one that follows
/// it, whatever its nodes are, goes on with that key alone.
pub proof fn law_pending_rotation_is_resumed(
    cur: Seq<u8>,
    first_nodes: Seq<u64>,
    then_nodes: Seq<u64>,
    slots: Slots,
    first: Seq<RotateEvent>,
    then_events: Seq<RotateEvent>,
)
    requires
        rotate_told(cur, first_nodes, slots, first),
        rotate_run(cur, first_nodes, slots, first).turn matches TurnView::Done(o) && o.status
            == RotateStatus::Pending,
        rotate_told(
            cur,
            then_nodes,
            rotate_run(cur, first_nodes, slots, first).slots,
            then_events,
        ),
    ensures
        ({
            let left = rotate_run(cur, first_nodes, slots, first).slots;
            &&& left.current == slots.current
            &&& left.prev == slots.prev
            &&& left.next matches Some(n) && keeps_key(
                cur,
                left,
                n,
                rotate_run(cur, then_nodes, left, then_events),
            )
        }),
{
    match slots.next {
        Some(n) => {
            law_resumed_rotation_keeps_its_key(cur, first_nodes, slots, n, first);
        },
        None => {
            law_new_rotation_stores_its_key(cur, first_nodes, slots, first);
        },
    }
    let left = rotate_run(cur, first_nodes, slots, first).slots;
    law_resumed_rotation_keeps_its_key(cur, then_nodes, left, left.next->0, then_events);
}

/// The keys of a node's two sessions in a rotation: the current one, with which
/// both are written, and the next one, with which the node is tried.
pub open spec fn rotation_keys(cur: Seq<u8>, s: RotationView) -> Option<(Seq<u8>, Seq<u8>)> {
    match s {
        RotationView::Node { next, .. } => Some((cur, next)),
        _ => None,
    }
}

/// The keys with which a rotation goes to the node whose turn it is: the
/// current one first, then the next one.
pub fn node_keys(cur: &[u8; 16], s: &Rotation) -> (r: Option<([u8; 16], [u8; 16])>)
    ensures
        *s matches Rotation::Node { next, .. } ==> r == Some((*cur, next)),
        r is Some <==> s is Node,
        r matches Some(keys) ==> rotation_keys(cur@, s@) == Some((keys.0@, keys.1@)),
{
    match s {
        Rotation::Node { next, .. } => Some((*cur, *next)),
        _ => None,
    }
}

/// In every rotation the first session with a node is made with the current
/// key, and the second with the one that the store keeps as the next.
pub proof fn law_rotation_goes_from_current_to_next(
    cur: Seq<u8>,
    node_ids: Seq<u64>,
    slots: Slots,
    events: Seq<RotateEvent>,
    s: RotationView,
)
    requires
        rotate_told(cur, node_ids, slots, events),
        rotate_run(cur, node_ids, slots, events).turn == TurnView::Go(s),
        s is Node,
    ensures
        rotation_keys(cur, s) matches Some(keys) && keys.0 == cur && rotate_run(
            cur,
            node_ids,
            slots,
            events,
        ).slots.next == Some(keys.1),
{
    match slots.next {
        Some(n) => {
            law_resumed_rotation_keeps_its_key(cur, node_ids, slots, n, events);
        },
        None => {
            law_new_rotation_stores_its_key(cur, node_ids, slots, events);
        },
    }
}

/// Whether outcomes are those of the first of some nodes, in their order.
pub open spec fn reports_first(node_ids: Seq<u64>, nodes: Seq<OutcomeView>) -> bool {
    nodes.len() <= node_ids.len() && forall|i: int|
        0 <= i < nodes.len() ==> (#[trigger] nodes[i]).node_id == node_ids[i]
}

proof fn lemma_rotation_reports(
    cur: Seq<u8>,
    node_ids: Seq<u64>,
    slots: Slots,
    events: Seq<RotateEvent>,
)
    ensures
        match rotate_run(cur, node_ids, slots, events).turn {
            TurnView::Go(RotationView::Node { done, .. }) => reports_first(node_ids, done)
                && done.len() < node_ids.len(),
            TurnView::Go(RotationView::Commit { nodes, .. }) => reports_first(node_ids, nodes)
                && nodes.len() == node_ids.len(),
            TurnView::Done(o) => reports_first(node_ids, o.nodes) && o.nodes.len()
                == node_ids.len(),
            _ => true,
        },
    decreases events.len(),
{
    if events.len() > 0 {
        lemma_rotation_reports(cur, node_ids, slots, events.drop_last());
    }
}

/// A rotation that ends, whether it changed over or stays pending, reports
/// exactly the nodes it was given, in their order.
pub proof fn law_rotation_reports_its_nodes(
    cur: Seq<u8>,
    node_ids: Seq<u64>,
    slots: Slots,
    events: Seq<RotateEvent>,
    o: RotateView,
)
    requires
        rotate_run(cur, node_ids, slots, events).turn == TurnView::<RotationView>::Done(o),
    ensures
        o.nodes.len() == node_ids.len(),
        forall|i: int| 0 <= i < node_ids.len() ==> (#[trigger] o.nodes[i]).node_id == node_ids[i],
{
    lemma_rotation_reports(cur, node_ids, slots, events);
}

/// What catching up does next.
#[derive(Debug, PartialEq, Eq)]
pub enum CatchUp {
    /// Read the key before the current one.
    ReadPrev,
    /// Read the key of an interrupted rotation: there must be none.
    ReadNext([u8; 16]),
    /// Prepare sessions with the previous and with the current key.
    Prepare([u8; 16]),
    /// Give both keys to the node behind those done.
    Node { prev: [u8; 16], done: Vec<NodeOutcome> },
}

/// What a step of catching up says.
pub enum CatchUpView {
    ReadPrev,
    ReadNext(Seq<u8>),
    Prepare(Seq<u8>),
    Node { prev: Seq<u8>, done: Seq<OutcomeView> },
}

impl View for CatchUp {
    type V = CatchUpView;

    open spec fn view(&self) -> CatchUpView {
        match *self {
            CatchUp::ReadPrev => CatchUpView::ReadPrev,
            CatchUp::ReadNext(k) => CatchUpView::ReadNext(k@),
            CatchUp::Prepare(k) => CatchUpView::Prepare(k@),
            CatchUp::Node { prev, done } => CatchUpView::Node {
                prev: prev@,
                done: outcomes(done@),
            },
        }
    }
}

/// Whether an event answers what catching up waits for.
pub open spec fn catch_up_expects(s: CatchUpView, ev: RotateEvent) -> bool {
    match s {
        CatchUpView::ReadPrev => ev is SlotRead,
        CatchUpView::ReadNext(_) => ev is SlotRead,
        CatchUpView::Prepare(_) => ev is Prepared,
        CatchUpView::Node { .. } => ev is NodeDone,
    }
}

/// The next node of catching up, or its end.
pub open spec fn catch_up_at(
    node_ids: Seq<u64>,
    prev: Seq<u8>,
    done: Seq<OutcomeView>,
) -> TurnView<CatchUpView> {
    if done.len() < node_ids.len() {
        TurnView::Go(CatchUpView::Node { prev, done })
    } else {
        TurnView::Done(
            RotateView {
                status: if failures(done).len() > 0 {
                    RotateStatus::CatchUpIncomplete
                } else {
                    RotateStatus::CaughtUp
                },
                nodes: done,
            },
        )
    }
}

/// What follows in catching up.
pub open spec fn catch_up_step(
    node_ids: Seq<u64>,
    s: CatchUpView,
    ev: RotateEvent,
) -> TurnView<CatchUpView> {
    match s {
        CatchUpView::ReadPrev => match ev->SlotRead_0 {
            Err(detail) => TurnView::Fail(slot_error(IpkEpochSlot::Prev, detail@)),
            Ok(None) => TurnView::Fail(
                error(
                    ErrorKind::Other,
                    "no previous ipk epoch recorded for this fabric (rotate-ipk has never committed here; nothing to catch up from)"@,
                ),
            ),
            Ok(Some(k)) => TurnView::Go(CatchUpView::ReadNext(k@)),
        },
        CatchUpView::ReadNext(prev) => match ev->SlotRead_0 {
            Err(detail) => TurnView::Fail(slot_error(IpkEpochSlot::Next, detail@)),
            Ok(Some(_)) => TurnView::Fail(
                error(
                    ErrorKind::Other,
                    "an ipk rotation is pending; finish it (re-run rotate-ipk) or --abort it before --catch-up"@,
                ),
            ),
            Ok(None) => TurnView::Go(CatchUpView::Prepare(prev)),
        },
        CatchUpView::Prepare(prev) => match ev->Prepared_0 {
            Err(e) => TurnView::Fail(e@),
            Ok(_) => catch_up_at(node_ids, prev, Seq::empty()),
        },
        CatchUpView::Node { prev, done } => catch_up_at(
            node_ids,
            prev,
            done.push(outcome_of(node_ids[done.len() as int], ev->NodeDone_0)),
        ),
    }
}

fn next_catch_up(node_ids: &Vec<u64>, prev: [u8; 16], done: Vec<NodeOutcome>) -> (r: Turn<CatchUp>)
    ensures
        r@ == catch_up_at(node_ids@, prev@, outcomes(done@)),
        r matches Turn::Go(CatchUp::Node { done: d, .. }) ==> d.len() < node_ids.len(),
{
    if done.len() < node_ids.len() {
        return Turn::Go(CatchUp::Node { prev, done });
    }
    let status = if any_failed(&done) {
        RotateStatus::CatchUpIncomplete
    } else {
        RotateStatus::CaughtUp
    };
    Turn::Done(RotateOutcome { status, nodes: done })
}

/// Goes on with catching up.
pub fn catch_up(node_ids: &Vec<u64>, s: CatchUp, ev: RotateEvent) -> (r: Turn<CatchUp>)
    requires
        catch_up_expects(s@, ev),
        s matches CatchUp::Node { done, .. } ==> done.len() < node_ids.len(),
    ensures
        r@ == catch_up_step(node_ids@, s@, ev),
        r matches Turn::Go(CatchUp::Node { done, .. }) ==> done.len() < node_ids.len(),
{
    match (s, ev) {
        (CatchUp::ReadPrev, RotateEvent::SlotRead(r)) => match r {
            Err(detail) => Turn::Fail(read_slot_error(IpkEpochSlot::Prev, detail.as_str())),
            Ok(None) => Turn::Fail(
                MatError::fixed(
                    ErrorKind::Other,
                    "no previous ipk epoch recorded for this fabric (rotate-ipk has never committed here; nothing to catch up from)",
                ),
            ),
            Ok(Some(k)) => Turn::Go(CatchUp::ReadNext(k)),
        },
        (CatchUp::ReadNext(prev), RotateEvent::SlotRead(r)) => match r {
            Err(detail) => Turn::Fail(read_slot_error(IpkEpochSlot::Next, detail.as_str())),
            Ok(Some(_)) => Turn::Fail(
                MatError::fixed(
                    ErrorKind::Other,
                    "an ipk rotation is pending; finish it (re-run rotate-ipk) or --abort it before --catch-up",
                ),
            ),
            Ok(None) => Turn::Go(CatchUp::Prepare(prev)),
        },
        (CatchUp::Prepare(prev), RotateEvent::Prepared(r)) => match r {
            Err(e) => Turn::Fail(e),
            Ok(_) => {
                let none: Vec<NodeOutcome> = Vec::new();
                assert(outcomes(none@) =~= Seq::empty());
                next_catch_up(node_ids, prev, none)
            },
        },
        (CatchUp::Node { prev, done }, RotateEvent::NodeDone(r)) => {
            let id: u64 = node_ids[done.len()];
            next_catch_up(node_ids, prev, add_outcome(done, id, r))
        },
        _ => vstd::pervasive::unreached(),
    }
}

/// The keys of a node's two sessions in catching up: the previous one, with
/// which both are written, and the current one, with which the node is tried.
pub open spec fn caught_keys(cur: Seq<u8>, s: CatchUpView) -> Option<(Seq<u8>, Seq<u8>)> {
    match s {
        CatchUpView::Node { prev, .. } => Some((prev, cur)),
        _ => None,
    }
}

/// The keys with which catching up goes to the node whose turn it is: the
/// previous one first, then the current one.
pub fn catch_up_keys(cur: &[u8; 16], s: &CatchUp) -> (r: Option<([u8; 16], [u8; 16])>)
    ensures
        *s matches CatchUp::Node { prev, .. } ==> r == Some((prev, *cur)),
        r is Some <==> s is Node,
        r matches Some(keys) ==> caught_keys(cur@, s@) == Some((keys.0@, keys.1@)),
{
    match s {
        CatchUp::Node { prev, .. } => Some((*prev, *cur)),
        _ => None,
    }
}

/// Where catching up over some events stands. It changes no key of the store.
pub open spec fn catch_up_run(node_ids: Seq<u64>, events: Seq<RotateEvent>) -> TurnView<
    CatchUpView,
>
    decreases events.len(),
{
    if events.len() == 0 {
        TurnView::Go(CatchUpView::ReadPrev)
    } else {
        match catch_up_run(node_ids, events.drop_last()) {
            TurnView::Go(s) => catch_up_step(node_ids, s, events.last()),
            t => t,
        }
    }
}

/// Whether an event is one that a store with these keys can give.
pub open spec fn catch_up_tells(slots: Slots, s: CatchUpView, ev: RotateEvent) -> bool {
    &&& catch_up_expects(s, ev)
    &&& s is ReadPrev ==> reads(ev->SlotRead_0, slots.prev)
    &&& s is ReadNext ==> reads(ev->SlotRead_0, slots.next)
}

/// Whether every event of catching up is one that its store can give.
pub open spec fn catch_up_told(
    node_ids: Seq<u64>,
    slots: Slots,
    events: Seq<RotateEvent>,
) -> bool
    decreases events.len(),
{
    if events.len() == 0 {
        true
    } else {
        catch_up_told(node_ids, slots, events.drop_last()) && (catch_up_run(
            node_ids,
            events.drop_last(),
        ) matches TurnView::Go(s) ==> catch_up_tells(slots, s, events.last()))
    }
}

proof fn lemma_catch_up_key(node_ids: Seq<u64>, slots: Slots, events: Seq<RotateEvent>)
    requires
        catch_up_told(node_ids, slots, events),
    ensures
        match catch_up_run(node_ids, events) {
            TurnView::Go(CatchUpView::ReadNext(k)) => slots.prev == Some(k),
            TurnView::Go(CatchUpView::Prepare(k)) => slots.prev == Some(k) && slots.next is None,
            TurnView::Go(CatchUpView::Node { prev, .. }) => slots.prev == Some(prev)
                && slots.next is None,
            TurnView::Done(_) => slots.prev is Some && slots.next is None,
            _ => true,
        },
    decreases events.len(),
{
    if events.len() > 0 {
        lemma_catch_up_key(node_ids, slots, events.drop_last());
    }
}

/// In catching up the first session with a node is made with the key that the
/// store keeps as the previous one, and the second with the current key; no
/// node is touched while a next key waits.
pub proof fn law_catch_up_goes_from_previous_to_current(
    cur: Seq<u8>,
    node_ids: Seq<u64>,
    slots: Slots,
    events: Seq<RotateEvent>,
    s: CatchUpView,
)
    requires
        catch_up_told(node_ids, slots, events),
        catch_up_run(node_ids, events) == TurnView::Go(s),
        s is Node,
    ensures
        caught_keys(cur, s) matches Some(keys) && slots.prev == Some(keys.0) && keys.1 == cur,
        slots.next is None,
{
    lemma_catch_up_key(node_ids, slots, events);
}

/// Where no previous key is stored, or a next one waits, catching up comes to no
/// node and reports none.
pub proof fn law_catch_up_needs_a_previous_key(
    node_ids: Seq<u64>,
    slots: Slots,
    events: Seq<RotateEvent>,
)
    requires
        catch_up_told(node_ids, slots, events),
        slots.prev is None || slots.next is Some,
    ensures
        !(catch_up_run(node_ids, events) is Done),
        !(catch_up_run(node_ids, events) matches TurnView::Go(s) && s is Node),
{
    lemma_catch_up_key(node_ids, slots, events);
}

proof fn lemma_catch_up_reports(node_ids: Seq<u64>, events: Seq<RotateEvent>)
    ensures
        match catch_up_run(node_ids, events) {
            TurnView::Go(CatchUpView::Node { done, .. }) => reports_first(node_ids, done)
                && done.len() < node_ids.len(),
            TurnView::Done(o) => reports_first(node_ids, o.nodes) && o.nodes.len()
                == node_ids.len(),
            _ => true,
        },
    decreases events.len(),
{
    if events.len() > 0 {
        lemma_catch_up_reports(node_ids, events.drop_last());
    }
}

/// Catching up that ends reports exactly the nodes it was given, in their
/// order.
pub proof fn law_catch_up_reports_its_nodes(
    node_ids: Seq<u64>,
    events: Seq<RotateEvent>,
    o: RotateView,
)
    requires
        catch_up_run(node_ids, events) == TurnView::<CatchUpView>::Done(o),
    ensures
        o.nodes.len() == node_ids.len(),
        forall|i: int| 0 <= i < node_ids.len() ==> (#[trigger] o.nodes[i]).node_id == node_ids[i],
{
    lemma_catch_up_reports(node_ids, events);
}

/// The node whose turn it is: the first that has no outcome yet.
pub fn node_behind(node_ids: &Vec<u64>, done: &Vec<NodeOutcome>) -> (r: Option<u64>)
    ensures
        done.len() < node_ids.len() ==> r == Some(node_ids[done.len() as int]),
        done.len() >= node_ids.len() ==> r is None,
{
    if done.len() < node_ids.len() {
        Some(node_ids[done.len()])
    } else {
        None
    }
}

/// How giving up a rotation ended.
pub open spec fn aborted(removed: Result<bool, GroupSettingsFailure>) -> Result<
    RotateView,
    ErrorView,
> {
    match removed {
        Err(f) => Err(rotation_error(f)),
        Ok(b) => Ok(
            RotateView {
                status: if b {
                    RotateStatus::Aborted
                } else {
                    RotateStatus::Idle
                },
                nodes: Seq::empty(),
            },
        ),
    }
}

/// Ends giving up a rotation: whether there was one. It takes nothing but the
/// store's answer, so it works on a store whose credentials do not.
pub fn abort_only(removed: Result<bool, GroupSettingsFailure>) -> (r: Result<
    RotateOutcome,
    MatError,
>)
    ensures
        r matches Ok(o) ==> aborted(removed) == Ok::<RotateView, ErrorView>(o@),
        r matches Err(e) ==> aborted(removed) == Err::<RotateView, ErrorView>(e@),
{
    match removed {
        Err(f) => Err(map_rotation_err(f)),
        Ok(b) => {
            let status = if b {
                RotateStatus::Aborted
            } else {
                RotateStatus::Idle
            };
            let nodes: Vec<NodeOutcome> = Vec::new();
            assert(outcomes(nodes@) =~= Seq::empty());
            Ok(RotateOutcome { status, nodes })
        },
    }
}

/// Whether giving up finds a next key to drop.
pub open spec fn abort_removes(slots: Slots) -> bool {
    slots.next is Some
}

/// The keys of a store behind giving up: the next key is gone, the others stay.
pub open spec fn slots_aborted(slots: Slots) -> Slots {
    Slots { current: slots.current, next: None, prev: slots.prev }
}

/// Giving up says whether a key was waiting, touches no node, and leaves the
/// current and the previous key; given up again, there is nothing left to do.
pub proof fn law_second_abort_is_idle(slots: Slots)
    ensures
        aborted(Ok(abort_removes(slots))) matches Ok(o) && o.nodes.len() == 0 && (o.status
            == RotateStatus::Aborted <==> slots.next is Some) && (o.status == RotateStatus::Idle
            <==> slots.next is None),
        slots_aborted(slots).next is None,
        slots_aborted(slots).current == slots.current,
        slots_aborted(slots).prev == slots.prev,
        aborted(Ok(abort_removes(slots_aborted(slots)))) matches Ok(o) && o.nodes.len() == 0
            && o.status == RotateStatus::Idle,
        slots_aborted(slots_aborted(slots)) == slots_aborted(slots),
{
}

/// Where a rotation begins in each mode.
#[derive(Debug, PartialEq, Eq)]
pub enum RotateStart {
    /// Drop the stored next key.
    Abort,
    Rotate(Rotation),
    CatchUp(CatchUp),
}

/// Whether a mode needs the credentials: every one but giving up.
pub fn needs_credentials(mode: RotateMode) -> (r: bool)
    ensures
        r == (mode != RotateMode::Abort),
{
    match mode {
        RotateMode::Abort => false,
        _ => true,
    }
}

/// Where a rotation begins.
pub fn run_with(mode: RotateMode) -> (s: RotateStart)
    ensures
        mode == RotateMode::Abort ==> s is Abort,
        mode == RotateMode::Rotate ==> s == RotateStart::Rotate(Rotation::ReadNext),
        mode == RotateMode::CatchUp ==> s == RotateStart::CatchUp(CatchUp::ReadPrev),
{
    match mode {
        RotateMode::Abort => RotateStart::Abort,
        RotateMode::Rotate => RotateStart::Rotate(Rotation::ReadNext),
        RotateMode::CatchUp => RotateStart::CatchUp(CatchUp::ReadPrev),
    }
}

/// The epochs that a node is given: the older key first.
pub open spec fn epochs(old_key: [u8; 16], new_key: [u8; 16]) -> Seq<([u8; 16], u64)> {
    Seq::<([u8; 16], u64)>::empty().push((old_key, 1)).push((new_key, 2))
}

/// The epochs that a node is given: the older key first.
pub fn epochs_for(old_key: [u8; 16], new_key: [u8; 16]) -> (v: Vec<([u8; 16], u64)>)
    ensures
        v@ == epochs(old_key, new_key),
{
    let mut v: Vec<([u8; 16], u64)> = Vec::new();
    v.push((old_key, 1));
    v.push((new_key, 2));
    v
}

/// A failure of a step on a node.
pub open spec fn step_failure(node_id: u64, step: Seq<char>, e: ErrorView) -> ErrorView {
    if step.len() == 0 {
        node_failure(node_id, e)
    } else {
        prefixed(e, "node "@ + text::dec(node_id as nat) + ": "@ + step + ": "@)
    }
}

/// Names the node, and the step where it has a name, in a failure.
pub fn step_err(node_id: u64, step: &str, e: MatError) -> (f: MatError)
    ensures
        f@ == step_failure(node_id, step@, e@),
{
    if step.unicode_len() == 0 {
        return crate::runner::node_error(node_id, e);
    }
    let prefix = "node ".to_owned().concat(&text::decimal(node_id)).concat(": ").concat(
        step,
    ).concat(": ");
    e.prefix(&prefix)
}

/// The failure of a node that took too long.
pub fn node_timed_out(node_id: u64, timeout_ms: u64) -> (e: MatError)
    ensures
        e@ == error(
            ErrorKind::Timeout,
            "node "@ + text::dec(node_id as nat)
                + ": ipk rotation step (key-set-write + verify-case) exceeded "@ + text::dec(
                timeout_ms as nat,
            ) + " ms"@,
        ),
{
    MatError::new(
        ErrorKind::Timeout,
        "node ".to_owned().concat(&text::decimal(node_id)).concat(
            ": ipk rotation step (key-set-write + verify-case) exceeded ",
        ).concat(&text::decimal(timeout_ms)).concat(" ms"),
    )
}

/// What happens on one node next.
#[derive(Debug, PartialEq, Eq)]
pub enum OneNode {
    /// Make a session with the older key.
    EstablishOld,
    /// Write both keys.
    Write,
    /// Close the session; the result of the write is kept.
    CloseOld(Result<(), MatError>),
    /// Make a session with the newer key, which shows that it was taken.
    EstablishNew,
    CloseNew,
    Return(Result<(), MatError>),
}

/// What happened on one node.
#[derive(Debug, PartialEq, Eq)]
pub enum OneNodeEvent {
    Established(Result<(), MatError>),
    Written(Result<(), MatError>),
    Closed,
}

/// What a step on one node says.
pub enum OneNodeView {
    EstablishOld,
    Write,
    CloseOld(Option<ErrorView>),
    EstablishNew,
    CloseNew,
    Return(Option<ErrorView>),
}

/// What went wrong, where something did.
pub open spec fn failure_of(r: Result<(), MatError>) -> Option<ErrorView> {
    match r {
        Ok(_) => None,
        Err(e) => Some(e@),
    }
}

impl View for OneNode {
    type V = OneNodeView;

    open spec fn view(&self) -> OneNodeView {
        match *self {
            OneNode::EstablishOld => OneNodeView::EstablishOld,
            OneNode::Write => OneNodeView::Write,
            OneNode::CloseOld(r) => OneNodeView::CloseOld(failure_of(r)),
            OneNode::EstablishNew => OneNodeView::EstablishNew,
            OneNode::CloseNew => OneNodeView::CloseNew,
            OneNode::Return(r) => OneNodeView::Return(failure_of(r)),
        }
    }
}

/// What follows on one node. An event that does not answer what was asked for
/// changes nothing.
pub open spec fn one_node_step(node_id: u64, s: OneNodeView, ev: OneNodeEvent) -> OneNodeView {
    match (s, ev) {
        (OneNodeView::EstablishOld, OneNodeEvent::Established(Ok(_))) => OneNodeView::Write,
        (OneNodeView::EstablishOld, OneNodeEvent::Established(Err(e))) => OneNodeView::Return(
            Some(step_failure(node_id, "establish"@, e@)),
        ),
        (OneNodeView::Write, OneNodeEvent::Written(w)) => OneNodeView::CloseOld(failure_of(w)),
        (OneNodeView::CloseOld(None), OneNodeEvent::Closed) => OneNodeView::EstablishNew,
        (OneNodeView::CloseOld(Some(e)), OneNodeEvent::Closed) => OneNodeView::Return(
            Some(node_failure(node_id, e)),
        ),
        (OneNodeView::EstablishNew, OneNodeEvent::Established(Ok(_))) => OneNodeView::CloseNew,
        (OneNodeView::EstablishNew, OneNodeEvent::Established(Err(e))) => OneNodeView::Return(
            Some(step_failure(node_id, "verify-case"@, e@)),
        ),
        (OneNodeView::CloseNew, OneNodeEvent::Closed) => OneNodeView::Return(None),
        _ => s,
    }
}

/// Goes on on one node: the keys are written with the older key's session, it
/// is closed whatever came of the write, and only a write that went well is
/// checked with a session of the newer key.
pub fn one_node(node_id: u64, s: OneNode, ev: OneNodeEvent) -> (r: OneNode)
    ensures
        r@ == one_node_step(node_id, s@, ev),
{
    proof {
        reveal_strlit("");
    }
    match (s, ev) {
        (OneNode::EstablishOld, OneNodeEvent::Established(Ok(_))) => OneNode::Write,
        (OneNode::EstablishOld, OneNodeEvent::Established(Err(e))) => OneNode::Return(
            Err(step_err(node_id, "establish", e)),
        ),
        (OneNode::Write, OneNodeEvent::Written(w)) => OneNode::CloseOld(w),
        (OneNode::CloseOld(Ok(_)), OneNodeEvent::Closed) => OneNode::EstablishNew,
        (OneNode::CloseOld(Err(e)), OneNodeEvent::Closed) => OneNode::Return(
            Err(step_err(node_id, "", e)),
        ),
        (OneNode::EstablishNew, OneNodeEvent::Established(Ok(_))) => OneNode::CloseNew,
        (OneNode::EstablishNew, OneNodeEvent::Established(Err(e))) => OneNode::Return(
            Err(step_err(node_id, "verify-case", e)),
        ),
        (OneNode::CloseNew, OneNodeEvent::Closed) => OneNode::Return(Ok(())),
        (s, _) => s,
    }
}

/// What is done on a node for a step.
#[derive(Debug, PartialEq, Eq)]
pub enum NodeAction {
    /// Make a session with a key.
    Establish([u8; 16]),
    /// Write keys, each with the time from which it counts.
    Write(Vec<([u8; 16], u64)>),
    /// Close the session.
    Close,
    /// Nothing: the node is done.
    Nothing,
}

/// What is done on a node for a step: the first session is made with the older
/// key, both keys are written, the older one first, and the second session is
/// made with the newer key.
pub fn node_action(old_key: &[u8; 16], new_key: &[u8; 16], s: &OneNode) -> (a: NodeAction)
    ensures
        match *s {
            OneNode::EstablishOld => a == NodeAction::Establish(*old_key),
            OneNode::Write => a matches NodeAction::Write(v) && v@ == epochs(*old_key, *new_key),
            OneNode::CloseOld(_) => a == NodeAction::Close,
            OneNode::EstablishNew => a == NodeAction::Establish(*new_key),
            OneNode::CloseNew => a == NodeAction::Close,
            OneNode::Return(_) => a == NodeAction::Nothing,
        },
{
    match s {
        OneNode::EstablishOld => NodeAction::Establish(*old_key),
        OneNode::Write => NodeAction::Write(epochs_for(*old_key, *new_key)),
        OneNode::CloseOld(_) => NodeAction::Close,
        OneNode::EstablishNew => NodeAction::Establish(*new_key),
        OneNode::CloseNew => NodeAction::Close,
        OneNode::Return(_) => NodeAction::Nothing,
    }
}

/// Whether an event answers what a step on one node asks for.
pub open spec fn one_node_expects(s: OneNodeView, ev: OneNodeEvent) -> bool {
    match s {
        OneNodeView::EstablishOld => ev is Established,
        OneNodeView::Write => ev is Written,
        OneNodeView::CloseOld(_) => ev is Closed,
        OneNodeView::EstablishNew => ev is Established,
        OneNodeView::CloseNew => ev is Closed,
        OneNodeView::Return(_) => false,
    }
}

/// Where a node over some events stands.
pub open spec fn one_node_run(node_id: u64, events: Seq<OneNodeEvent>) -> OneNodeView
    decreases events.len(),
{
    if events.len() == 0 {
        OneNodeView::EstablishOld
    } else {
        one_node_step(node_id, one_node_run(node_id, events.drop_last()), events.last())
    }
}

/// Whether every event of a node answers what was asked for.
pub open spec fn one_node_told(node_id: u64, events: Seq<OneNodeEvent>) -> bool
    decreases events.len(),
{
    if events.len() == 0 {
        true
    } else {
        one_node_told(node_id, events.drop_last()) && one_node_expects(
            one_node_run(node_id, events.drop_last()),
            events.last(),
        )
    }
}

/// Whether the first, older session was made, the write went well, the session
/// was closed, and the second, newer session was made: as many of these as
/// there are events.
pub open spec fn went_well(events: Seq<OneNodeEvent>) -> bool {
    &&& events.len() > 0 ==> (events[0] matches OneNodeEvent::Established(r) && r is Ok)
    &&& events.len() > 1 ==> (events[1] matches OneNodeEvent::Written(r) && r is Ok)
    &&& events.len() > 2 ==> events[2] is Closed
    &&& events.len() > 3 ==> (events[3] matches OneNodeEvent::Established(r) && r is Ok)
    &&& events.len() > 4 ==> events[4] is Closed
}

proof fn lemma_one_node(node_id: u64, events: Seq<OneNodeEvent>)
    requires
        one_node_told(node_id, events),
    ensures
        match one_node_run(node_id, events) {
            OneNodeView::EstablishOld => events.len() == 0,
            OneNodeView::Write => events.len() == 1 && went_well(events),
            OneNodeView::CloseOld(e) => events.len() == 2 && (e is None <==> went_well(events)),
            OneNodeView::EstablishNew => events.len() == 3 && went_well(events),
            OneNodeView::CloseNew => events.len() == 4 && went_well(events),
            OneNodeView::Return(e) => e is None <==> events.len() == 5 && went_well(events),
        },
    decreases events.len(),
{
    if events.len() > 0 {
        lemma_one_node(node_id, events.drop_last());
    }
}

/// A node has taken its keys exactly where it accepted a session with the older
/// key, then the write, and then a session with the newer key.
pub proof fn law_node_is_done_once_it_accepts_the_newer_key(
    node_id: u64,
    events: Seq<OneNodeEvent>,
    e: Option<ErrorView>,
)
    requires
        one_node_told(node_id, events),
        one_node_run(node_id, events) == OneNodeView::Return(e),
    ensures
        e is None <==> events.len() == 5 && went_well(events),
{
    lemma_one_node(node_id, events);
}

/// The report of a node says which it is and whether it went well, and if not,
/// why.
pub proof fn law_node_outcome_by_name(n: OutcomeView)
    ensures
        node_body(n).get("node_id"@) == Some(JsonView::UInt(n.node_id)),
        node_body(n).get("status"@) == Some(
            JsonView::Str(
                if n.error is None {
                    "ok"@
                } else {
                    "failed"@
                },
            ),
        ),
        n.error matches Some(e) ==> (node_body(n).get("error"@) matches Some(x) && x.get("kind"@)
            == Some(JsonView::Str(e.kind.name())) && x.get("detail"@) == Some(
            JsonView::Str(e.detail),
        )),
        n.error is None ==> node_body(n).get("error"@) is None,
{
    reveal_strlit("node_id");
    reveal_strlit("status");
    reveal_strlit("error");
    let f = node_body(n)->Object_0;
    assert(f[0].0 == "node_id"@);
    assert(f[1].0 == "status"@);
    crate::json::law_first_field_is_found(f, "node_id"@, 0);
    crate::json::law_first_field_is_found(f, "status"@, 1);
    match n.error {
        Some(e) => {
            assert(f[2].0 == "error"@);
            crate::json::law_first_field_is_found(f, "error"@, 2);
            crate::json::law_error_object_by_name(e);
        },
        None => {
            crate::json::lemma_lookup_absent(f, "error"@);
        },
    }
}

/// The report of a rotation names the fabric, how it ended, and every node in
/// order; a note follows where something is left to do.
pub proof fn law_rotation_report_by_name(r: RotateView, fabric_index: u8, i: int)
    ensures
        rotate_body(r, fabric_index).get("fabric_index"@) == Some(
            JsonView::UInt(fabric_index as u64),
        ),
        rotate_body(r, fabric_index).get("status"@) == Some(JsonView::Str(r.status.word())),
        rotate_body(r, fabric_index).get("nodes"@) matches Some(JsonView::Array(l)) && l.len()
            == r.nodes.len() && (0 <= i < l.len() ==> l[i] == node_body(r.nodes[i])),
        rotate_body(r, fabric_index).get("note"@) is Some <==> r.status == RotateStatus::Rotated
            || r.status == RotateStatus::Pending || r.status == RotateStatus::CatchUpIncomplete,
{
    reveal_strlit("fabric_index");
    reveal_strlit("status");
    reveal_strlit("nodes");
    reveal_strlit("note");
    let f = rotate_body(r, fabric_index)->Object_0;
    assert(f[0].0 == "fabric_index"@);
    assert(f[1].0 == "status"@);
    assert(f[2].0 == "nodes"@);
    crate::json::law_first_field_is_found(f, "fabric_index"@, 0);
    crate::json::law_first_field_is_found(f, "status"@, 1);
    crate::json::law_first_field_is_found(f, "nodes"@, 2);
    if note_of(r.status) is Some {
        assert(f[3].0 == "note"@);
        crate::json::law_first_field_is_found(f, "note"@, 3);
    } else {
        crate::json::lemma_lookup_absent(f, "note"@);
    }
}

/// Each end of a rotation has its own word.
pub proof fn law_rotation_words(s: RotateStatus)
    ensures
        s.word() == match s {
            RotateStatus::Rotated => "rotated"@,
            RotateStatus::Pending => "pending"@,
            RotateStatus::CaughtUp => "caught_up"@,
            RotateStatus::CatchUpIncomplete => "catch_up_incomplete"@,
            RotateStatus::Aborted => "aborted"@,
            RotateStatus::Idle => "idle"@,
        },
{
}

/// The test for a node that failed.
pub open spec fn has_failed() -> spec_fn(OutcomeView) -> bool {
    |n: OutcomeView| n.error is Some
}

/// The failures are the nodes that failed, in order.
pub proof fn law_failures_are_the_failed_nodes(nodes: Seq<OutcomeView>)
    ensures
        failures(nodes) == nodes.filter(has_failed()),
    decreases nodes.len(),
{
    reveal(Seq::filter);
    if nodes.len() > 0 {
        law_failures_are_the_failed_nodes(nodes.drop_last());
    }
    assert(failures(nodes) =~= nodes.filter(has_failed()));
}

/// A rotation, or a catching up, that is not done is an error if a node failed:
/// of the kind of the first failure, with every failed node named. Any other
/// end is none.
pub proof fn law_unfinished_rotation_is_an_error(r: RotateView, i: int)
    ensures
        partial(r) is Some <==> (r.status == RotateStatus::Pending || r.status
            == RotateStatus::CatchUpIncomplete) && nodes_failed(r.nodes) > 0,
        partial(r) matches Some(e) ==> e.kind == r.nodes.filter(has_failed())[0].error->0.kind,
        0 <= i < nodes_failed(r.nodes) ==> (partial(r) matches Some(e) ==> text::occurs(
            e.detail,
            "node "@ + text::dec(r.nodes.filter(has_failed())[i].node_id as nat) + ": "@
                + r.nodes.filter(has_failed())[i].error->0.kind.name(),
        )),
{
    law_failures_are_the_failed_nodes(r.nodes);
    if 0 <= i < nodes_failed(r.nodes) && partial(r) is Some {
        let parts = failure_texts(r.nodes);
        text::law_joined_holds_each_part(parts, ", "@, i);
        let list = text::joined(parts, ", "@);
        let k = choose|k: int| #[trigger] text::occurs_at(list, parts[i], k);
        let what = partial_name(r.status)->0;
        let head = what + ": "@ + text::dec(failures(r.nodes).len()) + " of "@ + text::dec(
            r.nodes.len(),
        ) + " nodes failed ("@;
        let d = head + list + "); see stdout for per-node detail"@;
        let at: int = head.len() + k;
        assert(d.subrange(at, at + parts[i].len()) =~= list.subrange(k, k + parts[i].len()));
        assert(text::occurs_at(d, parts[i], at));
    }
}

/// How many nodes failed.
pub open spec fn nodes_failed(nodes: Seq<OutcomeView>) -> nat {
    nodes.filter(has_failed()).len()
}

/// What came of a node is reported of that node: its own failure, or none.
pub proof fn law_outcome_is_that_of_the_node(
    cur: Seq<u8>,
    node_ids: Seq<u64>,
    next: Seq<u8>,
    done: Seq<OutcomeView>,
    e: MatError,
)
    requires
        done.len() + 1 < node_ids.len(),
    ensures
        rotate_step(
            cur,
            node_ids,
            RotationView::Node { next, done },
            RotateEvent::NodeDone(Ok(())),
        ) == TurnView::Go(
            RotationView::Node {
                next,
                done: done.push(
                    OutcomeView { node_id: node_ids[done.len() as int], error: None },
                ),
            },
        ),
        rotate_step(
            cur,
            node_ids,
            RotationView::Node { next, done },
            RotateEvent::NodeDone(Err(e)),
        ) == TurnView::Go(
            RotationView::Node {
                next,
                done: done.push(
                    OutcomeView { node_id: node_ids[done.len() as int], error: Some(e@) },
                ),
            },
        ),
        catch_up_step(
            node_ids,
            CatchUpView::Node { prev: next, done },
            RotateEvent::NodeDone(Err(e)),
        ) == TurnView::Go(
            CatchUpView::Node {
                prev: next,
                done: done.push(
                    OutcomeView { node_id: node_ids[done.len() as int], error: Some(e@) },
                ),
            },
        ),
{
}

/// Catching up is complete if and only if no node failed.
pub proof fn law_catch_up_is_complete_without_failures(
    node_ids: Seq<u64>,
    prev: Seq<u8>,
    done: Seq<OutcomeView>,
)
    requires
        done.len() >= node_ids.len(),
    ensures
        catch_up_at(node_ids, prev, done) matches TurnView::Done(r) && r.nodes == done && (r.status
            == RotateStatus::CaughtUp <==> nodes_failed(done) == 0) && (r.status
            == RotateStatus::CatchUpIncomplete <==> nodes_failed(done) > 0),
{
    law_failures_are_the_failed_nodes(done);
}

/// The keys that a node gets are the older one first and the newer one second,
/// with start times in that order.
pub proof fn law_newer_key_starts_later(old_key: [u8; 16], new_key: [u8; 16])
    ensures
        epochs(old_key, new_key).len() == 2,
        epochs(old_key, new_key)[0] == (old_key, 1u64),
        epochs(old_key, new_key)[1] == (new_key, 2u64),
{
}

/// A failed step keeps the kind and the words of its failure, and names the
/// node and the step.
pub proof fn law_failed_step_names_the_node(node_id: u64, step: Seq<char>, e: ErrorView)
    ensures
        step_failure(node_id, step, e).kind == e.kind,
        text::occurs(step_failure(node_id, step, e).detail, e.detail),
        text::occurs(step_failure(node_id, step, e).detail, step),
        text::has_prefix(
            step_failure(node_id, step, e).detail,
            "node "@ + text::dec(node_id as nat) + ": "@,
        ),
{
    let d = step_failure(node_id, step, e).detail;
    let head = "node "@ + text::dec(node_id as nat) + ": "@;
    assert(d.subrange(0, head.len() as int) =~= head);
    let k: int = d.len() - e.detail.len();
    assert(d.subrange(k, k + e.detail.len()) =~= e.detail);
    assert(text::occurs_at(d, e.detail, k));
    let n: int = head.len() as int;
    assert(d.subrange(n, n + step.len()) =~= step);
    assert(text::occurs_at(d, step, n));
}

/// A key that was made has sixteen bytes, each sixteen times its first digit
/// and its second.
pub proof fn law_made_key_spells_its_bytes(hex: Seq<char>, i: int)
    requires
        generated_key(hex) is Some,
        0 <= i < 16,
    ensures
        crate::group_node::epoch_key_of(hex) == Ok::<Seq<u8>, ErrorView>(generated_key(hex)->0),
        generated_key(hex)->0.len() == 16,
        generated_key(hex)->0[i] == 16 * text::hex_val(hex[2 * i])->0 + text::hex_val(
            hex[2 * i + 1],
        )->0,
{
    crate::group_node::law_key_spells_its_bytes(hex, i);
}

/// A key that cannot be read is a failure of the store, and names its place.
pub proof fn law_unreadable_key_names_its_place(slot: IpkEpochSlot, detail: Seq<char>)
    ensures
        slot_error(slot, detail).kind == ErrorKind::StoreParse,
        text::occurs(slot_error(slot, detail).detail, detail),
        IpkEpochSlot::Current.label() == "Current"@,
        IpkEpochSlot::Next.label() == "Next"@,
        IpkEpochSlot::Prev.label() == "Prev"@,
        text::occurs(slot_error(slot, detail).detail, slot.label()),
{
    let d = slot_error(slot, detail).detail;
    let k: int = d.len() - detail.len();
    assert(d.subrange(k, k + detail.len()) =~= detail);
    assert(text::occurs_at(d, detail, k));
    let n: int = "kvs ipk epoch ("@.len() as int;
    assert(d.subrange(n, n + slot.label().len()) =~= slot.label());
    assert(text::occurs_at(d, slot.label(), n));
}

/// A rotation that no step fails goes on to its end: a new key is made and
/// stored, the nodes are visited, and the key is changed over.
pub proof fn law_good_steps_rotate_the_key(
    cur: Seq<u8>,
    node_ids: Seq<u64>,
    hex: String,
    k: Seq<u8>,
    nodes: Seq<OutcomeView>,
)
    requires
        generated_key(hex@) == Some(k),
        k != cur,
        node_ids.len() > 0,
    ensures
        rotate_step(cur, node_ids, RotationView::ReadNext, RotateEvent::SlotRead(Ok(None)))
            == TurnView::Go(RotationView::Generate),
        rotate_step(cur, node_ids, RotationView::Generate, RotateEvent::Generated(hex))
            == TurnView::Go(RotationView::Begin(k)),
        rotate_step(cur, node_ids, RotationView::Begin(k), RotateEvent::Stored(Ok(())))
            == TurnView::Go(RotationView::Prepare(k)),
        rotate_step(cur, node_ids, RotationView::Prepare(k), RotateEvent::Prepared(Ok(())))
            == TurnView::Go(RotationView::Node { next: k, done: Seq::empty() }),
        rotate_step(
            cur,
            node_ids,
            RotationView::Commit { next: k, nodes },
            RotateEvent::Stored(Ok(())),
        ) == TurnView::<RotationView>::Done(RotateView { status: RotateStatus::Rotated, nodes }),
{
}

/// Catching up goes on to the nodes where a previous key is there and no
/// rotation is pending.
pub proof fn law_good_steps_catch_up(node_ids: Seq<u64>, k: [u8; 16])
    requires
        node_ids.len() > 0,
    ensures
        catch_up_step(node_ids, CatchUpView::ReadPrev, RotateEvent::SlotRead(Ok(Some(k))))
            == TurnView::Go(CatchUpView::ReadNext(k@)),
        catch_up_step(node_ids, CatchUpView::ReadNext(k@), RotateEvent::SlotRead(Ok(None)))
            == TurnView::Go(CatchUpView::Prepare(k@)),
        catch_up_step(node_ids, CatchUpView::Prepare(k@), RotateEvent::Prepared(Ok(())))
            == TurnView::Go(CatchUpView::Node { prev: k@, done: Seq::empty() }),
        catch_up_step(
            node_ids,
            CatchUpView::ReadPrev,
            RotateEvent::SlotRead(Ok(None)),
        ) matches TurnView::Fail(e) && e.kind == ErrorKind::Other,
        catch_up_step(
            node_ids,
            CatchUpView::ReadNext(k@),
            RotateEvent::SlotRead(Ok(Some(k))),
        ) matches TurnView::Fail(e) && e.kind == ErrorKind::Other,
{
}

} // verus!
