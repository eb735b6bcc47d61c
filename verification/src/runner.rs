//! Running operations on sessions, and over several nodes in turn.
use vstd::prelude::*;
use vstd::string::*;
use crate::error::{group_ctx_unconfigured, prefixed, ErrorView, MatError};
use crate::group_node::{epoch_key_from_hex, epoch_key_of, ProvisionNodeParams, RemoveGroupNodeReport};
use crate::group_settings::{map_gs_err, write_error, write_group_provision, GroupSettingsFailure};
use crate::op::ProvisionParams;
use crate::text;

verus! {

/// A session that is made for one operation: what happens on it next, with the
/// operation's result once it ran.
#[derive(Debug, PartialEq, Eq)]
pub enum OneShot<T> {
    Establish,
    Run,
    Close(Result<T, MatError>),
    /// Tell the daemon that the node was touched.
    AfterClose(Result<T, MatError>),
    Return(Result<T, MatError>),
}

/// What happened on a session.
#[derive(Debug, PartialEq, Eq)]
pub enum SessionEvent<T> {
    Established(Result<(), MatError>),
    Ran(Result<T, MatError>),
    Closed,
    Told,
}

/// What follows on a session: it is made, used, closed and told of, in this
/// order, whatever the operation gave. It is never made again.
pub open spec fn one_shot_step<T>(s: OneShot<T>, ev: SessionEvent<T>) -> OneShot<T> {
    match (s, ev) {
        (OneShot::Establish, SessionEvent::Established(Ok(_))) => OneShot::Run,
        (OneShot::Establish, SessionEvent::Established(Err(e))) => OneShot::Return(Err(e)),
        (OneShot::Run, SessionEvent::Ran(r)) => OneShot::Close(r),
        (OneShot::Close(r), SessionEvent::Closed) => OneShot::AfterClose(r),
        (OneShot::AfterClose(r), SessionEvent::Told) => OneShot::Return(r),
        _ => s,
    }
}

impl<T> OneShot<T> {
    /// Goes on when something happened on the session.
    pub fn step(self, ev: SessionEvent<T>) -> (r: OneShot<T>)
        ensures
            r == one_shot_step(self, ev),
    {
        match (self, ev) {
            (OneShot::Establish, SessionEvent::Established(Ok(_))) => OneShot::Run,
            (OneShot::Establish, SessionEvent::Established(Err(e))) => OneShot::Return(Err(e)),
            (OneShot::Run, SessionEvent::Ran(r)) => OneShot::Close(r),
            (OneShot::Close(r), SessionEvent::Closed) => OneShot::AfterClose(r),
            (OneShot::AfterClose(r), SessionEvent::Told) => OneShot::Return(r),
            (s, _) => s,
        }
    }
}

/// The states of a session over some events.
pub open spec fn one_shot_run<T>(s: OneShot<T>, events: Seq<SessionEvent<T>>) -> OneShot<T>
    decreases events.len(),
{
    if events.len() == 0 {
        s
    } else {
        one_shot_step(one_shot_run(s, events.drop_last()), events.last())
    }
}

/// Whether an event is among the first of some.
pub open spec fn happened<T>(events: Seq<SessionEvent<T>>, ev: SessionEvent<T>) -> bool {
    exists|i: int| 0 <= i < events.len() && #[trigger] events[i] == ev
}

proof fn lemma_one_shot_history<T>(events: Seq<SessionEvent<T>>)
    ensures
        match one_shot_run(OneShot::Establish, events) {
            OneShot::Establish => true,
            OneShot::Run => happened(events, SessionEvent::Established(Ok(()))),
            OneShot::Close(r) => happened(events, SessionEvent::Established(Ok(()))) && happened(
                events,
                SessionEvent::Ran(r),
            ),
            OneShot::AfterClose(r) => happened(events, SessionEvent::Ran(r)) && happened(
                events,
                SessionEvent::<T>::Closed,
            ),
            OneShot::Return(r) => (happened(events, SessionEvent::Ran(r)) && happened(
                events,
                SessionEvent::<T>::Closed,
            ) && happened(events, SessionEvent::<T>::Told)) || (r matches Err(e) && happened(
                events,
                SessionEvent::Established(Err(e)),
            )),
        },
    decreases events.len(),
{
    if events.len() > 0 {
        let front = events.drop_last();
        lemma_one_shot_history(front);
        assert forall|ev: SessionEvent<T>| #[trigger] happened(front, ev) implies happened(
            events,
            ev,
        ) by {
            let i = choose|i: int| 0 <= i < front.len() && #[trigger] front[i] == ev;
            assert(events[i] == ev);
        }
        assert(events[events.len() - 1] == events.last());
        assert(happened(events, events.last()));
        let before = one_shot_run(OneShot::Establish, front);
        match (before, events.last()) {
            (OneShot::Establish, SessionEvent::Established(Ok(u))) => {
                assert(u == ());
            },
            _ => {},
        }
    }
}

/// A session that was made is closed, and the daemon told, before the result
/// is returned, whether the operation failed or not; and the result is what the
/// operation gave, or the failure to make the session.
pub proof fn law_session_is_closed_before_return<T>(
    events: Seq<SessionEvent<T>>,
    result: Result<T, MatError>,
)
    requires
        one_shot_run(OneShot::Establish, events) == OneShot::Return(result),
    ensures
        (happened(events, SessionEvent::Ran(result)) && happened(events, SessionEvent::<T>::Closed)
            && happened(events, SessionEvent::<T>::Told)) || (result matches Err(e) && happened(
            events,
            SessionEvent::Established(Err(e)),
        )),
{
    lemma_one_shot_history(events);
}

/// The failure of one of several nodes.
pub open spec fn node_failure(node_id: u64, e: ErrorView) -> ErrorView {
    prefixed(e, "node "@ + text::dec(node_id as nat) + ": "@)
}

/// Names the node in a failure.
pub fn node_error(node_id: u64, e: MatError) -> (f: MatError)
    ensures
        f@ == node_failure(node_id, e@),
{
    let prefix = "node ".to_owned().concat(&text::decimal(node_id)).concat(": ");
    e.prefix(&prefix)
}

/// A walk over some nodes in turn that stops at the first failure.
#[derive(Debug, PartialEq, Eq)]
pub struct NodeWalk<T> {
    pub node_ids: Vec<u64>,
    /// What the nodes visited so far gave.
    pub done: Vec<T>,
}

/// Where a walk stands.
#[derive(Debug, PartialEq, Eq)]
pub enum Walked<T> {
    /// The next node is to be visited.
    Node(NodeWalk<T>, u64),
    /// Every node was visited.
    Done(Vec<T>),
    Fail(MatError),
}

/// What a step of a walk says.
pub enum WalkedView<T> {
    Node(Seq<u64>, Seq<T>, u64),
    Done(Seq<T>),
    Fail(ErrorView),
}

impl<T> View for Walked<T> {
    type V = WalkedView<T>;

    open spec fn view(&self) -> WalkedView<T> {
        match *self {
            Walked::Node(w, id) => WalkedView::Node(w.node_ids@, w.done@, id),
            Walked::Done(v) => WalkedView::Done(v@),
            Walked::Fail(e) => WalkedView::Fail(e@),
        }
    }
}

/// The next node of a walk behind those done, or its end.
pub open spec fn walk_at<T>(node_ids: Seq<u64>, done: Seq<T>) -> WalkedView<T> {
    if done.len() < node_ids.len() {
        WalkedView::Node(node_ids, done, node_ids[done.len() as int])
    } else {
        WalkedView::Done(done)
    }
}

/// What follows when a node gave its result.
pub open spec fn walk_step<T>(
    node_ids: Seq<u64>,
    done: Seq<T>,
    r: Result<T, MatError>,
) -> WalkedView<T> {
    match r {
        Err(e) => WalkedView::Fail(node_failure(node_ids[done.len() as int], e@)),
        Ok(t) => walk_at(node_ids, done.push(t)),
    }
}

impl<T> NodeWalk<T> {
    /// A node is left to visit.
    pub open spec fn wf(self) -> bool {
        self.done.len() < self.node_ids.len()
    }

    fn at(self) -> (r: Walked<T>)
        ensures
            r@ == walk_at(self.node_ids@, self.done@),
            r matches Walked::Node(w, _) ==> w.wf() && w.node_ids == self.node_ids,
    {
        if self.done.len() < self.node_ids.len() {
            let id: u64 = self.node_ids[self.done.len()];
            Walked::Node(self, id)
        } else {
            Walked::Done(self.done)
        }
    }

    /// Begins a walk over some nodes.
    pub fn start(node_ids: Vec<u64>) -> (r: Walked<T>)
        ensures
            r@ == walk_at(node_ids@, Seq::<T>::empty()),
            r matches Walked::Node(w, _) ==> w.wf() && w.node_ids == node_ids,
    {
        NodeWalk { node_ids, done: Vec::new() }.at()
    }

    /// Goes on when the node under way gave its result.
    pub fn next(self, r: Result<T, MatError>) -> (n: Walked<T>)
        requires
            self.wf(),
        ensures
            n@ == walk_step(self.node_ids@, self.done@, r),
            n matches Walked::Node(w, _) ==> w.wf() && w.node_ids == self.node_ids,
    {
        match r {
            Err(e) => Walked::Fail(node_error(self.node_ids[self.done.len()], e)),
            Ok(t) => {
                let mut done = self.done;
                done.push(t);
                NodeWalk { node_ids: self.node_ids, done }.at()
            },
        }
    }
}

/// A walk over the results of its nodes.
pub open spec fn walk_run<T>(
    node_ids: Seq<u64>,
    done: Seq<T>,
    results: Seq<Result<T, MatError>>,
) -> WalkedView<T>
    decreases results.len(),
{
    if results.len() == 0 {
        walk_at(node_ids, done)
    } else {
        match walk_step(node_ids, done, results[0]) {
            WalkedView::Node(_, next, _) => walk_run(node_ids, next, results.skip(1)),
            end => end,
        }
    }
}

/// A walk ends well only when every node did; its results are then the nodes'
/// in their order. Otherwise it ends at the first node that failed, which its
/// failure names.
pub proof fn law_walk_stops_at_the_first_failure<T>(
    node_ids: Seq<u64>,
    done: Seq<T>,
    results: Seq<Result<T, MatError>>,
    i: int,
)
    requires
        done.len() + results.len() == node_ids.len(),
        0 <= i <= results.len(),
        forall|k: int| 0 <= k < i ==> (#[trigger] results[k]) is Ok,
        i < results.len() ==> results[i] is Err,
    ensures
        i == results.len() ==> walk_run(node_ids, done, results) == WalkedView::Done(
            done + Seq::new(i as nat, |k: int| results[k]->Ok_0),
        ),
        i < results.len() ==> walk_run(node_ids, done, results) == WalkedView::<T>::Fail(
            node_failure(node_ids[done.len() + i], results[i]->Err_0@),
        ),
    decreases results.len(),
{
    if results.len() == 0 {
        assert(done + Seq::new(0, |k: int| results[k]->Ok_0) =~= done);
    } else if i > 0 {
        let t = results[0]->Ok_0;
        let rest = results.skip(1);
        assert forall|k: int| 0 <= k < i - 1 implies (#[trigger] rest[k]) is Ok by {
            assert(rest[k] == results[k + 1]);
        }
        if i < results.len() {
            assert(rest[i - 1] == results[i]);
        }
        if rest.len() > 0 {
            law_walk_stops_at_the_first_failure(node_ids, done.push(t), rest, i - 1);
            assert(done.push(t) + Seq::new((i - 1) as nat, |k: int| rest[k]->Ok_0) =~= done
                + Seq::new(i as nat, |k: int| results[k]->Ok_0));
        } else {
            assert(done.push(t) =~= done + Seq::new(i as nat, |k: int| results[k]->Ok_0));
        }
    }
}

/// Where giving a group to nodes stands.
#[derive(Debug, PartialEq, Eq)]
pub enum ProvisionRun {
    /// Write the group with this key to the controller's own store.
    Controller([u8; 16]),
    /// Give it to this node.
    Node(NodeWalk<()>, u64),
    /// Every node has it.
    Done,
    Fail(MatError),
}

/// What a step of giving a group says.
pub enum ProvisionRunView {
    Controller(Seq<u8>),
    Node(Seq<u64>, Seq<()>, u64),
    Done,
    Fail(ErrorView),
}

impl View for ProvisionRun {
    type V = ProvisionRunView;

    open spec fn view(&self) -> ProvisionRunView {
        match *self {
            ProvisionRun::Controller(k) => ProvisionRunView::Controller(k@),
            ProvisionRun::Node(w, id) => ProvisionRunView::Node(w.node_ids@, w.done@, id),
            ProvisionRun::Done => ProvisionRunView::Done,
            ProvisionRun::Fail(e) => ProvisionRunView::Fail(e@),
        }
    }
}

/// How giving a group begins: with the key for the controller's own store.
pub open spec fn provision_first(
    configured: bool,
    epoch_key_hex: Result<String, MatError>,
) -> ProvisionRunView {
    if !configured {
        ProvisionRunView::Fail(group_ctx_unconfigured())
    } else {
        match epoch_key_hex {
            Err(e) => ProvisionRunView::Fail(e@),
            Ok(hex) => match epoch_key_of(hex@) {
                Err(e) => ProvisionRunView::Fail(e),
                Ok(key) => ProvisionRunView::Controller(key),
            },
        }
    }
}

/// What a step over the nodes means for giving a group.
pub open spec fn provision_after(w: WalkedView<()>) -> ProvisionRunView {
    match w {
        WalkedView::Node(all, done, id) => ProvisionRunView::Node(all, done, id),
        WalkedView::Done(_) => ProvisionRunView::Done,
        WalkedView::Fail(e) => ProvisionRunView::Fail(e),
    }
}

fn provision_walked(w: Walked<()>) -> (r: ProvisionRun)
    ensures
        r@ == provision_after(w@),
        r matches ProvisionRun::Node(n, _) ==> (w matches Walked::Node(m, _) && n == m),
{
    match w {
        Walked::Node(n, id) => ProvisionRun::Node(n, id),
        Walked::Done(_) => ProvisionRun::Done,
        Walked::Fail(e) => ProvisionRun::Fail(e),
    }
}

/// Begins giving a group to nodes: not without a controller context, nor where
/// the key could not be had.
pub fn provision(configured: bool, epoch_key_hex: Result<String, MatError>) -> (r: ProvisionRun)
    ensures
        r@ == provision_first(configured, epoch_key_hex),
{
    if !configured {
        return ProvisionRun::Fail(MatError::group_ctx_unconfigured());
    }
    match epoch_key_hex {
        Err(e) => ProvisionRun::Fail(e),
        Ok(hex) => match epoch_key_from_hex(&hex) {
            Ok(k) => ProvisionRun::Controller(k),
            Err(e) => ProvisionRun::Fail(e),
        },
    }
}

/// Goes on when the group was written to the controller's own store: its nodes
/// are next, in their order.
pub fn provision_written(
    node_ids: Vec<u64>,
    written: Result<(), GroupSettingsFailure>,
) -> (r: ProvisionRun)
    ensures
        written matches Err(f) ==> r@ == ProvisionRunView::Fail(write_error(f)),
        written is Ok ==> r@ == provision_after(walk_at(node_ids@, Seq::<()>::empty())),
        r matches ProvisionRun::Node(w, _) ==> w.wf() && w.node_ids == node_ids,
{
    match write_group_provision(written) {
        Err(e) => ProvisionRun::Fail(e),
        Ok(()) => provision_walked(NodeWalk::start(node_ids)),
    }
}

/// Goes on when the node under way was given the group.
pub fn provision_next(w: NodeWalk<()>, r: Result<(), MatError>) -> (n: ProvisionRun)
    requires
        w.wf(),
    ensures
        n@ == provision_after(walk_step(w.node_ids@, w.done@, r)),
        n matches ProvisionRun::Node(m, _) ==> m.wf() && m.node_ids == w.node_ids,
{
    provision_walked(w.next(r))
}

/// No node is given a group before the controller's own store holds it: what
/// begins is never a node, and a store that was not written ends it all.
pub proof fn law_controller_holds_the_group_first(
    configured: bool,
    epoch_key_hex: Result<String, MatError>,
)
    ensures
        !(provision_first(configured, epoch_key_hex) is Node),
        provision_first(configured, epoch_key_hex) !is Done,
{
}

/// What is reported of a group that its nodes have.
#[derive(Debug, PartialEq, Eq)]
pub struct ProvisionReport {
    pub group_id: u16,
    pub keyset_id: u16,
    pub name: String,
    pub endpoint: u16,
    pub node_ids: Vec<u64>,
    pub note: Option<String>,
}

/// What is reported of a group that its nodes have: what was asked for, and a
/// note where there is one.
pub fn provision_report(p: &ProvisionParams, note: Option<String>) -> (r: ProvisionReport)
    ensures
        r.group_id == p.group_id,
        r.keyset_id == p.keyset_id,
        r.name@ == p.name@,
        r.endpoint == p.endpoint,
        r.node_ids@ == p.node_ids@,
        r.note == note,
{
    ProvisionReport {
        group_id: p.group_id,
        keyset_id: p.keyset_id,
        name: p.name.clone(),
        endpoint: p.endpoint,
        node_ids: p.node_ids.clone(),
        note,
    }
}

/// What one node is given of a provision.
pub fn node_params(p: &ProvisionParams, epoch_key: [u8; 16]) -> (r: ProvisionNodeParams)
    ensures
        r.group_id == p.group_id,
        r.keyset_id == p.keyset_id,
        r.name@ == p.name@,
        r.endpoint == p.endpoint,
        r.epoch_key == epoch_key,
{
    ProvisionNodeParams {
        group_id: p.group_id,
        keyset_id: p.keyset_id,
        name: p.name.clone(),
        endpoint: p.endpoint,
        epoch_key,
    }
}

/// Those of some nodes whose answer is the given one, in order.
pub open spec fn answered(node_ids: Seq<u64>, changed: Seq<bool>, want: bool) -> Seq<u64>
    decreases node_ids.len(),
{
    if node_ids.len() == 0 {
        Seq::empty()
    } else {
        let i = node_ids.len() - 1;
        if changed[i] == want {
            answered(node_ids.drop_last(), changed, want).push(node_ids[i])
        } else {
            answered(node_ids.drop_last(), changed, want)
        }
    }
}

/// Parts the nodes of a grant into those that were changed and those that had
/// the entry.
fn granted(node_ids: &Vec<u64>, changed: &Vec<bool>) -> (r: (Vec<u64>, Vec<u64>))
    requires
        changed.len() == node_ids.len(),
    ensures
        r.0@ == answered(node_ids@, changed@, true),
        r.1@ == answered(node_ids@, changed@, false),
{
    let mut updated: Vec<u64> = Vec::new();
    let mut unchanged: Vec<u64> = Vec::new();
    let mut i: usize = 0;
    while i < node_ids.len()
        invariant
            i <= node_ids.len(),
            changed.len() == node_ids.len(),
            updated@ == answered(node_ids@.take(i as int), changed@, true),
            unchanged@ == answered(node_ids@.take(i as int), changed@, false),
        decreases node_ids.len() - i,
    {
        assert(node_ids@.take(i + 1).drop_last() =~= node_ids@.take(i as int));
        if changed[i] {
            updated.push(node_ids[i]);
        } else {
            unchanged.push(node_ids[i]);
        }
        i += 1;
    }
    assert(node_ids@.take(i as int) =~= node_ids@);
    (updated, unchanged)
}

/// Where granting a group its entry on nodes stands.
#[derive(Debug, PartialEq, Eq)]
pub enum GrantRun {
    /// Grant it on this node.
    Node(NodeWalk<bool>, u64),
    /// Every node has the entry: those that were changed, and those that had it.
    Done { updated: Vec<u64>, unchanged: Vec<u64> },
    Fail(MatError),
}

/// What a step of a grant says.
pub enum GrantRunView {
    Node(Seq<u64>, Seq<bool>, u64),
    Done { updated: Seq<u64>, unchanged: Seq<u64> },
    Fail(ErrorView),
}

impl View for GrantRun {
    type V = GrantRunView;

    open spec fn view(&self) -> GrantRunView {
        match *self {
            GrantRun::Node(w, id) => GrantRunView::Node(w.node_ids@, w.done@, id),
            GrantRun::Done { updated, unchanged } => GrantRunView::Done {
                updated: updated@,
                unchanged: unchanged@,
            },
            GrantRun::Fail(e) => GrantRunView::Fail(e@),
        }
    }
}

/// What a step over the nodes means for a grant.
pub open spec fn grant_after(node_ids: Seq<u64>, w: WalkedView<bool>) -> GrantRunView {
    match w {
        WalkedView::Node(all, done, id) => GrantRunView::Node(all, done, id),
        WalkedView::Done(changed) => GrantRunView::Done {
            updated: answered(node_ids, changed, true),
            unchanged: answered(node_ids, changed, false),
        },
        WalkedView::Fail(e) => GrantRunView::Fail(e),
    }
}

/// Begins granting a group its entry on some nodes.
pub fn grant(node_ids: Vec<u64>) -> (r: GrantRun)
    ensures
        r@ == grant_after(node_ids@, walk_at(node_ids@, Seq::<bool>::empty())),
        r matches GrantRun::Node(w, _) ==> w.wf() && w.node_ids == node_ids,
{
    if node_ids.len() == 0 {
        GrantRun::Done { updated: Vec::new(), unchanged: Vec::new() }
    } else {
        let id: u64 = node_ids[0];
        GrantRun::Node(NodeWalk { node_ids, done: Vec::new() }, id)
    }
}

/// Goes on when the node under way was granted the entry: whether that changed
/// it.
pub fn grant_next(w: NodeWalk<bool>, r: Result<bool, MatError>) -> (n: GrantRun)
    requires
        w.wf(),
    ensures
        n@ == grant_after(w.node_ids@, walk_step(w.node_ids@, w.done@, r)),
        n matches GrantRun::Node(m, _) ==> m.wf() && m.node_ids == w.node_ids,
{
    let node_ids = w.node_ids.clone();
    assert(node_ids@ =~= w.node_ids@);
    match w.next(r) {
        Walked::Node(n, id) => GrantRun::Node(n, id),
        Walked::Done(changed) => {
            let (updated, unchanged) = granted(&node_ids, &changed);
            GrantRun::Done { updated, unchanged }
        },
        Walked::Fail(e) => GrantRun::Fail(e),
    }
}

/// Every node of a grant is reported once: as changed or as unchanged.
pub proof fn law_grant_reports_every_node(node_ids: Seq<u64>, changed: Seq<bool>)
    ensures
        answered(node_ids, changed, true).to_multiset().add(
            answered(node_ids, changed, false).to_multiset(),
        ) =~= node_ids.to_multiset(),
    decreases node_ids.len(),
{
    broadcast use vstd::seq_lib::group_to_multiset_ensures;

    if node_ids.len() > 0 {
        law_grant_reports_every_node(node_ids.drop_last(), changed);
        assert(node_ids.drop_last().push(node_ids.last()) =~= node_ids);
    }
}

/// Where taking a group away from nodes and controller stands.
#[derive(Debug, PartialEq, Eq)]
pub enum RemoveRun {
    /// Take it away from this node.
    Node(NodeWalk<RemoveGroupNodeReport>, u64),
    /// Every node is done: take it out of the controller's own store.
    Controller(Vec<RemoveGroupNodeReport>),
    Fail(MatError),
}

/// What a step of taking a group away says.
pub enum RemoveRunView {
    Node(Seq<u64>, Seq<RemoveGroupNodeReport>, u64),
    Controller(Seq<RemoveGroupNodeReport>),
    Fail(ErrorView),
}

impl View for RemoveRun {
    type V = RemoveRunView;

    open spec fn view(&self) -> RemoveRunView {
        match *self {
            RemoveRun::Node(w, id) => RemoveRunView::Node(w.node_ids@, w.done@, id),
            RemoveRun::Controller(v) => RemoveRunView::Controller(v@),
            RemoveRun::Fail(e) => RemoveRunView::Fail(e@),
        }
    }
}

/// The nodes come first; the controller follows only behind the last of them.
pub open spec fn remove_after(w: WalkedView<RemoveGroupNodeReport>) -> RemoveRunView {
    match w {
        WalkedView::Node(all, done, id) => RemoveRunView::Node(all, done, id),
        WalkedView::Done(done) => RemoveRunView::Controller(done),
        WalkedView::Fail(e) => RemoveRunView::Fail(e),
    }
}

fn after_walk(w: Walked<RemoveGroupNodeReport>) -> (r: RemoveRun)
    ensures
        r@ == remove_after(w@),
        r matches RemoveRun::Node(n, _) ==> (w matches Walked::Node(m, _) && n == m),
{
    match w {
        Walked::Node(n, id) => RemoveRun::Node(n, id),
        Walked::Done(done) => RemoveRun::Controller(done),
        Walked::Fail(e) => RemoveRun::Fail(e),
    }
}

/// Begins taking a group away from nodes and controller.
pub fn remove_group(configured: bool, node_ids: Vec<u64>) -> (r: RemoveRun)
    ensures
        !configured ==> r@ == RemoveRunView::Fail(group_ctx_unconfigured()),
        configured ==> r@ == remove_after(walk_at(node_ids@, Seq::empty())),
        r matches RemoveRun::Node(w, _) ==> w.wf() && w.node_ids == node_ids,
{
    if !configured {
        return RemoveRun::Fail(MatError::group_ctx_unconfigured());
    }
    after_walk(NodeWalk::start(node_ids))
}

/// Goes on when the node under way gave its report.
pub fn remove_group_next(
    w: NodeWalk<RemoveGroupNodeReport>,
    r: Result<RemoveGroupNodeReport, MatError>,
) -> (n: RemoveRun)
    requires
        w.wf(),
    ensures
        n@ == remove_after(walk_step(w.node_ids@, w.done@, r)),
        n matches RemoveRun::Node(m, _) ==> m.wf() && m.node_ids == w.node_ids,
{
    after_walk(w.next(r))
}

/// A node's failure leaves the controller's own store as it was: the failed
/// node ends taking the group away.
pub proof fn law_node_failure_spares_the_controller(
    node_ids: Seq<u64>,
    done: Seq<RemoveGroupNodeReport>,
    e: MatError,
)
    ensures
        remove_after(walk_step(node_ids, done, Err(e))) == RemoveRunView::Fail(
            node_failure(node_ids[done.len() as int], e@),
        ),
{
}

/// What is reported of a group that was taken away.
#[derive(Debug, PartialEq, Eq)]
pub struct RemoveReport {
    pub group_id: u16,
    pub endpoint: u16,
    /// Each node with what was done there.
    pub nodes: Vec<(u64, RemoveGroupNodeReport)>,
    /// The controller's own store held the group.
    pub controller_removed: bool,
    /// The group's key set went with it.
    pub keyset_removed: bool,
}

/// Ends taking a group away: the controller's own store, where it was written,
/// may have held the group or not; neither is a failure.
pub fn remove_report(
    group_id: u16,
    endpoint: u16,
    node_ids: &Vec<u64>,
    done: &Vec<RemoveGroupNodeReport>,
    removed: Result<Option<bool>, GroupSettingsFailure>,
) -> (r: Result<RemoveReport, MatError>)
    requires
        done.len() == node_ids.len(),
    ensures
        removed matches Err(f) ==> (r matches Err(e) && e@ == write_error(f)),
        removed matches Ok(found) ==> (r matches Ok(rep) && rep.group_id == group_id
            && rep.endpoint == endpoint && rep.nodes@.len() == node_ids@.len()
            && rep.controller_removed == (found is Some) && rep.keyset_removed == (found == Some(
            true,
        )) && (forall|i: int|
            0 <= i < node_ids@.len() ==> #[trigger] rep.nodes@[i] == (node_ids@[i], done@[i]))),
{
    let found = match removed {
        Err(f) => {
            return Err(map_gs_err(f));
        },
        Ok(found) => found,
    };
    let mut nodes: Vec<(u64, RemoveGroupNodeReport)> = Vec::new();
    let mut i: usize = 0;
    while i < node_ids.len()
        invariant
            i <= node_ids.len(),
            done.len() == node_ids.len(),
            nodes@.len() == i,
            forall|k: int| 0 <= k < i ==> #[trigger] nodes@[k] == (node_ids@[k], done@[k]),
        decreases node_ids.len() - i,
    {
        let d = &done[i];
        nodes.push(
            (
                node_ids[i],
                RemoveGroupNodeReport {
                    acl_removed: d.acl_removed,
                    group_removed: d.group_removed,
                    keymap_removed: d.keymap_removed,
                    keyset_removed: d.keyset_removed,
                },
            ),
        );
        i += 1;
    }
    let (controller_removed, keyset_removed) = controller_removed(found);
    Ok(RemoveReport { group_id, endpoint, nodes, controller_removed, keyset_removed })
}

/// What taking a group away did in the controller's own store: whether the
/// group was there, and whether its key set went with it.
fn controller_removed(removed: Option<bool>) -> (r: (bool, bool))
    ensures
        r == match removed {
            Some(keyset) => (true, keyset),
            None => (false, false),
        },
{
    match removed {
        Some(keyset) => (true, keyset),
        None => (false, false),
    }
}

/// A node is reported as changed if and only if its answer said so, and as
/// unchanged if and only if it did not.
pub proof fn law_nodes_are_reported_by_their_answers(
    node_ids: Seq<u64>,
    changed: Seq<bool>,
    want: bool,
    x: u64,
)
    requires
        changed.len() == node_ids.len(),
    ensures
        answered(node_ids, changed, want).contains(x) <==> exists|i: int|
            0 <= i < node_ids.len() && #[trigger] node_ids[i] == x && changed[i] == want,
    decreases node_ids.len(),
{
    lemma_answers(node_ids, changed, want, x);
}

proof fn lemma_answers(node_ids: Seq<u64>, changed: Seq<bool>, want: bool, x: u64)
    requires
        changed.len() >= node_ids.len(),
    ensures
        answered(node_ids, changed, want).contains(x) <==> exists|i: int|
            0 <= i < node_ids.len() && #[trigger] node_ids[i] == x && changed[i] == want,
    decreases node_ids.len(),
{
    if node_ids.len() > 0 {
        let front = node_ids.drop_last();
        let rest = answered(front, changed, want);
        let all = answered(node_ids, changed, want);
        let n: int = node_ids.len() - 1;
        lemma_answers(front, changed, want, x);
        if rest.contains(x) {
            let i = choose|i: int| 0 <= i < rest.len() && rest[i] == x;
            assert(all[i] == x);
            let k = choose|k: int|
                0 <= k < front.len() && #[trigger] front[k] == x && changed[k] == want;
            assert(node_ids[k] == x);
        }
        if all.contains(x) && !rest.contains(x) {
            let i = choose|i: int| 0 <= i < all.len() && all[i] == x;
            assert(i == rest.len()) by {
                if i < rest.len() {
                    assert(rest[i] == x);
                }
            }
            assert(node_ids[n] == x && changed[n] == want);
        }
        if exists|i: int|
            0 <= i < node_ids.len() && #[trigger] node_ids[i] == x && changed[i] == want {
            let i = choose|i: int|
                0 <= i < node_ids.len() && #[trigger] node_ids[i] == x && changed[i] == want;
            if i < n {
                assert(front[i] == x);
            } else {
                assert(all[rest.len() as int] == x);
            }
        }
    }
}

/// The failure of a node keeps its kind and its words and names the node.
pub proof fn law_node_failure_names_the_node(node_id: u64, e: ErrorView)
    ensures
        node_failure(node_id, e).kind == e.kind,
        node_failure(node_id, e).detail == "node "@ + text::dec(node_id as nat) + ": "@ + e.detail,
        text::dec_val(text::dec(node_id as nat)) == Some(node_id as nat),
{
    text::law_decimal_reads_back(node_id as nat);
}

/// A group is given to nodes with the key that was spelled, to one node after
/// the other in the order in which they were named, the controller first.
pub proof fn law_provision_uses_the_spelled_key(hex: String, node_ids: Seq<u64>, i: int)
    requires
        0 <= i < 16,
        provision_first(true, Ok(hex)) is Controller,
    ensures
        provision_first(true, Ok(hex))->Controller_0.len() == 16,
        provision_first(true, Ok(hex))->Controller_0[i] == 16 * text::hex_val(hex@[2 * i])->0
            + text::hex_val(hex@[2 * i + 1])->0,
        provision_first(false, Ok(hex)) is Fail,
        provision_after(walk_at(node_ids, Seq::<()>::empty())) == (if node_ids.len() > 0 {
            ProvisionRunView::Node(node_ids, Seq::<()>::empty(), node_ids[0])
        } else {
            ProvisionRunView::Done
        }),
{
    crate::group_node::law_key_spells_its_bytes(hex@, i);
}

/// Taking a group away and granting it go to the nodes one after the other, in
/// the order in which they were named; the controller comes last.
pub proof fn law_nodes_are_visited_in_order(
    node_ids: Seq<u64>,
    done: Seq<RemoveGroupNodeReport>,
    granted: Seq<bool>,
    r: RemoveGroupNodeReport,
    b: bool,
)
    requires
        done.len() < node_ids.len(),
        granted.len() < node_ids.len(),
    ensures
        remove_after(walk_step(node_ids, done, Ok(r))) == (if done.len() + 1 < node_ids.len() {
            RemoveRunView::Node(node_ids, done.push(r), node_ids[(done.len() + 1) as int])
        } else {
            RemoveRunView::Controller(done.push(r))
        }),
        granted.len() + 1 < node_ids.len() ==> grant_after(
            node_ids,
            walk_step(node_ids, granted, Ok(b)),
        ) == GrantRunView::Node(node_ids, granted.push(b), node_ids[(granted.len() + 1) as int]),
        granted.len() + 1 == node_ids.len() ==> grant_after(
            node_ids,
            walk_step(node_ids, granted, Ok(b)),
        ) is Done,
{
}

/// A grant that is done reports a node as updated if and only if its list was
/// changed, and as unchanged if and only if it was not.
pub proof fn law_grant_reports_nodes_by_their_answers(
    node_ids: Seq<u64>,
    changed: Seq<bool>,
    x: u64,
)
    requires
        changed.len() == node_ids.len(),
    ensures
        grant_after(node_ids, WalkedView::Done(changed)) matches GrantRunView::Done {
            updated,
            unchanged,
        } && (updated.contains(x) <==> exists|i: int|
            0 <= i < node_ids.len() && #[trigger] node_ids[i] == x && changed[i]) && (
        unchanged.contains(x) <==> exists|i: int|
            0 <= i < node_ids.len() && #[trigger] node_ids[i] == x && !changed[i]),
{
    lemma_answers(node_ids, changed, true, x);
    lemma_answers(node_ids, changed, false, x);
}

} // verus!
