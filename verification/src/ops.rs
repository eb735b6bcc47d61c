//! Walking the endpoints of a node.
use vstd::prelude::*;
use vstd::string::*;
use crate::conn::{
    Call,
    CallView,
    Progress,
    ProgressView,
    ATTR_PARTS_LIST,
    ATTR_SERVER_LIST,
    CLUSTER_DESCRIPTOR,
};
use crate::error::{ErrorView, MatError};
use crate::json::{json_views, Json, JsonView};

verus! {

/// The numbers in an array; anything else in it is left out, and what is no
/// array has none.
pub open spec fn id_list(v: JsonView) -> Seq<u64> {
    match v {
        JsonView::Array(items) => numbers_in(items),
        _ => Seq::empty(),
    }
}

/// The whole numbers among some values, in order.
pub open spec fn numbers_in(items: Seq<JsonView>) -> Seq<u64>
    decreases items.len(),
{
    if items.len() == 0 {
        Seq::empty()
    } else {
        match items.last().as_u64() {
            Some(n) => numbers_in(items.drop_last()).push(n),
            None => numbers_in(items.drop_last()),
        }
    }
}

/// The numbers in an array.
pub fn parse_id_list_json(v: &Json) -> (ids: Vec<u64>)
    ensures
        ids@ == id_list(v@),
{
    let mut ids: Vec<u64> = Vec::new();
    if let Some(items) = v.as_array() {
        let ghost all = json_views(items@);
        let mut i: usize = 0;
        while i < items.len()
            invariant
                i <= items.len(),
                all == json_views(items@),
                ids@ == numbers_in(all.take(i as int)),
            decreases items.len() - i,
        {
            assert(all.take(i + 1).drop_last() =~= all.take(i as int));
            assert(all.take(i + 1).last() == items@[i as int]@);
            if let Some(n) = items[i].as_u64() {
                ids.push(n);
            }
            i += 1;
        }
        assert(all.take(i as int) =~= all);
    }
    ids
}

/// The endpoints of a node: the root first, then each listed one once.
pub open spec fn endpoints_of(ids: Seq<u64>) -> Seq<u16>
    decreases ids.len(),
{
    if ids.len() == 0 {
        seq![0u16]
    } else {
        let rest = endpoints_of(ids.drop_last());
        let id = ids.last();
        if id <= 65_535 && !rest.contains(id as u16) {
            rest.push(id as u16)
        } else {
            rest
        }
    }
}

/// Whether a number is among some.
pub fn contains_u16(v: &Vec<u16>, x: u16) -> (r: bool)
    ensures
        r == v@.contains(x),
{
    let mut i: usize = 0;
    while i < v.len()
        invariant
            i <= v.len(),
            forall|k: int| 0 <= k < i ==> v@[k] != x,
        decreases v.len() - i,
    {
        if v[i] == x {
            assert(v@[i as int] == x);
            return true;
        }
        i += 1;
    }
    false
}

fn collect_endpoints(ids: &Vec<u64>) -> (eps: Vec<u16>)
    ensures
        eps@ == endpoints_of(ids@),
{
    let mut eps: Vec<u16> = Vec::new();
    eps.push(0);
    assert(eps@ =~= endpoints_of(ids@.take(0)));
    let mut i: usize = 0;
    while i < ids.len()
        invariant
            i <= ids.len(),
            eps@ == endpoints_of(ids@.take(i as int)),
        decreases ids.len() - i,
    {
        assert(ids@.take(i + 1).drop_last() =~= ids@.take(i as int));
        if ids[i] <= 65_535 && !contains_u16(&eps, ids[i] as u16) {
            eps.push(ids[i] as u16);
        }
        i += 1;
    }
    assert(ids@.take(i as int) =~= ids@);
    eps
}

/// The root is always an endpoint, it comes first, and no endpoint occurs
/// twice.
pub proof fn law_endpoints_are_distinct(ids: Seq<u64>)
    ensures
        endpoints_of(ids).len() >= 1,
        endpoints_of(ids)[0] == 0,
        endpoints_of(ids).no_duplicates(),
    decreases ids.len(),
{
    if ids.len() > 0 {
        law_endpoints_are_distinct(ids.drop_last());
    }
}

/// The endpoints of a node, each with the ids of its clusters.
#[derive(Debug, PartialEq, Eq)]
pub struct NodeEndpoints {
    pub items: Vec<(u16, Vec<u64>)>,
}

impl View for NodeEndpoints {
    type V = Seq<(u16, Seq<u64>)>;

    open spec fn view(&self) -> Seq<(u16, Seq<u64>)> {
        Seq::new(self.items@.len(), |i: int| (self.items@[i].0, self.items@[i].1@))
    }
}

/// The walk over the endpoints of a node: the root's list of parts, then the
/// clusters of each endpoint.
#[derive(Debug, PartialEq, Eq)]
pub enum Describe {
    /// The list of parts is being read.
    Parts,
    /// The clusters of the endpoint behind the found ones are being read.
    Servers { endpoints: Vec<u16>, found: NodeEndpoints },
}

/// How far the walk is.
pub enum DescribeView {
    Parts,
    Servers { endpoints: Seq<u16>, found: Seq<(u16, Seq<u64>)> },
}

impl View for Describe {
    type V = DescribeView;

    open spec fn view(&self) -> DescribeView {
        match *self {
            Describe::Parts => DescribeView::Parts,
            Describe::Servers { endpoints, found } => DescribeView::Servers {
                endpoints: endpoints@,
                found: found@,
            },
        }
    }
}

/// The read of the parts of a node.
pub open spec fn parts_list() -> CallView {
    CallView::ReadJson { endpoint: 0, cluster: CLUSTER_DESCRIPTOR, attribute: ATTR_PARTS_LIST }
}

/// The read of the clusters of an endpoint.
pub open spec fn server_list(endpoint: u16) -> CallView {
    CallView::ReadJson { endpoint, cluster: CLUSTER_DESCRIPTOR, attribute: ATTR_SERVER_LIST }
}

/// What follows in the walk when a list came in.
pub open spec fn describe_step(s: DescribeView, reply: Result<JsonView, ErrorView>) -> ProgressView<
    DescribeView,
    Seq<(u16, Seq<u64>)>,
> {
    match reply {
        Err(e) => ProgressView::Fail(e),
        Ok(v) => match s {
            DescribeView::Parts => {
                let endpoints = endpoints_of(id_list(v));
                ProgressView::Call(
                    DescribeView::Servers { endpoints, found: Seq::empty() },
                    server_list(endpoints[0]),
                )
            },
            DescribeView::Servers { endpoints, found } => {
                let found = found.push((endpoints[found.len() as int], id_list(v)));
                if found.len() < endpoints.len() {
                    ProgressView::Call(
                        DescribeView::Servers { endpoints, found },
                        server_list(endpoints[found.len() as int]),
                    )
                } else {
                    ProgressView::Done(found)
                }
            },
        },
    }
}

/// What a value that was read says.
pub open spec fn value_view(r: Result<Json, MatError>) -> Result<JsonView, ErrorView> {
    match r {
        Ok(v) => Ok(v@),
        Err(e) => Err(e@),
    }
}

impl Describe {
    /// An endpoint is left to visit.
    pub open spec fn wf(self) -> bool {
        self matches Describe::Servers { endpoints, found } ==> found@.len() < endpoints.len()
    }
}

/// Begins the walk with the parts of the root.
pub fn describe() -> (r: (Describe, Call))
    ensures
        r.0@ == DescribeView::Parts,
        r.0.wf(),
        r.1@ == parts_list(),
{
    (
        Describe::Parts,
        Call::ReadJson { endpoint: 0, cluster: CLUSTER_DESCRIPTOR, attribute: ATTR_PARTS_LIST },
    )
}

/// Goes on with the walk when a list came in.
pub fn describe_next(s: Describe, reply: Result<Json, MatError>) -> (r: Progress<
    Describe,
    NodeEndpoints,
>)
    requires
        s.wf(),
    ensures
        r@ == describe_step(s@, value_view(reply)),
        r matches Progress::Call(next, _) ==> next.wf(),
{
    let ids = match reply {
        Err(e) => {
            return Progress::Fail(e);
        },
        Ok(v) => parse_id_list_json(&v),
    };
    match s {
        Describe::Parts => {
            let endpoints = collect_endpoints(&ids);
            proof {
                law_endpoints_are_distinct(ids@);
            }
            let first: u16 = endpoints[0];
            let found = NodeEndpoints { items: Vec::new() };
            assert(found@ =~= Seq::empty());
            Progress::Call(
                Describe::Servers { endpoints, found },
                Call::ReadJson {
                    endpoint: first,
                    cluster: CLUSTER_DESCRIPTOR,
                    attribute: ATTR_SERVER_LIST,
                },
            )
        },
        Describe::Servers { endpoints, found } => {
            let ghost before = found@;
            let mut found = found;
            let here: u16 = endpoints[found.items.len()];
            found.items.push((here, ids));
            assert(found@ =~= before.push((here, ids@)));
            if found.items.len() < endpoints.len() {
                let next: u16 = endpoints[found.items.len()];
                Progress::Call(
                    Describe::Servers { endpoints, found },
                    Call::ReadJson {
                        endpoint: next,
                        cluster: CLUSTER_DESCRIPTOR,
                        attribute: ATTR_SERVER_LIST,
                    },
                )
            } else {
                Progress::Done(found)
            }
        },
    }
}

/// The calls of a walk whose replies are given, the first call left out.
pub open spec fn describe_run(s: DescribeView, lists: Seq<JsonView>) -> ProgressView<
    DescribeView,
    Seq<(u16, Seq<u64>)>,
>
    decreases lists.len(),
{
    let p = describe_step(s, Ok(lists[0]));
    match p {
        ProgressView::Call(next, _) if lists.len() > 1 => describe_run(next, lists.skip(1)),
        _ => p,
    }
}

proof fn lemma_describe_run(
    endpoints: Seq<u16>,
    found: Seq<(u16, Seq<u64>)>,
    lists: Seq<JsonView>,
)
    requires
        found.len() < endpoints.len(),
        found.len() + lists.len() == endpoints.len(),
    ensures
        describe_run(DescribeView::Servers { endpoints, found }, lists) == ProgressView::<
            DescribeView,
            Seq<(u16, Seq<u64>)>,
        >::Done(
            found + Seq::new(
                lists.len(),
                |i: int| (endpoints[found.len() + i], id_list(lists[i])),
            ),
        ),
    decreases lists.len(),
{
    let next = found.push((endpoints[found.len() as int], id_list(lists[0])));
    let rest = Seq::new(lists.len(), |i: int| (endpoints[found.len() + i], id_list(lists[i])));
    if lists.len() > 1 {
        lemma_describe_run(endpoints, next, lists.skip(1));
        let tail = lists.skip(1);
        assert(next + Seq::new(
            tail.len(),
            |i: int| (endpoints[next.len() + i], id_list(tail[i])),
        ) =~= found + rest);
    } else {
        assert(next =~= found + rest);
    }
}

/// A walk that no read fails lists every endpoint with the clusters that were
/// read from it, in the order of the endpoints.
pub proof fn law_describe_lists_every_endpoint(parts: JsonView, lists: Seq<JsonView>)
    requires
        lists.len() == endpoints_of(id_list(parts)).len(),
    ensures
        describe_run(DescribeView::Parts, seq![parts] + lists) == ProgressView::<
            DescribeView,
            Seq<(u16, Seq<u64>)>,
        >::Done(
            Seq::new(
                lists.len(),
                |i: int| (endpoints_of(id_list(parts))[i], id_list(lists[i])),
            ),
        ),
{
    let eps = endpoints_of(id_list(parts));
    law_endpoints_are_distinct(id_list(parts));
    let all = seq![parts] + lists;
    assert(all.skip(1) =~= lists);
    lemma_describe_run(eps, Seq::empty(), lists);
    let empty = Seq::<(u16, Seq<u64>)>::empty();
    assert(empty + Seq::new(
        lists.len(),
        |i: int| (eps[empty.len() + i], id_list(lists[i])),
    ) =~= Seq::new(lists.len(), |i: int| (eps[i], id_list(lists[i]))));
}

/// The endpoints of a node are the root and the listed ones that fit sixteen
/// bits, every one of them and nothing else.
pub proof fn law_endpoints_are_the_listed_ones(ids: Seq<u64>, x: u16)
    ensures
        endpoints_of(ids).contains(x) <==> x == 0 || ids.contains(x as u64),
    decreases ids.len(),
{
    let eps = endpoints_of(ids);
    if ids.len() == 0 {
        assert(eps[0] == 0);
    } else {
        let front = ids.drop_last();
        let rest = endpoints_of(front);
        law_endpoints_are_the_listed_ones(front, x);
        if front.contains(x as u64) {
            let i = choose|i: int| 0 <= i < front.len() && front[i] == x as u64;
            assert(ids[i] == x as u64);
        }
        if ids.contains(x as u64) && !front.contains(x as u64) {
            let i = choose|i: int| 0 <= i < ids.len() && ids[i] == x as u64;
            assert(i == ids.len() - 1) by {
                if i < ids.len() - 1 {
                    assert(front[i] == x as u64);
                }
            }
            if !rest.contains(x) {
                assert(eps[rest.len() as int] == x);
            }
        }
        if rest.contains(x) {
            let i = choose|i: int| 0 <= i < rest.len() && rest[i] == x;
            assert(eps[i] == x);
        }
        if eps.contains(x) && !rest.contains(x) {
            let i = choose|i: int| 0 <= i < eps.len() && eps[i] == x;
            assert(i == rest.len()) by {
                if i < rest.len() {
                    assert(rest[i] == x);
                }
            }
            assert(ids[ids.len() - 1] == x as u64);
        }
    }
}

/// Behind the root the endpoints keep the order of the list: of two of them the
/// one that stands first is listed before the other is.
pub proof fn law_endpoints_keep_the_order(ids: Seq<u64>, a: int, b: int)
    requires
        1 <= a < b < endpoints_of(ids).len(),
    ensures
        exists|i: int|
            0 <= i < ids.len() && ids[i] == endpoints_of(ids)[a] && forall|j: int|
                0 <= j <= i ==> #[trigger] ids[j] != endpoints_of(ids)[b],
    decreases ids.len(),
{
    let front = ids.drop_last();
    let rest = endpoints_of(front);
    let eps = endpoints_of(ids);
    law_endpoints_are_distinct(ids);
    law_endpoints_are_distinct(front);
    if b < rest.len() {
        law_endpoints_keep_the_order(front, a, b);
        let i = choose|i: int|
            0 <= i < front.len() && front[i] == rest[a] && forall|j: int|
                0 <= j <= i ==> #[trigger] front[j] != rest[b];
        assert(ids[i] == eps[a]);
        assert forall|j: int| 0 <= j <= i implies #[trigger] ids[j] != eps[b] by {
            assert(front[j] == ids[j]);
        }
    } else {
        law_endpoints_are_the_listed_ones(front, eps[a]);
        assert(rest[a] == eps[a]);
        assert(eps[0] == 0);
        let i = choose|i: int| 0 <= i < front.len() && front[i] == eps[a] as u64;
        assert(ids[i] == eps[a]);
        assert forall|j: int| 0 <= j <= i implies #[trigger] ids[j] != eps[b] by {
            if ids[j] == eps[b] {
                assert(front[j] == eps[b] as u64);
                law_endpoints_are_the_listed_ones(front, eps[b]);
            }
        }
    }
}

/// The ids in a list are its whole numbers, each as often as it stands there
/// and in the order in which they stand.
pub proof fn law_ids_are_the_numbers_of_the_list(items: Seq<JsonView>)
    ensures
        id_list(JsonView::Array(items)) == items.filter(
            |v: JsonView| v is UInt,
        ).map_values(|v: JsonView| v->UInt_0),
    decreases items.len(),
{
    reveal(Seq::filter);
    let whole = |v: JsonView| v is UInt;
    let number = |v: JsonView| v->UInt_0;
    if items.len() > 0 {
        law_ids_are_the_numbers_of_the_list(items.drop_last());
        let kept = items.drop_last().filter(whole);
        assert(kept.push(items.last()).map_values(number) =~= kept.map_values(number).push(
            number(items.last()),
        ));
        assert(numbers_in(items) =~= items.filter(whole).map_values(number));
    } else {
        assert(numbers_in(items) =~= items.filter(whole).map_values(number));
    }
}

/// A walk asks the root for its parts and every endpoint for its servers, all
/// of the descriptor.
pub proof fn law_walk_reads_the_descriptor(endpoint: u16)
    ensures
        parts_list() == (CallView::ReadJson { endpoint: 0, cluster: 0x001D, attribute: 3 }),
        server_list(endpoint) == (CallView::ReadJson { endpoint, cluster: 0x001D, attribute: 1 }),
{
}

/// The walk asks the next endpoint for its servers and records the answer under
/// the endpoint that was asked; a read that fails ends it.
pub proof fn law_clusters_are_those_of_the_endpoint_asked(
    endpoints: Seq<u16>,
    found: Seq<(u16, Seq<u64>)>,
    v: JsonView,
    s: DescribeView,
    e: ErrorView,
)
    requires
        found.len() < endpoints.len(),
    ensures
        describe_step(DescribeView::Parts, Ok(v)) == ProgressView::<
            DescribeView,
            Seq<(u16, Seq<u64>)>,
        >::Call(
            DescribeView::Servers { endpoints: endpoints_of(id_list(v)), found: Seq::empty() },
            CallView::ReadJson { endpoint: 0, cluster: 0x001D, attribute: 1 },
        ),
        found.len() + 1 < endpoints.len() ==> describe_step(
            DescribeView::Servers { endpoints, found },
            Ok(v),
        ) == ProgressView::<DescribeView, Seq<(u16, Seq<u64>)>>::Call(
            DescribeView::Servers {
                endpoints,
                found: found.push((endpoints[found.len() as int], id_list(v))),
            },
            CallView::ReadJson {
                endpoint: endpoints[(found.len() + 1) as int],
                cluster: 0x001D,
                attribute: 1,
            },
        ),
        found.len() + 1 == endpoints.len() ==> describe_step(
            DescribeView::Servers { endpoints, found },
            Ok(v),
        ) == ProgressView::<DescribeView, Seq<(u16, Seq<u64>)>>::Done(
            found.push((endpoints[found.len() as int], id_list(v))),
        ),
        describe_step(s, Err(e)) == ProgressView::<DescribeView, Seq<(u16, Seq<u64>)>>::Fail(e),
{
    lemma_root_is_first(id_list(v));
}

proof fn lemma_root_is_first(ids: Seq<u64>)
    ensures
        endpoints_of(ids).len() > 0,
        endpoints_of(ids)[0] == 0,
    decreases ids.len(),
{
    if ids.len() > 0 {
        lemma_root_is_first(ids.drop_last());
    }
}

} // verus!
