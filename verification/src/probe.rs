//! Looking for the nodes of the ledger on the network.
use vstd::prelude::*;
use vstd::string::*;
use crate::error::{error, ErrorKind, MatError};
use crate::text;

verus! {

/// How long one node of the ledger is looked for, in milliseconds.
pub const PROBE_RESOLVE_TIMEOUT_MS: u64 = 3_000;

/// What a search needs.
#[derive(Debug, PartialEq, Eq)]
pub struct NativeProbe {
    pub iface: String,
    pub fabric_index: u8,
    pub issuer_index: u8,
    pub store_root: String,
    /// The nodes to look for.
    pub node_ids: Vec<u64>,
}

/// A node that was found.
#[derive(Debug, PartialEq, Eq)]
pub struct MatterInstance {
    pub compressed_fabric: String,
    pub node_id: u64,
    pub addresses: Vec<String>,
}

/// What a found node says.
pub struct InstanceView {
    pub compressed_fabric: Seq<char>,
    pub node_id: u64,
    pub addresses: Seq<Seq<char>>,
}

impl View for MatterInstance {
    type V = InstanceView;

    open spec fn view(&self) -> InstanceView {
        InstanceView {
            compressed_fabric: self.compressed_fabric@,
            node_id: self.node_id,
            addresses: text::texts(self.addresses@),
        }
    }
}

/// What some found nodes say.
pub open spec fn instances(v: Seq<MatterInstance>) -> Seq<InstanceView> {
    Seq::new(v.len(), |i: int| v[i]@)
}

/// What the search for one node gave.
#[derive(Debug, PartialEq, Eq)]
pub enum Resolution {
    Found(Vec<String>),
    /// The network could not be used.
    Io,
    /// The node did not answer, or not well.
    Silent,
}

/// The name of a fabric: sixteen digits in upper case.
pub fn cfid_hex(cfid: &[u8; 8]) -> (s: String)
    ensures
        s@ == text::hex_upper(cfid@),
{
    text::hex_upper_text(cfid.as_slice())
}

/// Whether the network could be used for none of some nodes.
pub open spec fn all_io(results: Seq<(u64, Resolution)>) -> bool {
    results.len() > 0 && forall|i: int| 0 <= i < results.len() ==> (#[trigger] results[i]).1 is Io
}

/// The nodes that were found, in order.
pub open spec fn found(results: Seq<(u64, Resolution)>, fabric: Seq<char>) -> Seq<InstanceView>
    decreases results.len(),
{
    if results.len() == 0 {
        Seq::empty()
    } else {
        let front = found(results.drop_last(), fabric);
        match results.last().1 {
            Resolution::Found(addresses) => front.push(
                InstanceView {
                    compressed_fabric: fabric,
                    node_id: results.last().0,
                    addresses: text::texts(addresses@),
                },
            ),
            _ => front,
        }
    }
}

fn none_used(results: &Vec<(u64, Resolution)>) -> (r: bool)
    ensures
        r == all_io(results@),
{
    if results.len() == 0 {
        return false;
    }
    let mut i: usize = 0;
    while i < results.len()
        invariant
            i <= results.len(),
            forall|k: int| 0 <= k < i ==> (#[trigger] results@[k]).1 is Io,
        decreases results.len() - i,
    {
        match &results[i].1 {
            Resolution::Io => {},
            _ => {
                assert(!(results@[i as int].1 is Io));
                return false;
            },
        }
        i += 1;
    }
    true
}

/// The nodes that were found. It fails only where the network could be used
/// for none of them: a node that does not answer is merely not found.
pub fn resolve_ledger_nodes(results: Vec<(u64, Resolution)>, cfid: &[u8; 8]) -> (r: Result<
    Vec<MatterInstance>,
    String,
>)
    ensures
        r is Err <==> all_io(results@),
        r matches Err(s) ==> s@ == "all ledger node resolves failed with an I/O error"@,
        r matches Ok(v) ==> instances(v@) == found(results@, text::hex_upper(cfid@)),
{
    if none_used(&results) {
        return Err("all ledger node resolves failed with an I/O error".to_owned());
    }
    let fabric = cfid_hex(cfid);
    let mut v: Vec<MatterInstance> = Vec::new();
    assert(instances(v@) =~= Seq::empty());
    let mut i: usize = 0;
    while i < results.len()
        invariant
            i <= results.len(),
            fabric@ == text::hex_upper(cfid@),
            instances(v@) == found(results@.take(i as int), fabric@),
        decreases results.len() - i,
    {
        assert(results@.take(i + 1).drop_last() =~= results@.take(i as int));
        match &results[i].1 {
            Resolution::Found(addresses) => {
                let ghost before = instances(v@);
                let m = MatterInstance {
                    compressed_fabric: fabric.clone(),
                    node_id: results[i].0,
                    addresses: text::copy_texts(addresses),
                };
                let ghost mv = m@;
                v.push(m);
                assert(instances(v@) =~= before.push(mv));
            },
            _ => {},
        }
        i += 1;
    }
    assert(results@.take(i as int) =~= results@);
    Ok(v)
}

/// The failure of a search.
pub fn mdns_error(iface: &str, detail: &str) -> (e: MatError)
    ensures
        e@ == error(
            ErrorKind::Unreachable,
            "native mDNS probe failed on "@ + iface@ + ": "@ + detail@,
        ),
{
    MatError::new(
        ErrorKind::Unreachable,
        "native mDNS probe failed on ".to_owned().concat(iface).concat(": ").concat(detail),
    )
}

/// One node that answers is enough for the search not to fail.
pub proof fn law_one_answer_is_enough(results: Seq<(u64, Resolution)>, i: int)
    requires
        0 <= i < results.len(),
        !(results[i].1 is Io),
    ensures
        !all_io(results),
{
}

/// The test for a node that answered.
pub open spec fn answering() -> spec_fn((u64, Resolution)) -> bool {
    |r: (u64, Resolution)| r.1 is Found
}

/// A node that answered is listed with its number, its fabric and the addresses
/// that it gave; one that did not is not. The order is that of the search.
pub proof fn law_answering_nodes_are_listed(
    results: Seq<(u64, Resolution)>,
    fabric: Seq<char>,
    i: int,
)
    ensures
        found(results, fabric).len() == results.filter(answering()).len(),
        0 <= i < found(results, fabric).len() ==> found(results, fabric)[i].node_id
            == results.filter(answering())[i].0 && found(results, fabric)[i].compressed_fabric
            == fabric && found(results, fabric)[i].addresses == text::texts(
            results.filter(answering())[i].1->Found_0@,
        ),
    decreases results.len(),
{
    reveal(Seq::filter);
    if results.len() > 0 {
        law_answering_nodes_are_listed(results.drop_last(), fabric, i);
    }
}

/// The search failed if and only if there were nodes and every one failed.
pub proof fn law_search_fails_with_every_node(results: Seq<(u64, Resolution)>)
    ensures
        results.len() == 0 ==> !all_io(results),
        results.len() > 0 ==> (all_io(results) <==> forall|i: int|
            0 <= i < results.len() ==> (#[trigger] results[i]).1 is Io),
{
}

/// A node has three seconds to answer.
pub proof fn law_nodes_have_their_time()
    ensures
        PROBE_RESOLVE_TIMEOUT_MS == 3_000,
{
}

} // verus!
