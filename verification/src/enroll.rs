//! Taking a device into the ledger.
use vstd::prelude::*;
use vstd::string::*;
use crate::commission::{CommissionRequest, Transport};
use crate::error::{error, prefixed, ErrorKind, MatError};
use crate::group_node::{all_hex, hex_pairs, lemma_bad_pair, lemma_digits_of_text};
use crate::json::{Json, JsonView};
use crate::text;

verus! {

/// The bytes that a text of hex digits spells: an even, positive number of
/// them, and nothing beyond ASCII.
pub open spec fn hex_bytes(s: Seq<char>) -> Option<Seq<u8>> {
    let bytes = vstd::utf8::encode_utf8(s);
    if bytes.len() == 0 || bytes.len() % 2 != 0 {
        None
    } else {
        hex_pairs(bytes, (bytes.len() / 2) as int)
    }
}

/// A text is a dataset exactly where it is a positive, even number of hex
/// digits.
pub proof fn law_dataset_is_hex_digits(s: Seq<char>)
    ensures
        hex_bytes(s) is Some <==> s.len() > 0 && s.len() % 2 == 0 && all_hex(s),
{
    let bytes = vstd::utf8::encode_utf8(s);
    if bytes.len() % 2 == 0 {
        lemma_digits_of_text(s, (bytes.len() / 2) as int);
    }
    if s.len() % 2 == 0 {
        lemma_digits_of_text(s, (s.len() / 2) as int);
    }
}

/// Reads bytes from hex digits.
pub fn decode_hex(s: &str) -> (r: Option<Vec<u8>>)
    ensures
        r is Some <==> hex_bytes(s@) is Some,
        r matches Some(v) ==> hex_bytes(s@) == Some(v@),
{
    let bytes = s.as_bytes();
    if bytes.len() == 0 || bytes.len() % 2 != 0 {
        return None;
    }
    let n: usize = bytes.len() / 2;
    let mut v: Vec<u8> = Vec::new();
    let mut i: usize = 0;
    while i < n
        invariant
            i <= n,
            bytes@.len() == 2 * n,
            bytes@ == vstd::utf8::encode_utf8(s@),
            hex_bytes(s@) == hex_pairs(bytes@, n as int),
            hex_pairs(bytes@, i as int) == Some(v@),
        decreases n - i,
    {
        match text::parse_hex_pair(bytes[2 * i], bytes[2 * i + 1]) {
            Some(b) => {
                v.push(b);
            },
            None => {
                proof {
                    lemma_bad_pair(bytes@, i + 1, n as int);
                }
                return None;
            },
        }
        i += 1;
    }
    Some(v)
}

/// The network to join, where one is given.
pub fn thread_dataset(hex: &Option<String>) -> (r: Result<Option<Vec<u8>>, MatError>)
    ensures
        match hex {
            None => r == Ok::<Option<Vec<u8>>, MatError>(None),
            Some(h) => match hex_bytes(h@) {
                Some(b) => r matches Ok(Some(v)) && v@ == b,
                None => r matches Err(e) && e@ == error(
                    ErrorKind::Other,
                    "invalid --thread-dataset: expected hex bytes"@,
                ),
            },
        },
{
    match hex {
        None => Ok(None),
        Some(h) => match decode_hex(h.as_str()) {
            Some(v) => Ok(Some(v)),
            None => Err(
                MatError::fixed(
                    ErrorKind::Other,
                    "invalid --thread-dataset: expected hex bytes",
                ),
            ),
        },
    }
}

/// The greatest of some numbers; zero for none.
pub open spec fn greatest(ids: Seq<u64>) -> u64
    decreases ids.len(),
{
    if ids.len() == 0 {
        0
    } else if greatest(ids.drop_last()) >= ids.last() {
        greatest(ids.drop_last())
    } else {
        ids.last()
    }
}

/// The number for a new node: one for an empty ledger, else one above the
/// greatest.
pub fn next_node_id(ids: &Vec<u64>) -> (n: u64)
    requires
        greatest(ids@) < u64::MAX,
    ensures
        n == greatest(ids@) + 1,
{
    let mut max: u64 = 0;
    let mut i: usize = 0;
    while i < ids.len()
        invariant
            i <= ids.len(),
            max == greatest(ids@.take(i as int)),
        decreases ids.len() - i,
    {
        assert(ids@.take(i + 1).drop_last() =~= ids@.take(i as int));
        if ids[i] > max {
            max = ids[i];
        }
        i += 1;
    }
    assert(ids@.take(i as int) =~= ids@);
    max + 1
}

/// The number for a new node is not in the ledger.
pub proof fn law_new_number_is_free(ids: Seq<u64>, i: int)
    requires
        0 <= i < ids.len(),
    ensures
        ids[i] < greatest(ids) + 1,
    decreases ids.len(),
{
    if i < ids.len() - 1 {
        assert(ids.drop_last()[i] == ids[i]);
        law_new_number_is_free(ids.drop_last(), i);
    }
}

/// Where certificates are kept: where the environment says, whether it is there
/// or not, else in the store where that is there.
pub fn certificate_dir(env: Option<String>, in_store: String, in_store_is_there: bool) -> (r: Option<
    String,
>)
    ensures
        r == match env {
            Some(p) => Some(p),
            None => if in_store_is_there {
                Some(in_store)
            } else {
                None
            },
        },
{
    match env {
        Some(p) => Some(p),
        None => if in_store_is_there {
            Some(in_store)
        } else {
            None
        },
    }
}

/// The number of a new node: the one that is asked for, else the one behind the
/// greatest of the ledger.
pub open spec fn chosen_id(wanted: Option<u64>, ids: Seq<u64>) -> u64 {
    match wanted {
        Some(id) => id,
        None => (greatest(ids) + 1) as u64,
    }
}

/// What is asked of the device's side to take a device in. It is not asked
/// without a backend, nor with a network that is not written in hex digits.
pub fn native_commission(
    configured: bool,
    setup_code: &str,
    wanted: Option<u64>,
    ids: &Vec<u64>,
    dataset: &Option<String>,
    dirs: (Option<String>, Option<String>),
    transport: Transport,
) -> (r: Result<CommissionRequest, MatError>)
    requires
        wanted is None ==> greatest(ids@) < u64::MAX,
    ensures
        !configured ==> (r matches Err(e) && e@ == error(
            ErrorKind::Other,
            "commission: native backend not configured (internal)"@,
        )),
        configured && (dataset matches Some(h) && hex_bytes(h@) is None) ==> (r matches Err(e)
            && e@ == error(ErrorKind::Other, "invalid --thread-dataset: expected hex bytes"@)),
        configured && (dataset matches Some(h) ==> hex_bytes(h@) is Some) ==> (r matches Ok(q)
            && q.setup_code@ == setup_code@ && q.device_node_id == chosen_id(wanted, ids@) && (
        wanted matches Some(id) ==> q.device_node_id == id) && (wanted is None ==> forall|i: int|
            0 <= i < ids.len() ==> (#[trigger] ids@[i]) < q.device_node_id)
            && q.paa_dir == dirs.0 && q.cd_signer_dir == dirs.1 && q.transport == transport
            && match (dataset, q.thread_dataset) {
            (None, t) => t is None,
            (Some(h), Some(t)) => hex_bytes(h@) == Some(t@),
            (Some(_), None) => false,
        }),
{
    let node_id: u64 = match wanted {
        Some(id) => id,
        None => next_node_id(ids),
    };
    proof {
        assert forall|i: int| wanted is None && 0 <= i < ids.len() implies (#[trigger] ids@[i])
            < node_id by {
            lemma_at_most_greatest(ids@, i);
        }
    }
    if !configured {
        return Err(
            MatError::fixed(
                ErrorKind::Other,
                "commission: native backend not configured (internal)",
            ),
        );
    }
    match thread_dataset(dataset) {
        Err(e) => Err(e),
        Ok(network) => Ok(
            CommissionRequest {
                setup_code: setup_code.to_owned(),
                device_node_id: node_id,
                thread_dataset: network,
                paa_dir: dirs.0,
                cd_signer_dir: dirs.1,
                transport,
            },
        ),
    }
}

/// The failure to write the alias of a node that was taken in: the node is in.
pub fn alias_write_error(node_id: u64, name: &str, e: MatError) -> (f: MatError)
    ensures
        f@ == prefixed(
            e@,
            "node "@ + text::dec(node_id as nat) + " was commissioned, but writing alias '"@ + name@
                + "' failed: "@,
        ),
{
    let prefix = "node ".to_owned().concat(&text::decimal(node_id)).concat(
        " was commissioned, but writing alias '",
    ).concat(name).concat("' failed: ");
    e.prefix(&prefix)
}

/// The report of a node that was taken in.
pub fn record_success(node_id: u64) -> (j: Json)
    ensures
        j@ == JsonView::Object(
            Seq::<(Seq<char>, JsonView)>::empty().push(("node_id"@, JsonView::UInt(node_id))).push(
                ("status"@, JsonView::Str("success"@)),
            ),
        ),
        j@.get("node_id"@) == Some(JsonView::UInt(node_id)),
        j@.get("status"@) == Some(JsonView::Str("success"@)),
{
    let j = Json::object().with("node_id", Json::UInt(node_id)).with(
        "status",
        Json::text("success"),
    );
    proof {
        reveal_strlit("node_id");
        reveal_strlit("status");
        let f = j@->Object_0;
        assert(f[0].0 == "node_id"@);
        assert(f[1].0 == "status"@);
        crate::json::law_first_field_is_found(f, "node_id"@, 0);
        crate::json::law_first_field_is_found(f, "status"@, 1);
    }
    j
}

proof fn lemma_greatest_is_there(ids: Seq<u64>)
    requires
        ids.len() > 0,
    ensures
        ids.contains(greatest(ids)),
    decreases ids.len(),
{
    let front = ids.drop_last();
    assert(ids[ids.len() - 1] == ids.last());
    if front.len() > 0 {
        lemma_greatest_is_there(front);
        let i = choose|i: int| 0 <= i < front.len() && front[i] == greatest(front);
        assert(ids[i] == greatest(front));
    }
}

/// A device becomes the node that was asked for. Where no number was asked for
/// it is one above every number of the ledger, and one above the greatest of
/// them; on an empty ledger it is node 1.
pub proof fn law_device_becomes_the_wanted_node(wanted: Option<u64>, ids: Seq<u64>)
    requires
        wanted is None ==> forall|i: int| 0 <= i < ids.len() ==> #[trigger] ids[i] < u64::MAX,
    ensures
        wanted matches Some(id) ==> chosen_id(wanted, ids) == id,
        wanted is None ==> forall|i: int|
            0 <= i < ids.len() ==> #[trigger] ids[i] < chosen_id(wanted, ids),
        wanted is None && ids.len() > 0 ==> chosen_id(wanted, ids) > 0 && ids.contains(
            (chosen_id(wanted, ids) - 1) as u64,
        ),
        wanted is None && ids.len() == 0 ==> chosen_id(wanted, ids) == 1,
{
    if wanted is None {
        if ids.len() > 0 {
            lemma_greatest_is_there(ids);
        }
        assert forall|i: int| 0 <= i < ids.len() implies #[trigger] ids[i] < chosen_id(
            wanted,
            ids,
        ) by {
            law_new_number_is_free(ids, i);
        }
    }
}

/// A dataset has one byte for each two digits, and a byte is sixteen times its
/// first digit and its second.
pub proof fn law_dataset_spells_its_bytes(s: Seq<char>, i: int)
    requires
        hex_bytes(s) is Some,
        0 <= 2 * i < s.len(),
    ensures
        2 * hex_bytes(s)->0.len() == s.len(),
        hex_bytes(s)->0[i] == 16 * text::hex_val(s[2 * i])->0 + text::hex_val(s[2 * i + 1])->0,
{
    let bytes = vstd::utf8::encode_utf8(s);
    law_dataset_is_hex_digits(s);
    assert forall|k: int| 0 <= k < s.len() implies '\0' <= (#[trigger] s[k]) <= '\u{7f}' by {
        assert(text::hex_val(s[k]) is Some);
    }
    vstd::utf8::is_ascii_chars_encode_utf8(s);
    let n: int = (bytes.len() / 2) as int;
    crate::group_node::lemma_pairs_spell(bytes, n, i);
    assert(s[2 * i] as u8 == bytes[2 * i]);
    assert(s[2 * i + 1] as u8 == bytes[2 * i + 1]);
    assert(text::hex_val(s[2 * i]) is Some);
    assert(text::hex_val(s[2 * i + 1]) is Some);
}

proof fn lemma_at_most_greatest(ids: Seq<u64>, i: int)
    requires
        0 <= i < ids.len(),
    ensures
        ids[i] <= greatest(ids),
    decreases ids.len(),
{
    if i < ids.len() - 1 {
        lemma_at_most_greatest(ids.drop_last(), i);
    }
}

} // verus!
