//! Giving a group to a node and taking it away: key set, key map, membership
//! and access-control list.
//!
//! The key map and the access-control list are replaced as a whole when they
//! are written. So each is read first, and nothing is written where the read
//! failed: a list without the administrator's entry would lock the node.
use vstd::prelude::*;
use vstd::string::*;
use crate::conn::{
    endpoint_of,
    fits,
    AclEdit,
    Call,
    CallView,
    Payload,
    PayloadView,
    Progress,
    ProgressView,
    Reply,
    writes_acl,
    ATTR_ACL,
    ATTR_GROUP_KEY_MAP,
    CLUSTER_ACCESS_CONTROL,
    CLUSTER_GROUPS,
    CLUSTER_GROUP_KEY_MANAGEMENT,
    CMD_ADD_GROUP,
    CMD_KEY_SET_REMOVE,
    CMD_KEY_SET_WRITE,
    CMD_REMOVE_GROUP,
};
use crate::error::{error, prefixed, ErrorKind, ErrorView, MatError};
use crate::json::{json_text, json_views, render, u64_field, Json, JsonView};
use crate::text;
use crate::tlv::{
    decode_response_status,
    elems,
    encode_acl_entries_tlv,
    encode_key_set_remove_fields,
    encode_remove_group_fields,
    encoded,
    entry_values,
    one_number,
    status_of,
    AclEntry,
    ArgView,
    Elem,
    ElemView,
    ReadEnd,
    Tag,
};

verus! {

/// A number that fits sixteen bits.
pub open spec fn short_field(v: JsonView, key: Seq<char>) -> Option<u16> {
    match u64_field(v, key) {
        Some(n) => if n <= 65_535 {
            Some(n as u16)
        } else {
            None
        },
        None => None,
    }
}

fn get_short(v: &Json, key: &str) -> (r: Option<u16>)
    ensures
        r == short_field(v@, key@),
{
    match v.u64_field(key) {
        Some(n) => if n <= 65_535 {
            Some(n as u16)
        } else {
            None
        },
        None => None,
    }
}

/// The refusal of a key-map entry.
pub open spec fn bad_row(what: Seq<char>, item: JsonView) -> ErrorView {
    error(ErrorKind::ParseError, what + json_text(item))
}

/// A row of the key map: the group under "1" and its key set under "2".
pub open spec fn key_map_row(item: JsonView) -> Result<(u16, u16), ErrorView> {
    if !(item is Object) {
        Err(bad_row("group-key-map entry is not an object: "@, item))
    } else {
        match (short_field(item, "1"@), short_field(item, "2"@)) {
            (None, _) => Err(bad_row("group-key-map entry missing/invalid groupId: "@, item)),
            (_, None) => Err(bad_row("group-key-map entry missing/invalid groupKeySetID: "@, item)),
            (Some(g), Some(k)) => Ok((g, k)),
        }
    }
}

/// The rows of the key map in order, or the first refusal.
pub open spec fn key_map_rows(items: Seq<JsonView>) -> Result<Seq<(u16, u16)>, ErrorView>
    decreases items.len(),
{
    if items.len() == 0 {
        Ok(Seq::empty())
    } else {
        match key_map_rows(items.drop_last()) {
            Err(e) => Err(e),
            Ok(rows) => match key_map_row(items.last()) {
                Err(e) => Err(e),
                Ok(row) => Ok(rows.push(row)),
            },
        }
    }
}

/// The key map that a value holds.
pub open spec fn key_map(v: JsonView) -> Result<Seq<(u16, u16)>, ErrorView> {
    match v {
        JsonView::Array(items) => key_map_rows(items),
        _ => Err(bad_row("group-key-map is not an array: "@, v)),
    }
}

/// What the outcome of reading a key map says.
pub open spec fn rows_outcome(r: Result<Vec<(u16, u16)>, MatError>) -> Result<
    Seq<(u16, u16)>,
    ErrorView,
> {
    match r {
        Ok(v) => Ok(v@),
        Err(e) => Err(e@),
    }
}

fn parse_key_map_row(item: &Json) -> (r: Result<(u16, u16), MatError>)
    ensures
        r matches Ok(row) ==> key_map_row(item@) == Ok::<(u16, u16), ErrorView>(row),
        r matches Err(e) ==> key_map_row(item@) == Err::<(u16, u16), ErrorView>(e@),
{
    match item {
        Json::Object(_) => {},
        _ => {
            return Err(
                MatError::parse_error(
                    "group-key-map entry is not an object: ".to_owned().concat(&render(item)),
                ),
            );
        },
    }
    let group: u16 = match get_short(item, "1") {
        Some(g) => g,
        None => {
            return Err(
                MatError::parse_error(
                    "group-key-map entry missing/invalid groupId: ".to_owned().concat(
                        &render(item),
                    ),
                ),
            );
        },
    };
    match get_short(item, "2") {
        Some(k) => Ok((group, k)),
        None => Err(
            MatError::parse_error(
                "group-key-map entry missing/invalid groupKeySetID: ".to_owned().concat(
                    &render(item),
                ),
            ),
        ),
    }
}

proof fn lemma_first_refusal(items: Seq<JsonView>, i: int)
    requires
        0 <= i <= items.len(),
        key_map_rows(items.take(i)) is Err,
    ensures
        key_map_rows(items) == key_map_rows(items.take(i)),
    decreases items.len() - i,
{
    if i < items.len() {
        assert(items.take(i + 1).drop_last() =~= items.take(i));
        lemma_first_refusal(items, i + 1);
    } else {
        assert(items.take(i) =~= items);
    }
}

/// Reads the key map from a value.
pub fn parse_group_key_map(v: &Json) -> (r: Result<Vec<(u16, u16)>, MatError>)
    ensures
        rows_outcome(r) == key_map(v@),
{
    let items = match v.as_array() {
        Some(items) => items,
        None => {
            return Err(
                MatError::parse_error(
                    "group-key-map is not an array: ".to_owned().concat(&render(v)),
                ),
            );
        },
    };
    let ghost all = json_views(items@);
    let mut rows: Vec<(u16, u16)> = Vec::new();
    let mut i: usize = 0;
    while i < items.len()
        invariant
            i <= items.len(),
            all == json_views(items@),
            key_map(v@) == key_map_rows(all),
            key_map_rows(all.take(i as int)) == Ok::<Seq<(u16, u16)>, ErrorView>(rows@),
        decreases items.len() - i,
    {
        assert(all.take(i + 1).drop_last() =~= all.take(i as int));
        assert(all.take(i + 1).last() == items@[i as int]@);
        match parse_key_map_row(&items[i]) {
            Ok(row) => {
                rows.push(row);
            },
            Err(e) => {
                proof {
                    lemma_first_refusal(all, i + 1);
                }
                return Err(e);
            },
        }
        i += 1;
    }
    assert(all.take(i as int) =~= all);
    Ok(rows)
}

/// The key map with a group bound to a key set: the group's first row changed,
/// or a row added at the end.
pub open spec fn rebound(map: Seq<(u16, u16)>, group: u16, keyset: u16) -> Seq<(u16, u16)>
    decreases map.len(),
{
    if map.len() == 0 {
        seq![(group, keyset)]
    } else if map[0].0 == group {
        map.update(0, (group, keyset))
    } else {
        seq![map[0]] + rebound(map.skip(1), group, keyset)
    }
}

/// The rows of the other groups, in order.
pub open spec fn others(map: Seq<(u16, u16)>, group: u16) -> Seq<(u16, u16)>
    decreases map.len(),
{
    if map.len() == 0 {
        Seq::empty()
    } else if map.last().0 == group {
        others(map.drop_last(), group)
    } else {
        others(map.drop_last(), group).push(map.last())
    }
}

/// The key sets that a group is bound to, in order.
pub open spec fn keysets_of(map: Seq<(u16, u16)>, group: u16) -> Seq<u16>
    decreases map.len(),
{
    if map.len() == 0 {
        Seq::empty()
    } else if map.last().0 == group {
        keysets_of(map.drop_last(), group).push(map.last().1)
    } else {
        keysets_of(map.drop_last(), group)
    }
}

/// Whether some row of a map names a key set.
pub open spec fn uses(map: Seq<(u16, u16)>, keyset: u16) -> bool {
    exists|i: int| 0 <= i < map.len() && (#[trigger] map[i]).1 == keyset
}

/// Those of some key sets that no row of a map names, in order.
pub open spec fn unused(keysets: Seq<u16>, map: Seq<(u16, u16)>) -> Seq<u16>
    decreases keysets.len(),
{
    if keysets.len() == 0 {
        Seq::empty()
    } else if uses(map, keysets.last()) {
        unused(keysets.drop_last(), map)
    } else {
        unused(keysets.drop_last(), map).push(keysets.last())
    }
}

proof fn lemma_rebound_at(map: Seq<(u16, u16)>, group: u16, keyset: u16, i: int)
    requires
        0 <= i <= map.len(),
        forall|k: int| 0 <= k < i ==> (#[trigger] map[k]).0 != group,
    ensures
        i == map.len() ==> rebound(map, group, keyset) == map.push((group, keyset)),
        i < map.len() && map[i].0 == group ==> rebound(map, group, keyset) == map.update(
            i,
            (group, keyset),
        ),
    decreases i,
{
    if i == 0 {
        if map.len() == 0 {
            assert(seq![(group, keyset)] =~= map.push((group, keyset)));
        }
    } else {
        let rest = map.skip(1);
        assert(map[0].0 != group);
        assert forall|k: int| 0 <= k < i - 1 implies (#[trigger] rest[k]).0 != group by {
            assert(rest[k] == map[k + 1]);
        }
        lemma_rebound_at(rest, group, keyset, i - 1);
        if i == map.len() {
            assert(seq![map[0]] + rest.push((group, keyset)) =~= map.push((group, keyset)));
        } else if map[i].0 == group {
            assert(rest[i - 1] == map[i]);
            assert(seq![map[0]] + rest.update(i - 1, (group, keyset)) =~= map.update(
                i,
                (group, keyset),
            ));
        }
    }
}

/// Binds a group to a key set in a key map.
pub fn bind_keyset(map: Vec<(u16, u16)>, group: u16, keyset: u16) -> (r: Vec<(u16, u16)>)
    ensures
        r@ == rebound(map@, group, keyset),
{
    let mut m = map;
    let mut i: usize = 0;
    while i < m.len()
        invariant
            i <= m.len(),
            m@ == map@,
            forall|k: int| 0 <= k < i ==> (#[trigger] m@[k]).0 != group,
        decreases m.len() - i,
    {
        if m[i].0 == group {
            proof {
                lemma_rebound_at(m@, group, keyset, i as int);
            }
            m.set(i, (group, keyset));
            return m;
        }
        i += 1;
    }
    proof {
        lemma_rebound_at(m@, group, keyset, i as int);
    }
    m.push((group, keyset));
    m
}

fn other_rows(map: &Vec<(u16, u16)>, group: u16) -> (r: Vec<(u16, u16)>)
    ensures
        r@ == others(map@, group),
{
    let mut r: Vec<(u16, u16)> = Vec::new();
    let mut i: usize = 0;
    while i < map.len()
        invariant
            i <= map.len(),
            r@ == others(map@.take(i as int), group),
        decreases map.len() - i,
    {
        assert(map@.take(i + 1).drop_last() =~= map@.take(i as int));
        if map[i].0 != group {
            r.push(map[i]);
        }
        i += 1;
    }
    assert(map@.take(i as int) =~= map@);
    r
}

fn bound_keysets(map: &Vec<(u16, u16)>, group: u16) -> (r: Vec<u16>)
    ensures
        r@ == keysets_of(map@, group),
{
    let mut r: Vec<u16> = Vec::new();
    let mut i: usize = 0;
    while i < map.len()
        invariant
            i <= map.len(),
            r@ == keysets_of(map@.take(i as int), group),
        decreases map.len() - i,
    {
        assert(map@.take(i + 1).drop_last() =~= map@.take(i as int));
        if map[i].0 == group {
            r.push(map[i].1);
        }
        i += 1;
    }
    assert(map@.take(i as int) =~= map@);
    r
}

fn names_keyset(map: &Vec<(u16, u16)>, keyset: u16) -> (r: bool)
    ensures
        r == uses(map@, keyset),
{
    let mut i: usize = 0;
    while i < map.len()
        invariant
            i <= map.len(),
            forall|k: int| 0 <= k < i ==> (#[trigger] map@[k]).1 != keyset,
        decreases map.len() - i,
    {
        if map[i].1 == keyset {
            assert(map@[i as int].1 == keyset);
            return true;
        }
        i += 1;
    }
    false
}

fn unused_keysets(keysets: &Vec<u16>, map: &Vec<(u16, u16)>) -> (r: Vec<u16>)
    ensures
        r@ == unused(keysets@, map@),
{
    let mut r: Vec<u16> = Vec::new();
    let mut i: usize = 0;
    while i < keysets.len()
        invariant
            i <= keysets.len(),
            r@ == unused(keysets@.take(i as int), map@),
        decreases keysets.len() - i,
    {
        assert(keysets@.take(i + 1).drop_last() =~= keysets@.take(i as int));
        if !names_keyset(map, keysets[i]) {
            r.push(keysets[i]);
        }
        i += 1;
    }
    assert(keysets@.take(i as int) =~= keysets@);
    r
}

proof fn lemma_others_front(map: Seq<(u16, u16)>, group: u16)
    requires
        map.len() > 0,
    ensures
        others(map, group) == if map[0].0 == group {
            others(map.skip(1), group)
        } else {
            seq![map[0]] + others(map.skip(1), group)
        },
    decreases map.len(),
{
    if map.len() == 1 {
        assert(map.drop_last() =~= Seq::empty());
        assert(map.skip(1) =~= Seq::empty());
        assert(others(map, group) =~= if map[0].0 == group {
            others(map.skip(1), group)
        } else {
            seq![map[0]] + others(map.skip(1), group)
        });
    } else {
        lemma_others_front(map.drop_last(), group);
        assert(map.drop_last().skip(1) =~= map.skip(1).drop_last());
        assert(map.skip(1).last() == map.last());
        assert(others(map, group) =~= if map[0].0 == group {
            others(map.skip(1), group)
        } else {
            seq![map[0]] + others(map.skip(1), group)
        });
    }
}

/// Binding a group leaves the rows of every other group as they were.
pub proof fn law_binding_keeps_other_groups(map: Seq<(u16, u16)>, group: u16, keyset: u16)
    ensures
        others(rebound(map, group, keyset), group) == others(map, group),
    decreases map.len(),
{
    let after = rebound(map, group, keyset);
    if map.len() == 0 {
        lemma_others_front(after, group);
        assert(after.skip(1) =~= map);
    } else {
        lemma_others_front(map, group);
        lemma_others_front(after, group);
        if map[0].0 == group {
            assert(after.skip(1) =~= map.skip(1));
        } else {
            assert(after.skip(1) =~= rebound(map.skip(1), group, keyset));
            law_binding_keeps_other_groups(map.skip(1), group, keyset);
        }
    }
}

/// Binding a group to the same key set once more changes nothing.
pub proof fn law_binding_is_idempotent(map: Seq<(u16, u16)>, group: u16, keyset: u16)
    ensures
        rebound(rebound(map, group, keyset), group, keyset) == rebound(map, group, keyset),
    decreases map.len(),
{
    let after = rebound(map, group, keyset);
    if map.len() == 0 || map[0].0 == group {
        assert(after.update(0, (group, keyset)) =~= after);
    } else {
        assert(after.skip(1) =~= rebound(map.skip(1), group, keyset));
        law_binding_is_idempotent(map.skip(1), group, keyset);
    }
}

/// After binding, a group's first row names the key set.
pub proof fn law_binding_takes_effect(map: Seq<(u16, u16)>, group: u16, keyset: u16)
    ensures
        keysets_of(rebound(map, group, keyset), group).len() >= 1,
        keysets_of(rebound(map, group, keyset), group)[0] == keyset,
    decreases map.len(),
{
    let after = rebound(map, group, keyset);
    if map.len() == 0 || map[0].0 == group {
        lemma_first_keyset(after, group);
    } else {
        law_binding_takes_effect(map.skip(1), group, keyset);
        lemma_keysets_front(after, group);
        assert(after.skip(1) =~= rebound(map.skip(1), group, keyset));
    }
}

proof fn lemma_keysets_front(map: Seq<(u16, u16)>, group: u16)
    requires
        map.len() > 0,
    ensures
        keysets_of(map, group) == if map[0].0 == group {
            seq![map[0].1] + keysets_of(map.skip(1), group)
        } else {
            keysets_of(map.skip(1), group)
        },
    decreases map.len(),
{
    if map.len() == 1 {
        assert(map.drop_last() =~= Seq::empty());
        assert(map.skip(1) =~= Seq::empty());
        assert(keysets_of(map, group) =~= if map[0].0 == group {
            seq![map[0].1] + keysets_of(map.skip(1), group)
        } else {
            keysets_of(map.skip(1), group)
        });
    } else {
        lemma_keysets_front(map.drop_last(), group);
        assert(map.drop_last().skip(1) =~= map.skip(1).drop_last());
        assert(map.skip(1).last() == map.last());
        assert(keysets_of(map, group) =~= if map[0].0 == group {
            seq![map[0].1] + keysets_of(map.skip(1), group)
        } else {
            keysets_of(map.skip(1), group)
        });
    }
}

proof fn lemma_first_keyset(map: Seq<(u16, u16)>, group: u16)
    requires
        map.len() > 0,
        map[0].0 == group,
    ensures
        keysets_of(map, group).len() >= 1,
        keysets_of(map, group)[0] == map[0].1,
{
    lemma_keysets_front(map, group);
}

/// A key set that a row of another group names is never removed, and one that
/// is removed was bound to the group.
pub proof fn law_keyset_in_use_is_kept(map: Seq<(u16, u16)>, group: u16, keyset: u16)
    requires
        unused(keysets_of(map, group), others(map, group)).contains(keyset),
    ensures
        !uses(others(map, group), keyset),
        keysets_of(map, group).contains(keyset),
{
    lemma_unused(keysets_of(map, group), others(map, group), keyset);
}

proof fn lemma_unused(keysets: Seq<u16>, map: Seq<(u16, u16)>, keyset: u16)
    requires
        unused(keysets, map).contains(keyset),
    ensures
        !uses(map, keyset),
        keysets.contains(keyset),
    decreases keysets.len(),
{
    let front = keysets.drop_last();
    let i = choose|i: int| 0 <= i < unused(keysets, map).len() && unused(keysets, map)[i] == keyset;
    if uses(map, keysets.last()) || i < unused(front, map).len() {
        assert(unused(front, map)[i] == keyset);
        lemma_unused(front, map, keyset);
        let j = choose|j: int| 0 <= j < front.len() && front[j] == keyset;
        assert(keysets[j] == keyset);
    } else {
        assert(keysets[keysets.len() - 1] == keyset);
    }
}

/// Taking a group out of the key map leaves none of its rows.
pub proof fn law_no_row_is_left(map: Seq<(u16, u16)>, group: u16)
    ensures
        keysets_of(others(map, group), group) == Seq::<u16>::empty(),
        others(others(map, group), group) == others(map, group),
    decreases map.len(),
{
    if map.len() > 0 {
        law_no_row_is_left(map.drop_last(), group);
        if map.last().0 != group {
            assert(others(map, group).drop_last() =~= others(map.drop_last(), group));
        }
    }
}

/// The encoding of a list of access-control entries.
pub open spec fn acl_payload(entries: Seq<AclEntry>) -> PayloadView {
    PayloadView::Elems(encoded(Tag::Anonymous, ArgView::List(entry_values(entries))))
}

/// The write of the access-control list.
pub open spec fn acl_write(entries: Seq<AclEntry>) -> CallView {
    CallView::WriteTlv {
        endpoint: 0,
        cluster: CLUSTER_ACCESS_CONTROL,
        attribute: ATTR_ACL,
        data: acl_payload(entries),
        timed: false,
    }
}

fn write_acl(entries: &Vec<AclEntry>) -> (c: Call)
    ensures
        c@ == acl_write(entries@),
{
    Call::WriteTlv {
        endpoint: 0,
        cluster: CLUSTER_ACCESS_CONTROL,
        attribute: ATTR_ACL,
        data: Payload::Elems(encode_acl_entries_tlv(entries)),
        timed: false,
    }
}

/// The write of the key map.
pub open spec fn map_write(map: Seq<(u16, u16)>) -> CallView {
    CallView::WriteTlv {
        endpoint: 0,
        cluster: CLUSTER_GROUP_KEY_MANAGEMENT,
        attribute: ATTR_GROUP_KEY_MAP,
        data: PayloadView::GroupKeyMap(map),
        timed: false,
    }
}

/// The read of the key map.
pub open spec fn map_read() -> CallView {
    CallView::ReadJson {
        endpoint: 0,
        cluster: CLUSTER_GROUP_KEY_MANAGEMENT,
        attribute: ATTR_GROUP_KEY_MAP,
    }
}

fn read_map() -> (c: Call)
    ensures
        c@ == map_read(),
{
    Call::ReadJson {
        endpoint: 0,
        cluster: CLUSTER_GROUP_KEY_MANAGEMENT,
        attribute: ATTR_GROUP_KEY_MAP,
    }
}

/// A failure of a step of giving a group.
pub open spec fn provision_step_err(e: ErrorView, step: Seq<char>) -> ErrorView {
    prefixed(e, "provision step '"@ + step + "' failed: "@)
}

/// A failure of a step of taking a group away.
pub open spec fn remove_step_err(e: ErrorView, step: Seq<char>) -> ErrorView {
    prefixed(e, "remove step '"@ + step + "' failed: "@)
}

fn fail_provision<S, T>(e: MatError, step: &str) -> (p: Progress<S, T>)
    ensures
        p matches Progress::Fail(f) && f@ == provision_step_err(e@, step@),
{
    let prefix = "provision step '".to_owned().concat(step).concat("' failed: ");
    Progress::Fail(e.prefix(&prefix))
}

fn fail_remove<S, T>(e: MatError, step: &str) -> (p: Progress<S, T>)
    ensures
        p matches Progress::Fail(f) && f@ == remove_step_err(e@, step@),
{
    let prefix = "remove step '".to_owned().concat(step).concat("' failed: ");
    Progress::Fail(e.prefix(&prefix))
}

/// Where the grant of the access-control entry stands.
#[derive(Debug, Clone, Copy, PartialEq, Eq, Structural)]
pub enum GrantPhase {
    Read,
    Write,
}

impl View for GrantPhase {
    type V = GrantPhase;

    open spec fn view(&self) -> GrantPhase {
        *self
    }
}

/// Whether a reply answers the call that a grant waits for.
pub open spec fn grant_expects(phase: GrantPhase, reply: Reply) -> bool {
    match phase {
        GrantPhase::Read => reply is Acl,
        GrantPhase::Write => reply is Unit,
    }
}

/// What follows in a grant: the list that was read is written back with the
/// entry added, or nothing is written where it was there. The result says
/// whether something was written.
pub open spec fn grant_step(phase: GrantPhase, reply: Reply) -> ProgressView<GrantPhase, bool> {
    match phase {
        GrantPhase::Read => match reply->Acl_0 {
            Err(e) => ProgressView::Fail(provision_step_err(e@, "acl read"@)),
            Ok(None) => ProgressView::Done(false),
            Ok(Some(entries)) => ProgressView::Call(GrantPhase::Write, acl_write(entries@)),
        },
        GrantPhase::Write => match reply->Unit_0 {
            Err(e) => ProgressView::Fail(provision_step_err(e@, "acl write"@)),
            Ok(_) => ProgressView::Done(true),
        },
    }
}

/// Begins the grant for a group with a read of the access-control list.
pub fn ensure_group_acl(group_id: u16) -> (r: (GrantPhase, Call))
    ensures
        r.0 == GrantPhase::Read,
        r.1@ == CallView::ReadAcl(AclEdit::Grant(group_id)),
{
    (GrantPhase::Read, Call::ReadAcl(AclEdit::Grant(group_id)))
}

/// Goes on with a grant when a reply came in.
pub fn ensure_group_acl_next(phase: GrantPhase, reply: Reply) -> (r: Progress<GrantPhase, bool>)
    requires
        grant_expects(phase, reply),
    ensures
        r@ == grant_step(phase, reply),
{
    match phase {
        GrantPhase::Read => match reply.acl() {
            Err(e) => fail_provision(e, "acl read"),
            Ok(None) => Progress::Done(false),
            Ok(Some(entries)) => Progress::Call(GrantPhase::Write, write_acl(&entries)),
        },
        GrantPhase::Write => match reply.unit() {
            Err(e) => fail_provision(e, "acl write"),
            Ok(_) => Progress::Done(true),
        },
    }
}

/// Whether a reply is a list that was read with an edit made to it: the edited
/// list, or none where the edit changes nothing.
pub open spec fn edited(reply: Reply, list: Option<Seq<AclEntry>>) -> bool {
    reply matches Reply::Acl(Ok(r)) && match (r, list) {
        (Some(v), Some(l)) => v@ == l,
        (None, None) => true,
        _ => false,
    }
}

/// A grant writes once, and says so, where the edit changes the list, and not
/// at all where it does not; granted again on the list that it left behind,
/// nothing is written. The edit is any that finds nothing to change in a list
/// that it made.
pub proof fn law_second_grant_writes_nothing(
    acl: Seq<AclEntry>,
    edit: spec_fn(Seq<AclEntry>) -> Option<Seq<AclEntry>>,
    first: Reply,
    second: Reply,
)
    requires
        forall|a: Seq<AclEntry>| (#[trigger] edit(a)) matches Some(b) ==> edit(b) is None,
        edited(first, edit(acl)),
        edited(
            second,
            edit(
                match edit(acl) {
                    Some(b) => b,
                    None => acl,
                },
            ),
        ),
    ensures
        edit(acl) matches Some(b) ==> grant_step(GrantPhase::Read, first) == ProgressView::<
            GrantPhase,
            bool,
        >::Call(GrantPhase::Write, acl_write(b)) && grant_step(
            GrantPhase::Write,
            Reply::Unit(Ok(())),
        ) == ProgressView::<GrantPhase, bool>::Done(true),
        edit(acl) is None ==> grant_step(GrantPhase::Read, first) == ProgressView::<
            GrantPhase,
            bool,
        >::Done(false),
        grant_step(GrantPhase::Read, second) == ProgressView::<GrantPhase, bool>::Done(false),
{
}

/// What a node needs to become a member of a group.
#[derive(Debug, PartialEq, Eq)]
pub struct ProvisionNodeParams {
    pub group_id: u16,
    pub keyset_id: u16,
    pub name: String,
    /// The endpoint that joins the group; all else happens on the root.
    pub endpoint: u16,
    pub epoch_key: [u8; 16],
}

impl Clone for ProvisionNodeParams {
    fn clone(&self) -> (r: ProvisionNodeParams)
        ensures
            r == *self,
    {
        ProvisionNodeParams {
            group_id: self.group_id,
            keyset_id: self.keyset_id,
            name: self.name.clone(),
            endpoint: self.endpoint,
            epoch_key: self.epoch_key,
        }
    }
}

/// Where giving a group to a node stands.
#[derive(Debug, Clone, Copy, PartialEq, Eq, Structural)]
pub enum ProvisionPhase {
    KeySet,
    MapRead,
    MapWrite,
    AddGroup,
    Acl(GrantPhase),
}

impl View for ProvisionPhase {
    type V = ProvisionPhase;

    open spec fn view(&self) -> ProvisionPhase {
        *self
    }
}

/// Whether a reply answers the call that giving a group waits for.
pub open spec fn provision_expects(phase: ProvisionPhase, reply: Reply) -> bool {
    match phase {
        ProvisionPhase::MapRead => reply is Value,
        ProvisionPhase::Acl(g) => grant_expects(g, reply),
        _ => reply is Unit,
    }
}

/// The write of the group's key set.
pub open spec fn keyset_write(p: ProvisionNodeParams) -> CallView {
    CallView::Invoke {
        endpoint: 0,
        cluster: CLUSTER_GROUP_KEY_MANAGEMENT,
        command: CMD_KEY_SET_WRITE,
        fields: PayloadView::KeySetWrite { keyset_id: p.keyset_id, epoch_key: p.epoch_key },
        timed: false,
    }
}

/// What follows in giving a group: key set, key map read and written back with
/// the group bound, membership of the endpoint, access-control entry.
pub open spec fn provision_step(
    p: ProvisionNodeParams,
    phase: ProvisionPhase,
    reply: Reply,
) -> ProgressView<ProvisionPhase, ()> {
    match phase {
        ProvisionPhase::KeySet => match reply->Unit_0 {
            Err(e) => ProgressView::Fail(provision_step_err(e@, "key-set-write"@)),
            Ok(_) => ProgressView::Call(ProvisionPhase::MapRead, map_read()),
        },
        ProvisionPhase::MapRead => match reply->Value_0 {
            Err(e) => ProgressView::Fail(provision_step_err(e@, "group-key-map read"@)),
            Ok(v) => match key_map(v@) {
                Err(e) => ProgressView::Fail(provision_step_err(e, "group-key-map read"@)),
                Ok(rows) => ProgressView::Call(
                    ProvisionPhase::MapWrite,
                    map_write(rebound(rows, p.group_id, p.keyset_id)),
                ),
            },
        },
        ProvisionPhase::MapWrite => match reply->Unit_0 {
            Err(e) => ProgressView::Fail(provision_step_err(e@, "group-key-map write"@)),
            Ok(_) => ProgressView::Call(
                ProvisionPhase::AddGroup,
                CallView::Invoke {
                    endpoint: p.endpoint,
                    cluster: CLUSTER_GROUPS,
                    command: CMD_ADD_GROUP,
                    fields: PayloadView::AddGroup { group_id: p.group_id, name: p.name@ },
                    timed: false,
                },
            ),
        },
        ProvisionPhase::AddGroup => match reply->Unit_0 {
            Err(e) => ProgressView::Fail(provision_step_err(e@, "groups add-group"@)),
            Ok(_) => ProgressView::Call(
                ProvisionPhase::Acl(GrantPhase::Read),
                CallView::ReadAcl(AclEdit::Grant(p.group_id)),
            ),
        },
        ProvisionPhase::Acl(g) => match grant_step(g, reply) {
            ProgressView::Call(next, c) => ProgressView::Call(ProvisionPhase::Acl(next), c),
            ProgressView::Done(_) => ProgressView::Done(()),
            ProgressView::Fail(e) => ProgressView::Fail(e),
        },
    }
}

/// Begins giving a group to a node with a write of its key set.
pub fn provision_node(p: &ProvisionNodeParams) -> (r: (ProvisionPhase, Call))
    ensures
        r.0 == ProvisionPhase::KeySet,
        r.1@ == keyset_write(*p),
{
    (
        ProvisionPhase::KeySet,
        Call::Invoke {
            endpoint: 0,
            cluster: CLUSTER_GROUP_KEY_MANAGEMENT,
            command: CMD_KEY_SET_WRITE,
            fields: Payload::KeySetWrite { keyset_id: p.keyset_id, epoch_key: p.epoch_key },
            timed: false,
        },
    )
}

/// Goes on with giving a group when a reply came in.
pub fn provision_node_next(p: &ProvisionNodeParams, phase: ProvisionPhase, reply: Reply) -> (r:
    Progress<ProvisionPhase, ()>)
    requires
        provision_expects(phase, reply),
    ensures
        r@ == provision_step(*p, phase, reply),
{
    match phase {
        ProvisionPhase::KeySet => match reply.unit() {
            Err(e) => fail_provision(e, "key-set-write"),
            Ok(_) => Progress::Call(ProvisionPhase::MapRead, read_map()),
        },
        ProvisionPhase::MapRead => match reply.value() {
            Err(e) => fail_provision(e, "group-key-map read"),
            Ok(v) => match parse_group_key_map(&v) {
                Err(e) => fail_provision(e, "group-key-map read"),
                Ok(rows) => Progress::Call(
                    ProvisionPhase::MapWrite,
                    Call::WriteTlv {
                        endpoint: 0,
                        cluster: CLUSTER_GROUP_KEY_MANAGEMENT,
                        attribute: ATTR_GROUP_KEY_MAP,
                        data: Payload::GroupKeyMap(bind_keyset(rows, p.group_id, p.keyset_id)),
                        timed: false,
                    },
                ),
            },
        },
        ProvisionPhase::MapWrite => match reply.unit() {
            Err(e) => fail_provision(e, "group-key-map write"),
            Ok(_) => Progress::Call(
                ProvisionPhase::AddGroup,
                Call::Invoke {
                    endpoint: p.endpoint,
                    cluster: CLUSTER_GROUPS,
                    command: CMD_ADD_GROUP,
                    fields: Payload::AddGroup { group_id: p.group_id, name: p.name.clone() },
                    timed: false,
                },
            ),
        },
        ProvisionPhase::AddGroup => match reply.unit() {
            Err(e) => fail_provision(e, "groups add-group"),
            Ok(_) => Progress::Call(
                ProvisionPhase::Acl(GrantPhase::Read),
                Call::ReadAcl(AclEdit::Grant(p.group_id)),
            ),
        },
        ProvisionPhase::Acl(g) => match ensure_group_acl_next(g, reply) {
            Progress::Call(next, c) => Progress::Call(ProvisionPhase::Acl(next), c),
            Progress::Done(_) => Progress::Done(()),
            Progress::Fail(e) => Progress::Fail(e),
        },
    }
}

/// Giving a group writes the access-control list only with the entries that
/// came from reading it: never after a failed read, and nothing else.
pub proof fn law_provision_writes_what_was_read(
    p: ProvisionNodeParams,
    phase: ProvisionPhase,
    reply: Reply,
)
    requires
        provision_expects(phase, reply),
        provision_step(p, phase, reply) matches ProgressView::Call(_, c) && writes_acl(c),
    ensures
        phase == ProvisionPhase::Acl(GrantPhase::Read),
        reply matches Reply::Acl(Ok(Some(entries))) && provision_step(p, phase, reply)
            == ProgressView::<ProvisionPhase, ()>::Call(
            ProvisionPhase::Acl(GrantPhase::Write),
            acl_write(entries@),
        ),
{
}

/// A failed reply ends giving a group, with the kind of the failure and the
/// step in its text.
pub proof fn law_provision_stops_at_a_failure(
    p: ProvisionNodeParams,
    phase: ProvisionPhase,
    e: MatError,
)
    ensures
        phase != ProvisionPhase::MapRead && phase != ProvisionPhase::Acl(GrantPhase::Read) ==> (
        provision_step(p, phase, Reply::Unit(Err(e))) matches ProgressView::Fail(f) && f.kind
            == e.kind),
        provision_step(p, ProvisionPhase::MapRead, Reply::Value(Err(e))) matches ProgressView::Fail(
            f,
        ) && f.kind == e.kind,
        provision_step(
            p,
            ProvisionPhase::Acl(GrantPhase::Read),
            Reply::Acl(Err(e)),
        ) matches ProgressView::Fail(f) && f.kind == e.kind,
{
}

/// What taking a group away from a node needs.
#[derive(Debug, Clone, Copy, PartialEq, Eq, Structural)]
pub struct RemoveGroupNodeParams {
    pub group_id: u16,
    /// The endpoint that leaves the group; all else happens on the root.
    pub endpoint: u16,
}

/// Which steps of taking a group away changed the node.
#[derive(Debug, Clone, Copy, PartialEq, Eq, Structural)]
pub struct RemoveGroupNodeReport {
    pub acl_removed: bool,
    pub group_removed: bool,
    pub keymap_removed: bool,
    pub keyset_removed: bool,
}

impl View for RemoveGroupNodeReport {
    type V = RemoveGroupNodeReport;

    open spec fn view(&self) -> RemoveGroupNodeReport {
        *self
    }
}

/// The status of a node that was no member of the group.
pub const STATUS_NOT_FOUND: u8 = 0x8B;

/// Where taking a group away stands, with what the steps before changed.
#[derive(Debug, PartialEq, Eq)]
pub enum RemovePhase {
    AclRead,
    AclWrite,
    Leave { acl: bool },
    MapRead { acl: bool, group: bool },
    MapWrite { acl: bool, group: bool, keysets: Vec<u16> },
    /// Key sets that nothing names any more; the one at `at` is being removed.
    KeySet { acl: bool, group: bool, keysets: Vec<u16>, at: usize },
}

/// What a phase of taking a group away says.
pub enum RemovePhaseView {
    AclRead,
    AclWrite,
    Leave { acl: bool },
    MapRead { acl: bool, group: bool },
    MapWrite { acl: bool, group: bool, keysets: Seq<u16> },
    KeySet { acl: bool, group: bool, keysets: Seq<u16>, at: int },
}

impl View for RemovePhase {
    type V = RemovePhaseView;

    open spec fn view(&self) -> RemovePhaseView {
        match *self {
            RemovePhase::AclRead => RemovePhaseView::AclRead,
            RemovePhase::AclWrite => RemovePhaseView::AclWrite,
            RemovePhase::Leave { acl } => RemovePhaseView::Leave { acl },
            RemovePhase::MapRead { acl, group } => RemovePhaseView::MapRead { acl, group },
            RemovePhase::MapWrite { acl, group, keysets } => RemovePhaseView::MapWrite {
                acl,
                group,
                keysets: keysets@,
            },
            RemovePhase::KeySet { acl, group, keysets, at } => RemovePhaseView::KeySet {
                acl,
                group,
                keysets: keysets@,
                at: at as int,
            },
        }
    }
}

impl RemovePhase {
    /// The key set under way is one of the list.
    pub open spec fn wf(self) -> bool {
        self matches RemovePhase::KeySet { keysets, at, .. } ==> at < keysets.len()
    }
}

/// Whether a reply answers the call that taking a group away waits for.
pub open spec fn remove_expects(phase: RemovePhaseView, reply: Reply) -> bool {
    match phase {
        RemovePhaseView::AclRead => reply is Acl,
        RemovePhaseView::Leave { .. } => reply is Data,
        RemovePhaseView::MapRead { .. } => reply is Value,
        _ => reply is Unit,
    }
}

/// The call that takes an endpoint out of a group.
pub open spec fn leave_call(p: RemoveGroupNodeParams) -> CallView {
    CallView::InvokeForData {
        endpoint: p.endpoint,
        cluster: CLUSTER_GROUPS,
        command: CMD_REMOVE_GROUP,
        fields: PayloadView::Elems(encoded(Tag::Anonymous, one_number(p.group_id as u64))),
        timed: false,
    }
}

fn leave(p: RemoveGroupNodeParams) -> (c: Call)
    ensures
        c@ == leave_call(p),
{
    Call::InvokeForData {
        endpoint: p.endpoint,
        cluster: CLUSTER_GROUPS,
        command: CMD_REMOVE_GROUP,
        fields: Payload::Elems(encode_remove_group_fields(p.group_id)),
        timed: false,
    }
}

/// The call that removes a key set.
pub open spec fn keyset_remove(keyset: u16) -> CallView {
    CallView::Invoke {
        endpoint: 0,
        cluster: CLUSTER_GROUP_KEY_MANAGEMENT,
        command: CMD_KEY_SET_REMOVE,
        fields: PayloadView::Elems(encoded(Tag::Anonymous, one_number(keyset as u64))),
        timed: false,
    }
}

/// Goes on with the key sets at a place of the list, or ends behind the last.
pub open spec fn keysets_from(acl: bool, group: bool, keysets: Seq<u16>, at: int) -> ProgressView<
    RemovePhaseView,
    RemoveGroupNodeReport,
> {
    if at < keysets.len() {
        ProgressView::Call(
            RemovePhaseView::KeySet { acl, group, keysets, at },
            keyset_remove(keysets[at]),
        )
    } else {
        ProgressView::Done(
            RemoveGroupNodeReport {
                acl_removed: acl,
                group_removed: group,
                keymap_removed: true,
                keyset_removed: keysets.len() > 0,
            },
        )
    }
}

/// What follows when the endpoint's answer to leaving came in.
pub open spec fn left(acl: bool, status: Result<u8, ErrorView>) -> ProgressView<
    RemovePhaseView,
    RemoveGroupNodeReport,
> {
    match status {
        Err(e) => ProgressView::Fail(remove_step_err(e, "groups remove-group"@)),
        Ok(s) => if s == 0 || s == STATUS_NOT_FOUND {
            ProgressView::Call(RemovePhaseView::MapRead { acl, group: s == 0 }, map_read())
        } else {
            ProgressView::Fail(
                error(
                    ErrorKind::DeviceRejected,
                    "remove step 'groups remove-group' failed: RemoveGroupResponse status 0x"@
                        + text::hex2(s),
                ),
            )
        },
    }
}

/// What follows when the key map came in.
pub open spec fn unbound(
    p: RemoveGroupNodeParams,
    acl: bool,
    group: bool,
    map: Result<Seq<(u16, u16)>, ErrorView>,
) -> ProgressView<RemovePhaseView, RemoveGroupNodeReport> {
    match map {
        Err(e) => ProgressView::Fail(remove_step_err(e, "group-key-map read"@)),
        Ok(rows) => {
            let bound = keysets_of(rows, p.group_id);
            let kept = others(rows, p.group_id);
            if bound.len() == 0 {
                ProgressView::Done(
                    RemoveGroupNodeReport {
                        acl_removed: acl,
                        group_removed: group,
                        keymap_removed: false,
                        keyset_removed: false,
                    },
                )
            } else {
                ProgressView::Call(
                    RemovePhaseView::MapWrite { acl, group, keysets: unused(bound, kept) },
                    map_write(kept),
                )
            }
        },
    }
}

/// What follows in taking a group away: its access-control entry, the
/// membership of the endpoint, its rows of the key map, and the key sets that
/// no other row names.
pub open spec fn remove_step(
    p: RemoveGroupNodeParams,
    phase: RemovePhaseView,
    reply: Reply,
) -> ProgressView<RemovePhaseView, RemoveGroupNodeReport> {
    match phase {
        RemovePhaseView::AclRead => match reply->Acl_0 {
            Err(e) => ProgressView::Fail(remove_step_err(e@, "acl read"@)),
            Ok(None) => ProgressView::Call(RemovePhaseView::Leave { acl: false }, leave_call(p)),
            Ok(Some(entries)) => ProgressView::Call(
                RemovePhaseView::AclWrite,
                acl_write(entries@),
            ),
        },
        RemovePhaseView::AclWrite => match reply->Unit_0 {
            Err(e) => ProgressView::Fail(remove_step_err(e@, "acl write"@)),
            Ok(_) => ProgressView::Call(RemovePhaseView::Leave { acl: true }, leave_call(p)),
        },
        RemovePhaseView::Leave { acl } => match reply->Data_0 {
            Err(e) => ProgressView::Fail(remove_step_err(e@, "groups remove-group"@)),
            Ok(d) => left(acl, status_of(elems(d.0@), d.1)),
        },
        RemovePhaseView::MapRead { acl, group } => match reply->Value_0 {
            Err(e) => ProgressView::Fail(remove_step_err(e@, "group-key-map read"@)),
            Ok(v) => unbound(p, acl, group, key_map(v@)),
        },
        RemovePhaseView::MapWrite { acl, group, keysets } => match reply->Unit_0 {
            Err(e) => ProgressView::Fail(remove_step_err(e@, "group-key-map write"@)),
            Ok(_) => keysets_from(acl, group, keysets, 0),
        },
        RemovePhaseView::KeySet { acl, group, keysets, at } => match reply->Unit_0 {
            Err(e) => ProgressView::Fail(remove_step_err(e@, "key-set-remove"@)),
            Ok(_) => keysets_from(acl, group, keysets, at + 1),
        },
    }
}

fn next_keyset(acl: bool, group: bool, keysets: Vec<u16>, at: usize) -> (r: Progress<
    RemovePhase,
    RemoveGroupNodeReport,
>)
    requires
        at <= keysets.len(),
    ensures
        r@ == keysets_from(acl, group, keysets@, at as int),
        r matches Progress::Call(next, _) ==> next.wf(),
{
    if at < keysets.len() {
        let keyset: u16 = keysets[at];
        Progress::Call(
            RemovePhase::KeySet { acl, group, keysets, at },
            Call::Invoke {
                endpoint: 0,
                cluster: CLUSTER_GROUP_KEY_MANAGEMENT,
                command: CMD_KEY_SET_REMOVE,
                fields: Payload::Elems(encode_key_set_remove_fields(keyset)),
                timed: false,
            },
        )
    } else {
        Progress::Done(
            RemoveGroupNodeReport {
                acl_removed: acl,
                group_removed: group,
                keymap_removed: true,
                keyset_removed: keysets.len() > 0,
            },
        )
    }
}

/// Begins taking a group away with a read of the access-control list.
pub fn remove_group_node(p: &RemoveGroupNodeParams) -> (r: (RemovePhase, Call))
    ensures
        r.0@ == RemovePhaseView::AclRead,
        r.0.wf(),
        r.1@ == CallView::ReadAcl(AclEdit::Withdraw(p.group_id)),
{
    (RemovePhase::AclRead, Call::ReadAcl(AclEdit::Withdraw(p.group_id)))
}

/// Goes on with taking a group away when a reply came in.
pub fn remove_group_node_next(p: &RemoveGroupNodeParams, phase: RemovePhase, reply: Reply) -> (r:
    Progress<RemovePhase, RemoveGroupNodeReport>)
    requires
        phase.wf(),
        remove_expects(phase@, reply),
    ensures
        r@ == remove_step(*p, phase@, reply),
        r matches Progress::Call(next, _) ==> next.wf(),
{
    match phase {
        RemovePhase::AclRead => match reply.acl() {
            Err(e) => fail_remove(e, "acl read"),
            Ok(None) => Progress::Call(RemovePhase::Leave { acl: false }, leave(*p)),
            Ok(Some(entries)) => Progress::Call(RemovePhase::AclWrite, write_acl(&entries)),
        },
        RemovePhase::AclWrite => match reply.unit() {
            Err(e) => fail_remove(e, "acl write"),
            Ok(_) => Progress::Call(RemovePhase::Leave { acl: true }, leave(*p)),
        },
        RemovePhase::Leave { acl } => match reply.data() {
            Err(e) => fail_remove(e, "groups remove-group"),
            Ok(d) => match decode_response_status(&d.0, d.1) {
                Err(e) => fail_remove(e, "groups remove-group"),
                Ok(s) => if s == 0 || s == STATUS_NOT_FOUND {
                    Progress::Call(RemovePhase::MapRead { acl, group: s == 0 }, read_map())
                } else {
                    Progress::Fail(
                        MatError::new(
                            ErrorKind::DeviceRejected,
                            "remove step 'groups remove-group' failed: RemoveGroupResponse status 0x".to_owned().concat(
                                &text::hex_byte(s),
                            ),
                        ),
                    )
                },
            },
        },
        RemovePhase::MapRead { acl, group } => match reply.value() {
            Err(e) => fail_remove(e, "group-key-map read"),
            Ok(v) => match parse_group_key_map(&v) {
                Err(e) => fail_remove(e, "group-key-map read"),
                Ok(rows) => {
                    let bound = bound_keysets(&rows, p.group_id);
                    let kept = other_rows(&rows, p.group_id);
                    if bound.len() == 0 {
                        return Progress::Done(
                            RemoveGroupNodeReport {
                                acl_removed: acl,
                                group_removed: group,
                                keymap_removed: false,
                                keyset_removed: false,
                            },
                        );
                    }
                    let keysets = unused_keysets(&bound, &kept);
                    Progress::Call(
                        RemovePhase::MapWrite { acl, group, keysets },
                        Call::WriteTlv {
                            endpoint: 0,
                            cluster: CLUSTER_GROUP_KEY_MANAGEMENT,
                            attribute: ATTR_GROUP_KEY_MAP,
                            data: Payload::GroupKeyMap(kept),
                            timed: false,
                        },
                    )
                },
            },
        },
        RemovePhase::MapWrite { acl, group, keysets } => match reply.unit() {
            Err(e) => fail_remove(e, "group-key-map write"),
            Ok(_) => next_keyset(acl, group, keysets, 0),
        },
        RemovePhase::KeySet { acl, group, keysets, at } => match reply.unit() {
            Err(e) => fail_remove(e, "key-set-remove"),
            Ok(_) => next_keyset(acl, group, keysets, at + 1),
        },
    }
}

/// Taking a group away writes the access-control list only with the entries
/// that came from reading it: never after a failed read, and nothing else.
pub proof fn law_remove_writes_what_was_read(
    p: RemoveGroupNodeParams,
    phase: RemovePhaseView,
    reply: Reply,
)
    requires
        remove_expects(phase, reply),
        remove_step(p, phase, reply) matches ProgressView::Call(_, c) && writes_acl(c),
    ensures
        phase is AclRead,
        reply matches Reply::Acl(Ok(Some(entries))) && remove_step(p, phase, reply)
            == ProgressView::<RemovePhaseView, RemoveGroupNodeReport>::Call(
            RemovePhaseView::AclWrite,
            acl_write(entries@),
        ),
{
}

/// A node that was no member is no failure: taking the group away goes on, and
/// the report says that the membership was not there.
pub proof fn law_remove_tolerates_a_missing_group(
    p: RemoveGroupNodeParams,
    acl: bool,
    reply: Reply,
)
    requires
        reply matches Reply::Data(Ok(d)) && status_of(elems(d.0@), d.1) == Ok::<u8, ErrorView>(
            STATUS_NOT_FOUND,
        ),
    ensures
        remove_step(p, RemovePhaseView::Leave { acl }, reply) == ProgressView::<
            RemovePhaseView,
            RemoveGroupNodeReport,
        >::Call(RemovePhaseView::MapRead { acl, group: false }, map_read()),
{
}

/// The key set of the identity protection key.
pub const IPK_KEYSET_ID: u16 = 0;

/// The write of the identity protection key's epochs.
pub open spec fn ipk_write(epochs: Seq<([u8; 16], u64)>) -> CallView {
    CallView::Invoke {
        endpoint: 0,
        cluster: CLUSTER_GROUP_KEY_MANAGEMENT,
        command: CMD_KEY_SET_WRITE,
        fields: PayloadView::KeySetWriteMulti { keyset_id: IPK_KEYSET_ID, epochs },
        timed: false,
    }
}

/// The call that writes the identity protection key's epochs.
pub fn write_ipk_keyset(epochs: Vec<([u8; 16], u64)>) -> (c: Call)
    ensures
        c@ == ipk_write(epochs@),
{
    Call::Invoke {
        endpoint: 0,
        cluster: CLUSTER_GROUP_KEY_MANAGEMENT,
        command: CMD_KEY_SET_WRITE,
        fields: Payload::KeySetWriteMulti { keyset_id: IPK_KEYSET_ID, epochs },
        timed: false,
    }
}

/// Names the step in a failure to write the identity protection key.
pub fn ipk_keyset_written(r: Result<(), MatError>) -> (w: Result<(), MatError>)
    ensures
        r is Ok ==> w is Ok,
        r matches Err(e) ==> (w matches Err(f) && f@ == prefixed(e@, "key-set-write (ipk): "@)),
{
    match r {
        Ok(_) => Ok(()),
        Err(e) => Err(e.prefix("key-set-write (ipk): ")),
    }
}

/// The bytes that pairs of hex digits spell.
pub open spec fn hex_pairs(bytes: Seq<u8>, n: int) -> Option<Seq<u8>>
    decreases n,
{
    if n <= 0 {
        Some(Seq::empty())
    } else {
        match (hex_pairs(bytes, n - 1), text::hex_pair(bytes[2 * n - 2], bytes[2 * n - 1])) {
            (Some(front), Some(b)) => Some(front.push(b)),
            _ => None,
        }
    }
}

/// A pair that spells nothing spoils what comes behind it.
pub proof fn lemma_bad_pair(bytes: Seq<u8>, i: int, n: int)
    requires
        0 <= i <= n,
        hex_pairs(bytes, i) is None,
    ensures
        hex_pairs(bytes, n) is None,
    decreases n - i,
{
    if i < n {
        lemma_bad_pair(bytes, i + 1, n);
    }
}

/// Whether a text is made of hex digits only.
pub open spec fn all_hex(s: Seq<char>) -> bool {
    forall|i: int| 0 <= i < s.len() ==> text::hex_val(#[trigger] s[i]) is Some
}

proof fn lemma_pairs_are_digits(bytes: Seq<u8>, n: int)
    requires
        0 <= n,
        bytes.len() >= 2 * n,
    ensures
        hex_pairs(bytes, n) is Some <==> forall|i: int|
            0 <= i < 2 * n ==> text::hex_val((#[trigger] bytes[i]) as char) is Some,
    decreases n,
{
    if n > 0 {
        lemma_pairs_are_digits(bytes, n - 1);
        if hex_pairs(bytes, n) is Some {
            assert forall|i: int| 0 <= i < 2 * n implies text::hex_val(
                (#[trigger] bytes[i]) as char,
            ) is Some by {
                if i >= 2 * (n - 1) {
                    assert(i == 2 * n - 2 || i == 2 * n - 1);
                }
            }
        } else if forall|i: int|
            0 <= i < 2 * n ==> text::hex_val((#[trigger] bytes[i]) as char) is Some {
            assert(text::hex_val(bytes[2 * n - 2] as char) is Some);
            assert(text::hex_val(bytes[2 * n - 1] as char) is Some);
        }
    }
}

proof fn lemma_low_bytes_are_ascii(s: Seq<char>)
    requires
        forall|i: int|
            0 <= i < vstd::utf8::encode_utf8(s).len() ==> (#[trigger] vstd::utf8::encode_utf8(
                s,
            )[i]) < 0x80,
    ensures
        vstd::utf8::is_ascii_chars(s),
    decreases s.len(),
{
    if s.len() > 0 {
        let all = vstd::utf8::encode_utf8(s);
        let c = s[0] as u32;
        vstd::utf8::char_is_scalar(s[0]);
        vstd::utf8::char_u32_cast(s[0], c);
        let head = vstd::utf8::encode_scalar(c);
        let rest = vstd::utf8::encode_utf8(s.drop_first());
        assert(all == head + rest);
        assert(all[0] == head[0]);
        assert(0xC0u8 | (((c >> 6) & 0x1F) as u8) >= 0x80u8) by (bit_vector);
        assert(0xE0u8 | (((c >> 12) & 0x0F) as u8) >= 0x80u8) by (bit_vector);
        assert(0xF0u8 | (((c >> 18) & 0x7) as u8) >= 0x80u8) by (bit_vector);
        assert(vstd::utf8::has_width_1_encoding(c));
        assert forall|i: int| 0 <= i < rest.len() implies (#[trigger] rest[i]) < 0x80 by {
            assert(rest[i] == all[i + head.len()]);
        }
        lemma_low_bytes_are_ascii(s.drop_first());
        assert forall|i: int| 0 <= i < s.len() implies '\0' <= (#[trigger] s[i]) <= '\u{7f}' by {
            if i > 0 {
                assert(s[i] == s.drop_first()[i - 1]);
            } else {
                assert(s[0] as int <= 0x7f);
            }
        }
    }
}

/// Pairs of hex digits are read from a text exactly where it is made of hex
/// digits only.
pub proof fn lemma_digits_of_text(s: Seq<char>, n: int)
    requires
        0 <= n,
    ensures
        (vstd::utf8::encode_utf8(s).len() == 2 * n && hex_pairs(vstd::utf8::encode_utf8(s), n)
            is Some) <==> (s.len() == 2 * n && all_hex(s)),
{
    let bytes = vstd::utf8::encode_utf8(s);
    if bytes.len() == 2 * n && hex_pairs(bytes, n) is Some {
        lemma_pairs_are_digits(bytes, n);
        assert forall|i: int| 0 <= i < bytes.len() implies (#[trigger] bytes[i]) < 0x80 by {
            assert(text::hex_val(bytes[i] as char) is Some);
        }
        lemma_low_bytes_are_ascii(s);
        vstd::utf8::is_ascii_chars_encode_utf8(s);
        assert forall|i: int| 0 <= i < s.len() implies text::hex_val(
            #[trigger] s[i],
        ) is Some by {
            assert(s[i] as u8 == bytes[i]);
            assert(text::hex_val(bytes[i] as char) is Some);
        }
    }
    if s.len() == 2 * n && all_hex(s) {
        assert forall|i: int| 0 <= i < s.len() implies '\0' <= (#[trigger] s[i]) <= '\u{7f}' by {
            assert(text::hex_val(s[i]) is Some);
        }
        vstd::utf8::is_ascii_chars_encode_utf8(s);
        assert forall|i: int| 0 <= i < 2 * n implies text::hex_val(
            (#[trigger] bytes[i]) as char,
        ) is Some by {
            assert(s[i] as u8 == bytes[i]);
            assert(text::hex_val(s[i]) is Some);
        }
        lemma_pairs_are_digits(bytes, n);
    }
}

/// The epoch key that a text spells: sixteen bytes in 32 hex digits.
pub open spec fn epoch_key_of(hex: Seq<char>) -> Result<Seq<u8>, ErrorView> {
    let bytes = vstd::utf8::encode_utf8(hex);
    if bytes.len() != 32 {
        Err(
            error(
                ErrorKind::ParseError,
                "epoch key must be 32 hex chars (16 bytes), got "@ + text::dec(bytes.len())
                    + " chars"@,
            ),
        )
    } else {
        match hex_pairs(bytes, 16) {
            Some(key) => Ok(key),
            None => Err(error(ErrorKind::ParseError, "invalid epoch key hex: "@ + hex)),
        }
    }
}

/// A text is a key exactly where it is 32 hex digits; any other is a parse
/// error.
pub proof fn law_key_is_32_hex_digits(hex: Seq<char>)
    ensures
        epoch_key_of(hex) is Ok <==> hex.len() == 32 && all_hex(hex),
        epoch_key_of(hex) matches Err(e) ==> e.kind == ErrorKind::ParseError,
{
    lemma_digits_of_text(hex, 16);
}

/// What a key that was read says.
pub open spec fn key_view(r: Result<[u8; 16], MatError>) -> Result<Seq<u8>, ErrorView> {
    match r {
        Ok(k) => Ok(k@),
        Err(e) => Err(e@),
    }
}

/// The sixteen bytes of an epoch key that is written in 32 hex digits.
pub fn epoch_key_from_hex(hex: &str) -> (r: Result<[u8; 16], MatError>)
    ensures
        key_view(r) == epoch_key_of(hex@),
{
    let bytes = hex.as_bytes();
    if bytes.len() != 32 {
        return Err(
            MatError::parse_error(
                "epoch key must be 32 hex chars (16 bytes), got ".to_owned().concat(
                    &text::decimal(bytes.len() as u64),
                ).concat(" chars"),
            ),
        );
    }
    let mut out: [u8; 16] = [0; 16];
    let mut i: usize = 0;
    while i < 16
        invariant
            i <= 16,
            bytes@.len() == 32,
            bytes@ == vstd::utf8::encode_utf8(hex@),
            hex_pairs(bytes@, i as int) == Some(out@.take(i as int)),
        decreases 16 - i,
    {
        match text::parse_hex_pair(bytes[2 * i], bytes[2 * i + 1]) {
            Some(b) => {
                let ghost before = out@;
                out[i] = b;
                assert(out@.take(i + 1) =~= before.take(i as int).push(b));
            },
            None => {
                proof {
                    lemma_bad_pair(bytes@, i + 1, 16);
                }
                return Err(
                    MatError::parse_error("invalid epoch key hex: ".to_owned().concat(hex)),
                );
            },
        }
        i += 1;
    }
    assert(out@.take(16) =~= out@);
    Ok(out)
}

/// The test for the rows of a group.
pub open spec fn of_group(group: u16) -> spec_fn((u16, u16)) -> bool {
    |r: (u16, u16)| r.0 == group
}

/// The test for the rows of the other groups.
pub open spec fn of_others(group: u16) -> spec_fn((u16, u16)) -> bool {
    |r: (u16, u16)| r.0 != group
}

/// The key set of a row.
pub open spec fn keyset_in() -> spec_fn((u16, u16)) -> u16 {
    |r: (u16, u16)| r.1
}

/// Binding a group to a key set changes the first row of the group, and no
/// other; without one it puts a row behind the others.
pub proof fn law_binding_changes_one_row(map: Seq<(u16, u16)>, group: u16, keyset: u16, i: int)
    requires
        0 <= i <= map.len(),
        forall|k: int| 0 <= k < i ==> (#[trigger] map[k]).0 != group,
        i < map.len() ==> map[i].0 == group,
    ensures
        i == map.len() ==> rebound(map, group, keyset) == map.push((group, keyset)),
        i < map.len() ==> rebound(map, group, keyset) == map.update(i, (group, keyset)),
    decreases i,
{
    if i == 0 {
        if map.len() == 0 {
            assert(rebound(map, group, keyset) =~= map.push((group, keyset)));
        }
    } else {
        let rest = map.skip(1);
        assert(map[0].0 != group);
        assert forall|k: int| 0 <= k < i - 1 implies (#[trigger] rest[k]).0 != group by {
            assert(rest[k] == map[k + 1]);
        }
        law_binding_changes_one_row(rest, group, keyset, i - 1);
        if i < map.len() {
            assert(rest[i - 1] == map[i]);
            assert(rebound(map, group, keyset) =~= map.update(i, (group, keyset)));
        } else {
            assert(rebound(map, group, keyset) =~= map.push((group, keyset)));
        }
    }
}

/// The rows of other groups are those whose group is another one, the key sets
/// of a group those of its rows, and the unused ones those that no row names;
/// each in the order in which they stood.
pub proof fn law_rows_are_told_apart_by_group(
    map: Seq<(u16, u16)>,
    group: u16,
    keysets: Seq<u16>,
)
    ensures
        others(map, group) == map.filter(of_others(group)),
        keysets_of(map, group) == map.filter(of_group(group)).map_values(
            keyset_in(),
        ),
        unused(keysets, map) == keysets.filter(
            |k: u16| forall|i: int| 0 <= i < map.len() ==> (#[trigger] map[i]).1 != k,
        ),
{
    lemma_others_are_filtered(map, group);
    lemma_keysets_are_filtered(map, group);
    lemma_unused_are_filtered(keysets, map);
}

proof fn lemma_others_are_filtered(map: Seq<(u16, u16)>, group: u16)
    ensures
        others(map, group) == map.filter(of_others(group)),
    decreases map.len(),
{
    reveal(Seq::filter);
    if map.len() > 0 {
        lemma_others_are_filtered(map.drop_last(), group);
    }
    assert(others(map, group) =~= map.filter(of_others(group)));
}

proof fn lemma_keysets_are_filtered(map: Seq<(u16, u16)>, group: u16)
    ensures
        keysets_of(map, group) == map.filter(of_group(group)).map_values(
            keyset_in(),
        ),
    decreases map.len(),
{
    reveal(Seq::filter);
    if map.len() > 0 {
        lemma_keysets_are_filtered(map.drop_last(), group);
        let kept = map.drop_last().filter(of_group(group));
        assert(kept.push(map.last()).map_values(keyset_in()) =~= kept.map_values(keyset_in()).push(
            map.last().1,
        ));
    }
    assert(keysets_of(map, group) =~= map.filter(of_group(group)).map_values(keyset_in()));
}

proof fn lemma_unused_are_filtered(keysets: Seq<u16>, map: Seq<(u16, u16)>)
    ensures
        unused(keysets, map) == keysets.filter(
            |k: u16| forall|i: int| 0 <= i < map.len() ==> (#[trigger] map[i]).1 != k,
        ),
    decreases keysets.len(),
{
    reveal(Seq::filter);
    if keysets.len() > 0 {
        lemma_unused_are_filtered(keysets.drop_last(), map);
    }
    assert(unused(keysets, map) =~= keysets.filter(
        |k: u16| forall|i: int| 0 <= i < map.len() ==> (#[trigger] map[i]).1 != k,
    ));
}

/// A key map is read row by row: the group under 1 and the key set under 2,
/// each a number of sixteen bits. It cannot be read if it is no list or one of
/// its rows lacks either.
pub proof fn law_key_map_is_read_row_by_row(items: Seq<JsonView>, i: int)
    requires
        0 <= i < items.len(),
    ensures
        key_map(JsonView::Array(items)) matches Ok(rows) ==> rows.len() == items.len()
            && items[i].get("1"@) == Some(JsonView::UInt(rows[i].0 as u64)) && items[i].get("2"@)
            == Some(JsonView::UInt(rows[i].1 as u64)),
        !((items[i].get("1"@) matches Some(JsonView::UInt(n)) && n <= 65_535) && (items[i].get(
            "2"@,
        ) matches Some(JsonView::UInt(n)) && n <= 65_535)) ==> key_map(
            JsonView::Array(items),
        ) is Err,
        key_map(JsonView::Array(items)) matches Err(e) ==> e.kind == ErrorKind::ParseError,
    decreases items.len(),
{
    let front = items.drop_last();
    reveal_with_fuel(key_map_rows, 2);
    if front.len() > 0 {
        law_key_map_is_read_row_by_row(front, if i < front.len() {
            i
        } else {
            0
        });
    }
}

/// A key map whose rows all have both numbers is read.
pub proof fn law_good_key_map_is_read(items: Seq<JsonView>)
    requires
        forall|i: int|
            0 <= i < items.len() ==> ((#[trigger] items[i]).get("1"@) matches Some(
                JsonView::UInt(n),
            ) && n <= 65_535) && (items[i].get("2"@) matches Some(JsonView::UInt(n)) && n
                <= 65_535),
    ensures
        key_map(JsonView::Array(items)) is Ok,
    decreases items.len(),
{
    if items.len() > 0 {
        let front = items.drop_last();
        assert forall|i: int| 0 <= i < front.len() implies ((#[trigger] front[i]).get("1"@) matches Some(
            JsonView::UInt(n),
        ) && n <= 65_535) && (front[i].get("2"@) matches Some(JsonView::UInt(n)) && n
            <= 65_535) by {
            assert(front[i] == items[i]);
        }
        law_good_key_map_is_read(front);
        assert(items[items.len() - 1] == items.last());
    }
}

/// A run of giving a node a group: where it stands after some replies, and the
/// calls that were sent.
pub open spec fn provision_run(p: ProvisionNodeParams, replies: Seq<Reply>) -> (
    ProgressView<ProvisionPhase, ()>,
    Seq<CallView>,
)
    decreases replies.len(),
{
    if replies.len() == 0 {
        (ProgressView::Call(ProvisionPhase::KeySet, keyset_write(p)), seq![keyset_write(p)])
    } else {
        let before = provision_run(p, replies.drop_last());
        match before.0 {
            ProgressView::Call(phase, _) => {
                let next = provision_step(p, phase, replies.last());
                match next {
                    ProgressView::Call(_, c) => (next, before.1.push(c)),
                    _ => (next, before.1),
                }
            },
            _ => before,
        }
    }
}

/// Whether each reply was one to the call before it.
pub open spec fn provision_told(p: ProvisionNodeParams, replies: Seq<Reply>) -> bool
    decreases replies.len(),
{
    replies.len() > 0 ==> provision_told(p, replies.drop_last()) && (provision_run(
        p,
        replies.drop_last(),
    ).0 matches ProgressView::Call(phase, _) && provision_expects(phase, replies.last()))
}

/// Whether a list of entries is what a write of the access-control list holds.
pub open spec fn writes_entries(c: CallView, entries: Seq<AclEntry>) -> bool {
    c matches CallView::WriteTlv { endpoint, cluster, attribute, data, timed } && endpoint == 0
        && cluster == 0x1F && attribute == 0 && !timed && (data matches PayloadView::Elems(v)
        && crate::tlv::decoded(v, 0) == Some(
        (Tag::Anonymous, ArgView::List(entry_values(entries)), v.len() as int),
    ))
}

/// Whether calls are those that give a node a group, as far as they go: the key
/// set is written, the key map is read and written with the group bound, the
/// group is added on its endpoint, and the list is read and, where a change was
/// called for, written.
pub open spec fn provision_calls(
    p: ProvisionNodeParams,
    replies: Seq<Reply>,
    calls: Seq<CallView>,
) -> bool {
    &&& 1 <= calls.len() <= 6
    &&& calls[0] == (CallView::Invoke {
        endpoint: 0,
        cluster: 0x3F,
        command: 0,
        fields: PayloadView::KeySetWrite { keyset_id: p.keyset_id, epoch_key: p.epoch_key },
        timed: false,
    })
    &&& calls.len() > 1 ==> calls[1] == (CallView::ReadJson {
        endpoint: 0,
        cluster: 0x3F,
        attribute: 0,
    })
    &&& calls.len() > 2 ==> (replies[1] matches Reply::Value(Ok(v)) && (key_map(v@) matches Ok(rows)
        && calls[2] == (CallView::WriteTlv {
        endpoint: 0,
        cluster: 0x3F,
        attribute: 0,
        data: PayloadView::GroupKeyMap(rebound(rows, p.group_id, p.keyset_id)),
        timed: false,
    })))
    &&& calls.len() > 3 ==> calls[3] == (CallView::Invoke {
        endpoint: p.endpoint,
        cluster: 4,
        command: 0,
        fields: PayloadView::AddGroup { group_id: p.group_id, name: p.name@ },
        timed: false,
    })
    &&& calls.len() > 4 ==> calls[4] == CallView::ReadAcl(AclEdit::Grant(p.group_id))
    &&& calls.len() > 5 ==> (replies[4] matches Reply::Acl(Ok(Some(entries))) && writes_entries(
        calls[5],
        entries@,
    ))
}

proof fn lemma_acl_write_holds_entries(entries: Seq<AclEntry>)
    ensures
        writes_entries(acl_write(entries), entries),
{
    crate::tlv::law_encoding_reads_back(
        Tag::Anonymous,
        ArgView::List(entry_values(entries)),
    );
}

proof fn lemma_provision_run(p: ProvisionNodeParams, replies: Seq<Reply>)
    requires
        provision_told(p, replies),
    ensures
        provision_calls(p, replies, provision_run(p, replies).1),
        provision_run(p, replies).0 matches ProgressView::Call(phase, _) ==> (
        provision_run(p, replies).1.len() == replies.len() + 1 && replies.len() == match phase {
            ProvisionPhase::KeySet => 0int,
            ProvisionPhase::MapRead => 1,
            ProvisionPhase::MapWrite => 2,
            ProvisionPhase::AddGroup => 3,
            ProvisionPhase::Acl(GrantPhase::Read) => 4,
            ProvisionPhase::Acl(GrantPhase::Write) => 5,
        }),
        provision_run(p, replies).0 is Done ==> provision_run(p, replies).1.len() == replies.len()
            && (replies.len() == 6 || (replies.len() == 5 && replies[4] matches Reply::Acl(
            Ok(None),
        ))),
    decreases replies.len(),
{
    if replies.len() > 0 {
        let front = replies.drop_last();
        lemma_provision_run(p, front);
        let before = provision_run(p, front);
        let n: int = front.len() as int;
        assert(replies[n] == replies.last());
        assert(n > 1 ==> replies[1] == front[1]);
        assert(n > 4 ==> replies[4] == front[4]);
        if let Reply::Acl(Ok(Some(entries))) = replies.last() {
            lemma_acl_write_holds_entries(entries@);
        }
    }
}

/// A run that gives a node a group and ends well sent the calls that do so, and
/// no others: one AddGroup, on the endpoint that was asked for, with the group
/// and the name that were asked for; everything else went to the root.
pub proof fn law_provision_sends_what_was_asked(p: ProvisionNodeParams, replies: Seq<Reply>, i: int)
    requires
        provision_told(p, replies),
        provision_run(p, replies).0 is Done,
        0 <= i < provision_run(p, replies).1.len(),
    ensures
        provision_calls(p, replies, provision_run(p, replies).1),
        provision_run(p, replies).1.len() == replies.len(),
        replies.len() == 6 || (replies.len() == 5 && replies[4] matches Reply::Acl(Ok(None))),
        (provision_run(p, replies).1[i] matches CallView::Invoke { fields, .. }
            && fields is AddGroup) <==> i == 3,
        provision_run(p, replies).1[3] == (CallView::Invoke {
            endpoint: p.endpoint,
            cluster: 4,
            command: 0,
            fields: PayloadView::AddGroup { group_id: p.group_id, name: p.name@ },
            timed: false,
        }),
        i != 3 ==> endpoint_of(provision_run(p, replies).1[i]) == 0,
{
    lemma_provision_run(p, replies);
}

/// The key map that such a run writes binds the group to the key set and keeps
/// the rows of all other groups as they were read.
pub proof fn law_provision_binds_the_group(p: ProvisionNodeParams, replies: Seq<Reply>)
    requires
        provision_told(p, replies),
        provision_run(p, replies).0 is Done,
    ensures
        replies[1] matches Reply::Value(Ok(v)) && (key_map(v@) matches Ok(rows) && (provision_run(
            p,
            replies,
        ).1[2] matches CallView::WriteTlv { data, .. } && (data matches PayloadView::GroupKeyMap(m)
            && m.contains((p.group_id, p.keyset_id)) && m.filter(
            of_others(p.group_id),
        ) == rows.filter(of_others(p.group_id))))),
{
    lemma_provision_run(p, replies);
    if let Reply::Value(Ok(v)) = replies[1] {
        let rows = key_map(v@)->Ok_0;
        let m = rebound(rows, p.group_id, p.keyset_id);
        law_binding_keeps_other_groups(rows, p.group_id, p.keyset_id);
        lemma_others_are_filtered(rows, p.group_id);
        lemma_others_are_filtered(m, p.group_id);
        lemma_binding_is_there(rows, p.group_id, p.keyset_id);
    }
}

proof fn lemma_binding_is_there(map: Seq<(u16, u16)>, group: u16, keyset: u16)
    ensures
        rebound(map, group, keyset).contains((group, keyset)),
    decreases map.len(),
{
    let m = rebound(map, group, keyset);
    if map.len() == 0 || map[0].0 == group {
        assert(m[0] == (group, keyset));
    } else {
        let rest = rebound(map.skip(1), group, keyset);
        lemma_binding_is_there(map.skip(1), group, keyset);
        let i = choose|i: int| 0 <= i < rest.len() && rest[i] == (group, keyset);
        assert(m[i + 1] == (group, keyset));
    }
}

/// A run of taking a node out of a group: where it stands after some replies,
/// and the calls that were sent.
pub open spec fn remove_run(p: RemoveGroupNodeParams, replies: Seq<Reply>) -> (
    ProgressView<RemovePhaseView, RemoveGroupNodeReport>,
    Seq<CallView>,
)
    decreases replies.len(),
{
    if replies.len() == 0 {
        let first = CallView::ReadAcl(AclEdit::Withdraw(p.group_id));
        (ProgressView::Call(RemovePhaseView::AclRead, first), seq![first])
    } else {
        let before = remove_run(p, replies.drop_last());
        match before.0 {
            ProgressView::Call(phase, _) => {
                let next = remove_step(p, phase, replies.last());
                match next {
                    ProgressView::Call(_, c) => (next, before.1.push(c)),
                    _ => (next, before.1),
                }
            },
            _ => before,
        }
    }
}

/// Whether each reply was one to the call before it.
pub open spec fn remove_told(p: RemoveGroupNodeParams, replies: Seq<Reply>) -> bool
    decreases replies.len(),
{
    replies.len() > 0 ==> remove_told(p, replies.drop_last()) && (remove_run(
        p,
        replies.drop_last(),
    ).0 matches ProgressView::Call(phase, _) && remove_expects(phase, replies.last()))
}

/// The payload of a command with one number, under field 0.
pub open spec fn number_payload(n: u64) -> PayloadView {
    PayloadView::Elems(
        seq![
            ElemView::StructStart(Tag::Anonymous),
            ElemView::UInt(Tag::Context(0), n),
            ElemView::End,
        ],
    )
}

/// The rows of the key map in a reply.
pub open spec fn rows_read(reply: Reply) -> Seq<(u16, u16)> {
    key_map(reply->Value_0->Ok_0@)->Ok_0
}

/// The key sets of the rows of a group.
pub open spec fn keysets_named(rows: Seq<(u16, u16)>, group: u16) -> Seq<u16> {
    rows.filter(of_group(group)).map_values(keyset_in())
}

/// Whether no row of another group names a key set.
pub open spec fn named_by_no_other(rows: Seq<(u16, u16)>, group: u16, k: u16) -> bool {
    forall|i: int| 0 <= i < rows.len() && (#[trigger] rows[i]).0 != group ==> rows[i].1 != k
}

/// The key sets that are gone with a group: those of its rows that no row of
/// another group names.
pub open spec fn keysets_gone(rows: Seq<(u16, u16)>, group: u16) -> Seq<u16> {
    keysets_named(rows, group).filter(|k: u16| named_by_no_other(rows, group, k))
}

/// Whether calls are those that take a node out of a group, as far as they go:
/// the list is read and, where a change was called for, written; the group is
/// removed on its endpoint; the key map is read and, where it has rows of the
/// group, written without them; and each key set that is gone is removed.
pub open spec fn remove_calls(
    p: RemoveGroupNodeParams,
    replies: Seq<Reply>,
    calls: Seq<CallView>,
    acl: bool,
) -> bool {
    let a: int = if acl {
        1
    } else {
        0
    };
    &&& calls.len() > 0
    &&& calls[0] == CallView::ReadAcl(AclEdit::Withdraw(p.group_id))
    &&& acl && calls.len() > 1 ==> (replies[0] matches Reply::Acl(Ok(Some(entries)))
        && writes_entries(calls[1], entries@))
    &&& calls.len() > 1 + a ==> calls[1 + a] == (CallView::InvokeForData {
        endpoint: p.endpoint,
        cluster: 4,
        command: 3,
        fields: number_payload(p.group_id as u64),
        timed: false,
    })
    &&& calls.len() > 2 + a ==> calls[2 + a] == (CallView::ReadJson {
        endpoint: 0,
        cluster: 0x3F,
        attribute: 0,
    })
    &&& calls.len() > 3 + a ==> calls[3 + a] == (CallView::WriteTlv {
        endpoint: 0,
        cluster: 0x3F,
        attribute: 0,
        data: PayloadView::GroupKeyMap(
            rows_read(replies[2 + a]).filter(of_others(p.group_id)),
        ),
        timed: false,
    })
    &&& forall|j: int|
        4 + a <= j < calls.len() ==> (#[trigger] calls[j]) == (CallView::Invoke {
            endpoint: 0,
            cluster: 0x3F,
            command: 3,
            fields: number_payload(
                keysets_gone(rows_read(replies[2 + a]), p.group_id)[j - 4 - a] as u64,
            ),
            timed: false,
        })
}

/// The status in the reply to a removal.
pub open spec fn status_read(reply: Reply) -> Result<u8, ErrorView> {
    status_of(elems(reply->Data_0->Ok_0.0@), reply->Data_0->Ok_0.1)
}

proof fn lemma_gone(rows: Seq<(u16, u16)>, group: u16)
    ensures
        unused(keysets_of(rows, group), others(rows, group)) == keysets_gone(rows, group),
        others(rows, group) == rows.filter(of_others(group)),
{
    lemma_others_are_filtered(rows, group);
    lemma_keysets_are_filtered(rows, group);
    lemma_gone_are_filtered(keysets_of(rows, group), rows, group);
}

proof fn lemma_gone_are_filtered(keysets: Seq<u16>, rows: Seq<(u16, u16)>, group: u16)
    ensures
        unused(keysets, others(rows, group)) == keysets.filter(
            |k: u16| named_by_no_other(rows, group, k),
        ),
    decreases keysets.len(),
{
    reveal(Seq::filter);
    if keysets.len() > 0 {
        lemma_gone_are_filtered(keysets.drop_last(), rows, group);
        lemma_others_use(rows, group, keysets.last());
    }
    assert(unused(keysets, others(rows, group)) =~= keysets.filter(
        |k: u16| named_by_no_other(rows, group, k),
    ));
}

proof fn lemma_others_use(map: Seq<(u16, u16)>, group: u16, k: u16)
    ensures
        (forall|i: int|
            0 <= i < others(map, group).len() ==> (#[trigger] others(map, group)[i]).1 != k) <==> (
        forall|i: int| 0 <= i < map.len() && (#[trigger] map[i]).0 != group ==> map[i].1 != k),
    decreases map.len(),
{
    if map.len() > 0 {
        let front = map.drop_last();
        let rest = others(front, group);
        let all = others(map, group);
        lemma_others_use(front, group, k);
        assert(map[map.len() - 1] == map.last());
        if forall|i: int| 0 <= i < all.len() ==> (#[trigger] all[i]).1 != k {
            assert forall|i: int| 0 <= i < rest.len() implies (#[trigger] rest[i]).1 != k by {
                assert(all[i] == rest[i]);
            }
            if map.last().0 != group {
                assert(all[all.len() - 1] == map.last());
            }
            assert forall|i: int|
                0 <= i < map.len() && (#[trigger] map[i]).0 != group implies map[i].1 != k by {
                if i < front.len() {
                    assert(front[i] == map[i]);
                }
            }
        }
        if forall|i: int| 0 <= i < map.len() && (#[trigger] map[i]).0 != group ==> map[i].1 != k {
            assert forall|i: int|
                0 <= i < front.len() && (#[trigger] front[i]).0 != group implies front[i].1
                != k by {
                assert(front[i] == map[i]);
            }
            assert forall|i: int| 0 <= i < all.len() implies (#[trigger] all[i]).1 != k by {
                if i < rest.len() {
                    assert(all[i] == rest[i]);
                }
            }
        }
    }
}

#[verifier::rlimit(60)]
proof fn lemma_remove_run(p: RemoveGroupNodeParams, replies: Seq<Reply>)
    requires
        remove_told(p, replies),
    ensures
        remove_run(p, replies).0 matches ProgressView::Call(phase, _) ==> remove_run(
            p,
            replies,
        ).1.len() == replies.len() + 1 && (match phase {
            RemovePhaseView::AclRead => replies.len() == 0 && remove_calls(
                p,
                replies,
                remove_run(p, replies).1,
                false,
            ),
            RemovePhaseView::AclWrite => replies.len() == 1 && remove_calls(
                p,
                replies,
                remove_run(p, replies).1,
                true,
            ),
            RemovePhaseView::Leave { acl } => replies.len() == if acl {
                2int
            } else {
                1
            } && remove_calls(p, replies, remove_run(p, replies).1, acl),
            RemovePhaseView::MapRead { acl, group } => {
                let a: int = if acl {
                    1
                } else {
                    0
                };
                replies.len() == 2 + a && remove_calls(p, replies, remove_run(p, replies).1, acl)
                    && (status_read(replies[1 + a]) matches Ok(s) && (s == 0 || s == 0x8B) && group
                    == (s == 0))
            },
            RemovePhaseView::MapWrite { acl, group, keysets } => {
                let a: int = if acl {
                    1
                } else {
                    0
                };
                let rows = rows_read(replies[2 + a]);
                replies.len() == 3 + a && remove_calls(p, replies, remove_run(p, replies).1, acl)
                    && (status_read(replies[1 + a]) matches Ok(s) && (s == 0 || s == 0x8B) && group
                    == (s == 0)) && keysets == keysets_gone(rows, p.group_id) && rows.filter(
                    of_group(p.group_id),
                ).len() > 0
            },
            RemovePhaseView::KeySet { acl, group, keysets, at } => {
                let a: int = if acl {
                    1
                } else {
                    0
                };
                let rows = rows_read(replies[2 + a]);
                0 <= at < keysets.len() && replies.len() == 4 + a + at && remove_calls(
                    p,
                    replies,
                    remove_run(p, replies).1,
                    acl,
                ) && (status_read(replies[1 + a]) matches Ok(s) && (s == 0 || s == 0x8B) && group
                    == (s == 0)) && keysets == keysets_gone(rows, p.group_id) && rows.filter(
                    of_group(p.group_id),
                ).len() > 0
            },
        }),
        remove_run(p, replies).0 matches ProgressView::Done(r) ==> removed_as_reported(
            p,
            replies,
            remove_run(p, replies).1,
            r,
        ),
    decreases replies.len(),
{
    if replies.len() > 0 {
        let front = replies.drop_last();
        lemma_remove_run(p, front);
        let before = remove_run(p, front);
        let n: int = front.len() as int;
        assert(replies[n] == replies.last());
        assert(forall|k: int| 0 <= k < n ==> replies[k] == front[k]);
        crate::tlv::law_one_number_is_field_zero(p.group_id as u64);
        if let ProgressView::Call(phase, _) = before.0 {
            match phase {
                RemovePhaseView::AclRead => {
                    if let Reply::Acl(Ok(Some(entries))) = replies.last() {
                        lemma_acl_write_holds_entries(entries@);
                    }
                },
                RemovePhaseView::MapRead { acl, group } => {
                    let rows = rows_read(replies.last());
                    lemma_gone(rows, p.group_id);
                    lemma_keysets_are_filtered(rows, p.group_id);
                },
                RemovePhaseView::MapWrite { acl, group, keysets } => {
                    if keysets.len() > 0 {
                        crate::tlv::law_one_number_is_field_zero(keysets[0] as u64);
                    }
                },
                RemovePhaseView::KeySet { acl, group, keysets, at } => {
                    if at + 1 < keysets.len() {
                        crate::tlv::law_one_number_is_field_zero(keysets[at + 1] as u64);
                    }
                },
                _ => {},
            }
        }
    }
}

/// Whether a report says of the calls that took a node out of a group what they
/// were and what came back.
pub open spec fn removed_as_reported(
    p: RemoveGroupNodeParams,
    replies: Seq<Reply>,
    calls: Seq<CallView>,
    r: RemoveGroupNodeReport,
) -> bool {
    let a: int = if r.acl_removed {
        1
    } else {
        0
    };
    let rows = rows_read(replies[2 + a]);
    &&& remove_calls(p, replies, calls, r.acl_removed)
    &&& calls.len() == replies.len()
    &&& status_read(replies[1 + a]) matches Ok(s) && (s == 0 || s == 0x8B) && r.group_removed == (s
        == 0)
    &&& r.keymap_removed == (rows.filter(of_group(p.group_id)).len() > 0)
    &&& r.keyset_removed == (keysets_gone(rows, p.group_id).len() > 0)
    &&& calls.len() == if r.keymap_removed {
        4 + a + keysets_gone(rows, p.group_id).len()
    } else {
        3 + a
    }
}

/// A run that takes a node out of a group and ends well sent the calls that do
/// so, and no others, and reports them: the list was rewritten if and only if
/// the report says so, the group was removed on the endpoint that was asked for
/// and had been there if and only if the report says so, the rows of the group
/// are gone from the key map and all others kept, and every key set of the
/// group that no other group uses was removed.
pub proof fn law_removal_does_what_it_reports(p: RemoveGroupNodeParams, replies: Seq<Reply>)
    requires
        remove_told(p, replies),
        remove_run(p, replies).0 is Done,
    ensures
        removed_as_reported(
            p,
            replies,
            remove_run(p, replies).1,
            remove_run(p, replies).0->Done_0,
        ),
{
    lemma_remove_run(p, replies);
}

/// A grant writes back the list that was read, whole, and says whether it
/// wrote.
pub proof fn law_grant_writes_the_edited_list(reply: Reply)
    requires
        reply is Acl,
    ensures
        reply matches Reply::Acl(Ok(Some(entries))) ==> (
            grant_step(GrantPhase::Read, reply) matches ProgressView::Call(
            next,
            c,
        ) && next == GrantPhase::Write && writes_entries(c, entries@)),
        reply matches Reply::Acl(Ok(None)) ==> grant_step(GrantPhase::Read, reply) == ProgressView::<
            GrantPhase,
            bool,
        >::Done(false),
        grant_step(GrantPhase::Write, Reply::Unit(Ok(()))) == ProgressView::<
            GrantPhase,
            bool,
        >::Done(true),
        reply matches Reply::Acl(Err(e)) ==> (
            grant_step(GrantPhase::Read, reply) matches ProgressView::Fail(
            f,
        ) && f.kind == e@.kind && text::occurs(f.detail, e@.detail)),
{
    if let Reply::Acl(Ok(Some(entries))) = reply {
        lemma_acl_write_holds_entries(entries@);
    }
    if let Reply::Acl(Err(e)) = reply {
        let f = provision_step_err(e@, "acl read"@).detail;
        let k: int = f.len() - e@.detail.len();
        assert(f.subrange(k, f.len() as int) =~= e@.detail);
        assert(text::occurs_at(f, e@.detail, k));
    }
}

/// The identity key is written to key set 0 of the root, with the epochs that
/// were asked for.
pub proof fn law_identity_key_goes_to_key_set_zero(epochs: Seq<([u8; 16], u64)>)
    ensures
        ipk_write(epochs) == (CallView::Invoke {
            endpoint: 0,
            cluster: 0x3F,
            command: 0,
            fields: PayloadView::KeySetWriteMulti { keyset_id: 0, epochs },
            timed: false,
        }),
{
}

/// A key has sixteen bytes, each sixteen times its first digit and its second.
pub proof fn law_key_spells_its_bytes(hex: Seq<char>, i: int)
    requires
        epoch_key_of(hex) is Ok,
        0 <= i < 16,
    ensures
        epoch_key_of(hex)->Ok_0.len() == 16,
        epoch_key_of(hex)->Ok_0[i] == 16 * text::hex_val(hex[2 * i])->0 + text::hex_val(
            hex[2 * i + 1],
        )->0,
{
    law_key_is_32_hex_digits(hex);
    let bytes = vstd::utf8::encode_utf8(hex);
    assert forall|k: int| 0 <= k < hex.len() implies '\0' <= (#[trigger] hex[k]) <= '\u{7f}' by {
        assert(text::hex_val(hex[k]) is Some);
    }
    vstd::utf8::is_ascii_chars_encode_utf8(hex);
    lemma_pairs_spell(bytes, 16, i);
    assert(hex[2 * i] as u8 == bytes[2 * i]);
    assert(hex[2 * i + 1] as u8 == bytes[2 * i + 1]);
    assert(text::hex_val(hex[2 * i]) is Some);
    assert(text::hex_val(hex[2 * i + 1]) is Some);
}

/// Each byte of some pairs of digits is that of its pair.
pub proof fn lemma_pairs_spell(bytes: Seq<u8>, n: int, i: int)
    requires
        0 <= i < n,
        hex_pairs(bytes, n) is Some,
    ensures
        hex_pairs(bytes, n)->0.len() == n,
        Some(hex_pairs(bytes, n)->0[i]) == text::hex_pair(bytes[2 * i], bytes[2 * i + 1]),
    decreases n,
{
    if i < n - 1 {
        lemma_pairs_spell(bytes, n - 1, i);
    } else if n > 1 {
        lemma_pairs_spell(bytes, n - 1, 0);
    }
}

/// A node that takes every step gets the group: each good reply leads to the
/// next step, and the last one to the end.
pub proof fn law_good_replies_give_the_group(
    p: ProvisionNodeParams,
    v: Json,
    entries: Vec<AclEntry>,
)
    requires
        key_map(v@) is Ok,
    ensures
        provision_step(p, ProvisionPhase::KeySet, Reply::Unit(Ok(()))) matches ProgressView::Call(
            next,
            _,
        ) && next == ProvisionPhase::MapRead,
        provision_step(p, ProvisionPhase::MapRead, Reply::Value(Ok(v))) matches ProgressView::Call(
            next,
            _,
        ) && next == ProvisionPhase::MapWrite,
        provision_step(p, ProvisionPhase::MapWrite, Reply::Unit(Ok(()))) matches ProgressView::Call(
            next,
            _,
        ) && next == ProvisionPhase::AddGroup,
        provision_step(p, ProvisionPhase::AddGroup, Reply::Unit(Ok(()))) matches ProgressView::Call(
            next,
            _,
        ) && next == ProvisionPhase::Acl(GrantPhase::Read),
        provision_step(
            p,
            ProvisionPhase::Acl(GrantPhase::Read),
            Reply::Acl(Ok(Some(entries))),
        ) matches ProgressView::Call(next, _) && next == ProvisionPhase::Acl(GrantPhase::Write),
        provision_step(p, ProvisionPhase::Acl(GrantPhase::Read), Reply::Acl(Ok(None)))
            == ProgressView::<ProvisionPhase, ()>::Done(()),
        provision_step(p, ProvisionPhase::Acl(GrantPhase::Write), Reply::Unit(Ok(())))
            == ProgressView::<ProvisionPhase, ()>::Done(()),
{
}

/// A node that takes every step loses the group: each good reply leads to the
/// next step, a key set to the next key set, and the last one to the end. A
/// status that is neither good nor that of a missing group is a refusal.
pub proof fn law_good_replies_take_the_group(
    p: RemoveGroupNodeParams,
    v: Json,
    entries: Vec<AclEntry>,
    d: (Vec<Elem>, ReadEnd),
    keysets: Seq<u16>,
    at: int,
    acl: bool,
    group: bool,
)
    requires
        key_map(v@) is Ok,
        0 <= at < keysets.len(),
    ensures
        remove_step(p, RemovePhaseView::AclRead, Reply::Acl(Ok(None))) matches ProgressView::Call(
            next,
            _,
        ) && next == (RemovePhaseView::Leave { acl: false }),
        remove_step(
            p,
            RemovePhaseView::AclRead,
            Reply::Acl(Ok(Some(entries))),
        ) matches ProgressView::Call(next, _) && next == RemovePhaseView::AclWrite,
        remove_step(p, RemovePhaseView::AclWrite, Reply::Unit(Ok(()))) matches ProgressView::Call(
            next,
            _,
        ) && next == (RemovePhaseView::Leave { acl: true }),
        status_of(elems(d.0@), d.1) == Ok::<u8, ErrorView>(0) ==> (remove_step(
            p,
            RemovePhaseView::Leave { acl },
            Reply::Data(Ok(d)),
        ) matches ProgressView::Call(next, _) && next == (RemovePhaseView::MapRead {
            acl,
            group: true,
        })),
        status_of(elems(d.0@), d.1) matches Ok(s) ==> (s != 0 && s != 0x8B ==> (remove_step(
            p,
            RemovePhaseView::Leave { acl },
            Reply::Data(Ok(d)),
        ) matches ProgressView::Fail(e) && e.kind == ErrorKind::DeviceRejected)),
        !(remove_step(p, RemovePhaseView::MapRead { acl, group }, Reply::Value(Ok(v))) is Fail),
        remove_step(
            p,
            RemovePhaseView::MapWrite { acl, group, keysets },
            Reply::Unit(Ok(())),
        ) matches ProgressView::Call(next, _) && next == (RemovePhaseView::KeySet {
            acl,
            group,
            keysets,
            at: 0,
        }),
        at + 1 < keysets.len() ==> (remove_step(
            p,
            RemovePhaseView::KeySet { acl, group, keysets, at },
            Reply::Unit(Ok(())),
        ) matches ProgressView::Call(next, _) && next == (RemovePhaseView::KeySet {
            acl,
            group,
            keysets,
            at: at + 1,
        })),
        at + 1 == keysets.len() ==> remove_step(
            p,
            RemovePhaseView::KeySet { acl, group, keysets, at },
            Reply::Unit(Ok(())),
        ) == ProgressView::<RemovePhaseView, RemoveGroupNodeReport>::Done(
            RemoveGroupNodeReport {
                acl_removed: acl,
                group_removed: group,
                keymap_removed: true,
                keyset_removed: true,
            },
        ),
{
}

/// A step that fails ends the removal with the kind of its failure.
pub proof fn law_removal_stops_at_a_failure(
    p: RemoveGroupNodeParams,
    phase: RemovePhaseView,
    e: MatError,
)
    ensures
        phase is AclRead ==> (remove_step(p, phase, Reply::Acl(Err(e))) matches ProgressView::Fail(f)
            && f.kind == e.kind),
        phase is Leave ==> (remove_step(p, phase, Reply::Data(Err(e))) matches ProgressView::Fail(f)
            && f.kind == e.kind),
        phase is MapRead ==> (remove_step(p, phase, Reply::Value(Err(e))) matches ProgressView::Fail(
            f,
        ) && f.kind == e.kind),
        phase is AclWrite || phase is MapWrite || phase is KeySet ==> (remove_step(
            p,
            phase,
            Reply::Unit(Err(e)),
        ) matches ProgressView::Fail(f) && f.kind == e.kind),
{
}

} // verus!
