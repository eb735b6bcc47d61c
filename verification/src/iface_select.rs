//! Choice of the network interface where none is given.
//!
//! A candidate is up with a carrier, multicast-capable, neither loopback nor
//! point-to-point, and has an IPv6 link-local address. Exactly one candidate
//! is taken; none or several is an error, never a guess.
use vstd::prelude::*;
use vstd::string::*;
use crate::error::{error, ErrorKind, ErrorView, MatError};
use crate::text;

verus! {

/// The interface is administratively up.
pub const IFF_UP: u32 = 0x1;

/// The interface is a loopback.
pub const IFF_LOOPBACK: u32 = 0x8;

/// The interface is a point-to-point link.
pub const IFF_POINTOPOINT: u32 = 0x10;

/// The interface can multicast.
pub const IFF_MULTICAST: u32 = 0x1000;

/// What is known of a network interface.
#[derive(Debug, PartialEq, Eq)]
pub struct IfaceInfo {
    pub name: String,
    pub flags: u32,
    pub operstate_up: bool,
    pub has_ipv6_ll: bool,
}

/// Why no interface was chosen.
#[derive(Debug, PartialEq, Eq)]
pub enum SelectError {
    NoCandidate,
    /// The names of the candidates, in the order given.
    Ambiguous(Vec<String>),
}

/// Whether an interface is a candidate.
pub open spec fn is_eligible(i: IfaceInfo) -> bool {
    &&& i.operstate_up
    &&& i.has_ipv6_ll
    &&& i.flags & IFF_UP != 0
    &&& i.flags & IFF_MULTICAST != 0
    &&& i.flags & IFF_LOOPBACK == 0
    &&& i.flags & IFF_POINTOPOINT == 0
}

/// The names of the candidates, in order.
pub open spec fn candidates(infos: Seq<IfaceInfo>) -> Seq<Seq<char>>
    decreases infos.len(),
{
    if infos.len() == 0 {
        Seq::empty()
    } else if is_eligible(infos.last()) {
        candidates(infos.drop_last()).push(infos.last().name@)
    } else {
        candidates(infos.drop_last())
    }
}

/// Whether an interface is a candidate.
pub fn eligible(i: &IfaceInfo) -> (r: bool)
    ensures
        r == is_eligible(*i),
{
    i.operstate_up && i.has_ipv6_ll && i.flags & IFF_UP != 0 && i.flags & IFF_MULTICAST != 0
        && i.flags & IFF_LOOPBACK == 0 && i.flags & IFF_POINTOPOINT == 0
}

/// Takes the only candidate.
pub fn select(infos: &[IfaceInfo]) -> (r: Result<String, SelectError>)
    ensures
        match r {
            Ok(name) => candidates(infos@) == seq![name@],
            Err(SelectError::NoCandidate) => candidates(infos@).len() == 0,
            Err(SelectError::Ambiguous(names)) => candidates(infos@).len() >= 2 && text::texts(
                names@,
            ) == candidates(infos@),
        },
{
    let mut names: Vec<String> = Vec::new();
    let mut i: usize = 0;
    while i < infos.len()
        invariant
            i <= infos.len(),
            text::texts(names@) == candidates(infos@.take(i as int)),
        decreases infos.len() - i,
    {
        let ghost before = text::texts(names@);
        assert(infos@.take(i + 1).drop_last() =~= infos@.take(i as int));
        if eligible(&infos[i]) {
            names.push(infos[i].name.clone());
            assert(text::texts(names@) =~= before.push(infos@[i as int].name@));
        }
        i += 1;
    }
    assert(infos@.take(i as int) =~= infos@);
    if names.len() == 0 {
        assert(text::texts(names@).len() == 0);
        Err(SelectError::NoCandidate)
    } else if names.len() == 1 {
        let name = names[0].clone();
        assert(text::texts(names@) =~= seq![name@]);
        Ok(name)
    } else {
        assert(text::texts(names@).len() >= 2);
        Err(SelectError::Ambiguous(names))
    }
}

/// What a row of the address table says: the interface that it gives a
/// link-local address, where it does. A row has at least six columns, the
/// fourth the scope and the sixth the interface.
pub open spec fn link_local_name(row: Seq<Seq<char>>) -> Option<Seq<char>> {
    if row.len() >= 6 && row[3] == "20"@ {
        Some(row[5])
    } else {
        None
    }
}

/// Whether one of the lines of the address table gives an interface a
/// link-local address.
pub open spec fn has_link_local(lines: Seq<Seq<char>>, name: Seq<char>) -> bool {
    exists|i: int|
        0 <= i < lines.len() && link_local_name(
            text::pieces(#[trigger] lines[i], text::Gap::Space),
        ) == Some(name)
}

/// The names of the interfaces with a link-local address.
fn link_local_names(table: &str) -> (r: Vec<String>)
    ensures
        forall|name: Seq<char>|
            #[trigger] text::texts(r@).contains(name) <==> has_link_local(
                text::pieces(table@, text::Gap::Line),
                name,
            ),
{
    let lines = text::split(table, text::Gap::Line);
    let ghost all = text::pieces(table@, text::Gap::Line);
    let mut out: Vec<String> = Vec::new();
    let mut i: usize = 0;
    while i < lines.len()
        invariant
            i <= lines.len(),
            text::texts(lines@) == all,
            forall|name: Seq<char>|
                #[trigger] text::texts(out@).contains(name) <==> has_link_local(
                    all.take(i as int),
                    name,
                ),
        decreases lines.len() - i,
    {
        let cols = text::split(&lines[i], text::Gap::Space);
        let ghost row = text::pieces(all[i as int], text::Gap::Space);
        let ghost before = text::texts(out@);
        assert(text::texts(lines@)[i as int] == lines@[i as int]@);
        assert(text::texts(cols@) == row);
        let found = cols.len() >= 6 && text::same(&cols[3], "20");
        proof {
            if cols@.len() >= 6 {
                assert(row[3] == cols@[3]@);
                assert(row[5] == cols@[5]@);
            }
        }
        if found {
            out.push(cols[5].clone());
        }
        proof {
            let now = text::texts(out@);
            let lines_now = all.take(i + 1);
            assert(lines_now[i as int] == all[i as int]);
            assert(found == (link_local_name(row) is Some));
            if found {
                assert(now =~= before.push(row[5]));
            }
            assert forall|name: Seq<char>| #[trigger] now.contains(name) <==> has_link_local(
                lines_now,
                name,
            ) by {
                if now.contains(name) {
                    let k = choose|k: int| 0 <= k < now.len() && now[k] == name;
                    if k < before.len() {
                        assert(before[k] == name);
                        assert(before.contains(name));
                        let j = choose|j: int|
                            0 <= j < all.take(i as int).len() && link_local_name(
                                text::pieces(#[trigger] all.take(i as int)[j], text::Gap::Space),
                            ) == Some(name);
                        assert(lines_now[j] == all.take(i as int)[j]);
                    }
                }
                if has_link_local(lines_now, name) {
                    let j = choose|j: int|
                        0 <= j < lines_now.len() && link_local_name(
                            text::pieces(#[trigger] lines_now[j], text::Gap::Space),
                        ) == Some(name);
                    if j < i {
                        assert(all.take(i as int)[j] == lines_now[j]);
                        assert(has_link_local(all.take(i as int), name));
                        assert(before.contains(name));
                        let k = choose|k: int| 0 <= k < before.len() && before[k] == name;
                        assert(now[k] == name);
                    } else {
                        assert(now[before.len() as int] == name);
                    }
                }
            }
        }
        i += 1;
    }
    assert(all.take(i as int) =~= all);
    out
}

/// What is read of an interface: its name, the text of its flags and that of
/// its operating state, where they can be read.
#[derive(Debug, PartialEq, Eq)]
pub struct IfaceEntry {
    pub name: String,
    pub flags: Option<String>,
    pub operstate: Option<String>,
}

/// The flags that a text spells: a hexadecimal number behind any `0x`; none
/// where it is no such number.
pub open spec fn flags_value(flags: Option<String>) -> u32 {
    match flags {
        None => 0,
        Some(s) => match text::hex_u32(text::unprefixed(text::trimmed(s@), "0x"@)) {
            Some(n) => n,
            None => 0,
        },
    }
}

/// Whether an operating state says that the interface is up.
pub open spec fn says_up(operstate: Option<String>) -> bool {
    match operstate {
        None => false,
        Some(s) => text::trimmed(s@) == "up"@,
    }
}

/// Whether an interface is described as what was read of it says.
pub open spec fn describes(info: IfaceInfo, e: IfaceEntry, table: Seq<char>) -> bool {
    &&& info.name@ == e.name@
    &&& info.flags == flags_value(e.flags)
    &&& info.operstate_up == says_up(e.operstate)
    &&& info.has_ipv6_ll == has_link_local(text::pieces(table, text::Gap::Line), e.name@)
}

/// The interfaces, in the order given, from what was read of each and from the
/// table of addresses.
pub fn scan(entries: &Vec<IfaceEntry>, table: &str) -> (r: Vec<IfaceInfo>)
    ensures
        r@.len() == entries@.len(),
        forall|i: int|
            0 <= i < r@.len() ==> describes(#[trigger] r@[i], entries@[i], table@),
{
    let names = link_local_names(table);
    let mut out: Vec<IfaceInfo> = Vec::new();
    let mut i: usize = 0;
    while i < entries.len()
        invariant
            i <= entries.len(),
            out@.len() == i,
            forall|name: Seq<char>|
                #[trigger] text::texts(names@).contains(name) <==> has_link_local(
                    text::pieces(table@, text::Gap::Line),
                    name,
                ),
            forall|k: int| 0 <= k < i ==> describes(#[trigger] out@[k], entries@[k], table@),
        decreases entries.len() - i,
    {
        let e = &entries[i];
        let flags: u32 = match &e.flags {
            None => 0,
            Some(s) => match text::parse_hex_u32(&text::strip_prefixes(&text::trim(s), "0x")) {
                Some(n) => n,
                None => 0,
            },
        };
        let operstate_up = match &e.operstate {
            None => false,
            Some(s) => text::same(&text::trim(s), "up"),
        };
        let has_ipv6_ll = named(&names, &e.name);
        out.push(IfaceInfo { name: e.name.clone(), flags, operstate_up, has_ipv6_ll });
        i += 1;
    }
    out
}

/// Whether a name is among those given.
fn named(names: &Vec<String>, name: &str) -> (r: bool)
    ensures
        r == text::texts(names@).contains(name@),
{
    let mut i: usize = 0;
    while i < names.len()
        invariant
            i <= names.len(),
            forall|k: int| 0 <= k < i ==> #[trigger] text::texts(names@)[k] != name@,
        decreases names.len() - i,
    {
        assert(text::texts(names@)[i as int] == names@[i as int]@);
        if text::same(&names[i], name) {
            return true;
        }
        i += 1;
    }
    false
}

/// What the automatic choice gives for a scan of the interfaces.
pub open spec fn detected(scan: Result<Vec<IfaceInfo>, String>) -> Result<Seq<char>, ErrorView> {
    match scan {
        Err(e) => Err(error(ErrorKind::Other, "iface autodetect: scan failed: "@ + e@)),
        Ok(infos) => {
            let names = candidates(infos@);
            if names.len() == 0 {
                Err(
                    error(
                        ErrorKind::Other,
                        "iface autodetect: no usable interface (need up/multicast/non-p2p with IPv6 link-local); set MAT_IFACE"@,
                    ),
                )
            } else if names.len() == 1 {
                Ok(names[0])
            } else {
                Err(
                    error(
                        ErrorKind::Other,
                        "iface autodetect: ambiguous candidates ["@ + text::joined(names, ", "@)
                            + "]; set MAT_IFACE"@,
                    ),
                )
            }
        },
    }
}

/// What a choice says.
pub open spec fn choice_view(r: Result<String, MatError>) -> Result<Seq<char>, ErrorView> {
    match r {
        Ok(s) => Ok(s@),
        Err(e) => Err(e@),
    }
}

/// Chooses an interface from a scan, which may itself have failed.
pub fn autodetect(scan: Result<Vec<IfaceInfo>, String>) -> (r: Result<String, MatError>)
    ensures
        choice_view(r) == detected(scan),
{
    match scan {
        Err(e) => Err(
            MatError::new(
                ErrorKind::Other,
                "iface autodetect: scan failed: ".to_owned().concat(&e),
            ),
        ),
        Ok(infos) => match select(infos.as_slice()) {
            Ok(name) => Ok(name),
            Err(SelectError::NoCandidate) => Err(
                MatError::fixed(
                    ErrorKind::Other,
                    "iface autodetect: no usable interface (need up/multicast/non-p2p with IPv6 link-local); set MAT_IFACE",
                ),
            ),
            Err(SelectError::Ambiguous(names)) => Err(
                MatError::new(
                    ErrorKind::Other,
                    "iface autodetect: ambiguous candidates [".to_owned().concat(
                        &text::join(&names, ", "),
                    ).concat("]; set MAT_IFACE"),
                ),
            ),
        },
    }
}

/// A candidate is always among those given, and a chosen interface is the only
/// one of them.
pub proof fn law_candidates_are_eligible(infos: Seq<IfaceInfo>, k: int)
    requires
        0 <= k < candidates(infos).len(),
    ensures
        exists|i: int|
            0 <= i < infos.len() && is_eligible(#[trigger] infos[i]) && infos[i].name@
                == candidates(infos)[k],
    decreases infos.len(),
{
    let rest = infos.drop_last();
    if is_eligible(infos.last()) && k == candidates(infos).len() - 1 {
        assert(infos[infos.len() - 1] == infos.last());
    } else {
        law_candidates_are_eligible(rest, k);
        let i = choose|i: int|
            0 <= i < rest.len() && is_eligible(#[trigger] rest[i]) && rest[i].name@ == candidates(
                rest,
            )[k];
        assert(infos[i] == rest[i]);
    }
}

/// The test for an interface that can be used.
pub open spec fn usable() -> spec_fn(IfaceInfo) -> bool {
    |i: IfaceInfo| is_eligible(i)
}

/// The name of an interface.
pub open spec fn name_of() -> spec_fn(IfaceInfo) -> Seq<char> {
    |i: IfaceInfo| i.name@
}

/// The candidates are the names of the interfaces that can be used, in order.
pub proof fn law_candidates_are_the_usable_ones(infos: Seq<IfaceInfo>)
    ensures
        candidates(infos) == infos.filter(usable()).map_values(name_of()),
    decreases infos.len(),
{
    reveal(Seq::filter);
    if infos.len() > 0 {
        law_candidates_are_the_usable_ones(infos.drop_last());
        let kept = infos.drop_last().filter(usable());
        assert(kept.push(infos.last()).map_values(name_of()) =~= kept.map_values(name_of()).push(
            infos.last().name@,
        ));
    }
    assert(candidates(infos) =~= infos.filter(usable()).map_values(name_of()));
}

/// An interface can be used if it is up, has an address of its link, is marked
/// as up (bit 0) and for groups (bit 12), and is neither a loop (bit 3) nor one
/// end of a line (bit 4).
pub proof fn law_usable_interface_has_its_marks(i: IfaceInfo)
    ensures
        is_eligible(i) <==> i.operstate_up && i.has_ipv6_ll && i.flags % 2 == 1 && (i.flags / 4096)
            % 2 == 1 && (i.flags / 8) % 2 == 0 && (i.flags / 16) % 2 == 0,
{
    let f: u32 = i.flags;
    assert(f & 0x1 != 0 <==> f % 2 == 1) by (bit_vector);
    assert(f & 0x1000 != 0 <==> (f / 4096) % 2 == 1) by (bit_vector);
    assert(f & 0x8 == 0 <==> (f / 8) % 2 == 0) by (bit_vector);
    assert(f & 0x10 == 0 <==> (f / 16) % 2 == 0) by (bit_vector);
}

/// The flags of an interface are the hexadecimal number that is written behind
/// the mark, and none where there is no number.
pub proof fn law_flags_are_read_in_hex(s: String, digits: Seq<char>, n: nat)
    requires
        s@ == "0x"@ + digits,
        digits.len() > 0,
        digits[0] != '+',
        !text::has_prefix(digits, "0x"@),
        !text::is_space(digits.last()),
        text::hex_number(digits) == Some(n),
        n <= 0xffff_ffff,
    ensures
        flags_value(Some(s)) == n,
        flags_value(None) == 0,
{
    reveal_strlit("0x");
    let all = "0x"@ + digits;
    assert(all[0] == '0');
    assert(all.last() == digits.last());
    assert(text::trimmed(all) == all);
    text::law_prefixes_are_taken_off(digits, "0x"@);
}

/// A row of the table names an interface with an address of its link if its
/// fourth word says so; the name is its sixth.
pub proof fn law_link_address_is_marked(row: Seq<Seq<char>>)
    ensures
        link_local_name(row) is Some <==> row.len() >= 6 && row[3] == "20"@,
        link_local_name(row) matches Some(name) ==> name == row[5],
{
}

/// One candidate is taken; none and more than one are errors, the latter with
/// every candidate named.
pub proof fn law_single_candidate_is_taken(infos: Vec<IfaceInfo>, i: int, t: String)
    ensures
        detected(Err(t)) matches Err(e) && e.kind == ErrorKind::Other,
        candidates(infos@).len() == 1 ==> detected(Ok(infos)) == Ok::<Seq<char>, ErrorView>(
            candidates(infos@)[0],
        ),
        candidates(infos@).len() != 1 ==> (detected(Ok(infos)) matches Err(e) && e.kind
            == ErrorKind::Other),
        candidates(infos@).len() > 1
            && 0 <= i < candidates(infos@).len() ==> (detected(Ok(infos)) matches Err(
            e,
        ) && text::occurs(e.detail, candidates(infos@)[i])),
{
    let names = candidates(infos@);
    if names.len() > 1 && 0 <= i < names.len() {
        text::law_joined_holds_each_part(names, ", "@, i);
        let list = text::joined(names, ", "@);
        let k = choose|k: int| #[trigger] text::occurs_at(list, names[i], k);
        let head = "iface autodetect: ambiguous candidates ["@;
        let all = head + list + "]; set MAT_IFACE"@;
        let at: int = head.len() + k;
        assert(all.subrange(at, at + names[i].len()) =~= list.subrange(k, k + names[i].len()));
        assert(text::occurs_at(all, names[i], at));
    }
}

/// An interface has an address of its link if some row of the table says so of
/// its name.
pub proof fn law_link_address_is_found_by_name(
    lines: Seq<Seq<char>>,
    name: Seq<char>,
    i: int,
)
    requires
        0 <= i < lines.len(),
    ensures
        ({
            let row = text::pieces(lines[i], text::Gap::Space);
            row.len() >= 6 && row[3] == "20"@ && row[5] == name ==> has_link_local(lines, name)
        }),
        has_link_local(lines, name) ==> exists|k: int|
            0 <= k < lines.len() && (link_local_name(
                text::pieces(#[trigger] lines[k], text::Gap::Space),
            ) matches Some(n) && n == name),
        !has_link_local(Seq::empty(), name),
{
}

/// An interface is up if its state says nothing else.
pub proof fn law_up_is_a_word(s: String)
    ensures
        s@ == "up"@ ==> says_up(Some(s)),
        says_up(Some(s)) ==> text::trimmed(s@) == "up"@,
        !says_up(None),
{
    reveal_strlit("up");
    if s@ == "up"@ {
        assert(s@[0] == 'u');
        assert(s@.last() == 'p');
        assert(text::trimmed(s@) == s@);
    }
}

/// The description of an interface keeps its name.
pub proof fn law_description_keeps_the_name(info: IfaceInfo, e: IfaceEntry, table: Seq<char>)
    requires
        describes(info, e, table),
    ensures
        info.name@ == e.name@,
        info.flags == flags_value(e.flags),
        info.operstate_up <==> says_up(e.operstate),
        info.has_ipv6_ll <==> has_link_local(text::pieces(table, text::Gap::Line), e.name@),
{
}

} // verus!
