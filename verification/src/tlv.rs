//! Tag-length-value payloads as sequences of elements.
//!
//! A payload is the run of elements that a writer emits or a reader yields;
//! their bytes are the transport's business. Floating-point numbers are held
//! as their bit patterns.
use vstd::prelude::*;
use vstd::string::*;
use crate::error::{error, ErrorKind, ErrorView, MatError};

verus! {

/// The tag of an element.
#[derive(Debug, Clone, Copy, PartialEq, Eq, Structural)]
pub enum Tag {
    Anonymous,
    Context(u8),
}

/// An element of a payload.
#[derive(Debug, PartialEq, Eq)]
pub enum Elem {
    StructStart(Tag),
    ArrayStart(Tag),
    ListStart(Tag),
    End,
    Bool(Tag, bool),
    UInt(Tag, u64),
    Int(Tag, i64),
    F32(Tag, u32),
    F64(Tag, u64),
    Utf8(Tag, String),
    Bytes(Tag, Vec<u8>),
    Null(Tag),
}

/// What an element holds.
pub enum ElemView {
    StructStart(Tag),
    ArrayStart(Tag),
    ListStart(Tag),
    End,
    Bool(Tag, bool),
    UInt(Tag, u64),
    Int(Tag, i64),
    F32(Tag, u32),
    F64(Tag, u64),
    Utf8(Tag, Seq<char>),
    Bytes(Tag, Seq<u8>),
    Null(Tag),
}

impl View for Elem {
    type V = ElemView;

    open spec fn view(&self) -> ElemView {
        match *self {
            Elem::StructStart(t) => ElemView::StructStart(t),
            Elem::ArrayStart(t) => ElemView::ArrayStart(t),
            Elem::ListStart(t) => ElemView::ListStart(t),
            Elem::End => ElemView::End,
            Elem::Bool(t, b) => ElemView::Bool(t, b),
            Elem::UInt(t, n) => ElemView::UInt(t, n),
            Elem::Int(t, n) => ElemView::Int(t, n),
            Elem::F32(t, n) => ElemView::F32(t, n),
            Elem::F64(t, n) => ElemView::F64(t, n),
            Elem::Utf8(t, s) => ElemView::Utf8(t, s@),
            Elem::Bytes(t, b) => ElemView::Bytes(t, b@),
            Elem::Null(t) => ElemView::Null(t),
        }
    }
}

impl Clone for Elem {
    fn clone(&self) -> (e: Elem)
        ensures
            e@ == self@,
    {
        match self {
            Elem::StructStart(t) => Elem::StructStart(*t),
            Elem::ArrayStart(t) => Elem::ArrayStart(*t),
            Elem::ListStart(t) => Elem::ListStart(*t),
            Elem::End => Elem::End,
            Elem::Bool(t, b) => Elem::Bool(*t, *b),
            Elem::UInt(t, n) => Elem::UInt(*t, *n),
            Elem::Int(t, n) => Elem::Int(*t, *n),
            Elem::F32(t, n) => Elem::F32(*t, *n),
            Elem::F64(t, n) => Elem::F64(*t, *n),
            Elem::Utf8(t, s) => Elem::Utf8(*t, s.clone()),
            Elem::Bytes(t, b) => Elem::Bytes(*t, copy_bytes(b)),
            Elem::Null(t) => Elem::Null(*t),
        }
    }
}

/// What some elements hold.
pub open spec fn elems(v: Seq<Elem>) -> Seq<ElemView> {
    Seq::new(v.len(), |i: int| v[i]@)
}

/// An argument or an attribute value: a tree of scalars.
#[derive(Debug, PartialEq, Eq)]
pub enum ArgValue {
    Bool(bool),
    UInt(u64),
    Int(i64),
    F32(u32),
    F64(u64),
    Str(String),
    Bytes(Vec<u8>),
    Null,
    List(Vec<ArgValue>),
    /// Fields by their id, in ascending order.
    Struct(Vec<(u8, ArgValue)>),
}

/// What an argument holds.
pub enum ArgView {
    Bool(bool),
    UInt(u64),
    Int(i64),
    F32(u32),
    F64(u64),
    Str(Seq<char>),
    Bytes(Seq<u8>),
    Null,
    List(Seq<ArgView>),
    Struct(Seq<(u8, ArgView)>),
}

/// What an argument holds.
pub open spec fn arg_view(v: ArgValue) -> ArgView
    decreases v,
{
    match v {
        ArgValue::Bool(b) => ArgView::Bool(b),
        ArgValue::UInt(n) => ArgView::UInt(n),
        ArgValue::Int(n) => ArgView::Int(n),
        ArgValue::F32(n) => ArgView::F32(n),
        ArgValue::F64(n) => ArgView::F64(n),
        ArgValue::Str(s) => ArgView::Str(s@),
        ArgValue::Bytes(b) => ArgView::Bytes(b@),
        ArgValue::Null => ArgView::Null,
        ArgValue::List(items) => ArgView::List(
            Seq::new(
                items@.len(),
                |i: int|
                    if 0 <= i < items@.len() {
                        arg_view(items@[i])
                    } else {
                        ArgView::Null
                    },
            ),
        ),
        ArgValue::Struct(fields) => ArgView::Struct(
            Seq::new(
                fields@.len(),
                |i: int|
                    if 0 <= i < fields@.len() {
                        (fields@[i].0, arg_view(fields@[i].1))
                    } else {
                        (0u8, ArgView::Null)
                    },
            ),
        ),
    }
}

impl View for ArgValue {
    type V = ArgView;

    open spec fn view(&self) -> ArgView {
        arg_view(*self)
    }
}

/// What some arguments hold.
pub open spec fn arg_views(items: Seq<ArgValue>) -> Seq<ArgView> {
    Seq::new(items.len(), |i: int| items[i]@)
}

/// What some fields hold.
pub open spec fn arg_field_views(fields: Seq<(u8, ArgValue)>) -> Seq<(u8, ArgView)> {
    Seq::new(fields.len(), |i: int| (fields[i].0, fields[i].1@))
}

/// The elements of a value under a tag.
///
/// A list is an array of anonymous items; a struct holds its fields under
/// their ids.
pub open spec fn encoded(tag: Tag, v: ArgView) -> Seq<ElemView>
    decreases v,
{
    match v {
        ArgView::Bool(b) => seq![ElemView::Bool(tag, b)],
        ArgView::UInt(n) => seq![ElemView::UInt(tag, n)],
        ArgView::Int(n) => seq![ElemView::Int(tag, n)],
        ArgView::F32(n) => seq![ElemView::F32(tag, n)],
        ArgView::F64(n) => seq![ElemView::F64(tag, n)],
        ArgView::Str(s) => seq![ElemView::Utf8(tag, s)],
        ArgView::Bytes(b) => seq![ElemView::Bytes(tag, b)],
        ArgView::Null => seq![ElemView::Null(tag)],
        ArgView::List(items) => seq![ElemView::ArrayStart(tag)] + encoded_items(items)
            + seq![ElemView::End],
        ArgView::Struct(fields) => seq![ElemView::StructStart(tag)] + encoded_fields(fields)
            + seq![ElemView::End],
    }
}

/// The elements of anonymous items, one after the other.
pub open spec fn encoded_items(items: Seq<ArgView>) -> Seq<ElemView>
    decreases items,
{
    if items.len() == 0 {
        Seq::empty()
    } else {
        encoded_items(items.drop_last()) + encoded(Tag::Anonymous, items.last())
    }
}

/// The elements of fields under their ids, one after the other.
pub open spec fn encoded_fields(fields: Seq<(u8, ArgView)>) -> Seq<ElemView>
    decreases fields,
{
    if fields.len() == 0 {
        Seq::empty()
    } else {
        encoded_fields(fields.drop_last()) + encoded(Tag::Context(fields.last().0), fields.last().1)
    }
}

/// An item more is its elements more.
pub broadcast proof fn lemma_items_push(items: Seq<ArgView>, v: ArgView)
    ensures
        #[trigger] encoded_items(items.push(v)) == encoded_items(items) + encoded(
            Tag::Anonymous,
            v,
        ),
{
    assert(items.push(v).drop_last() =~= items);
}

/// A field more is its elements more.
pub broadcast proof fn lemma_fields_push(fields: Seq<(u8, ArgView)>, f: (u8, ArgView))
    ensures
        #[trigger] encoded_fields(fields.push(f)) == encoded_fields(fields) + encoded(
            Tag::Context(f.0),
            f.1,
        ),
{
    assert(fields.push(f).drop_last() =~= fields);
}

fn emit(w: &mut Vec<Elem>, e: Elem)
    ensures
        elems(final(w)@) == elems(old(w)@).push(e@),
{
    let ghost before = elems(w@);
    w.push(e);
    assert(elems(w@) =~= before.push(e@));
}

fn copy_bytes(b: &Vec<u8>) -> (r: Vec<u8>)
    ensures
        r@ == b@,
{
    let mut r: Vec<u8> = Vec::new();
    let mut i: usize = 0;
    while i < b.len()
        invariant
            i <= b.len(),
            r@ == b@.take(i as int),
        decreases b.len() - i,
    {
        r.push(b[i]);
        assert(r@ =~= b@.take(i + 1));
        i += 1;
    }
    assert(b@.take(i as int) =~= b@);
    r
}

/// A copy of a payload.
pub fn copy_elems(v: &Vec<Elem>) -> (r: Vec<Elem>)
    ensures
        elems(r@) == elems(v@),
{
    let mut r: Vec<Elem> = Vec::new();
    let mut i: usize = 0;
    while i < v.len()
        invariant
            i <= v.len(),
            elems(r@) == elems(v@).take(i as int),
        decreases v.len() - i,
    {
        emit(&mut r, v[i].clone());
        assert(elems(r@) =~= elems(v@).take(i + 1));
        i += 1;
    }
    assert(elems(v@).take(i as int) =~= elems(v@));
    r
}

/// Writes a value under a tag at the end of a payload.
pub fn put_value(w: &mut Vec<Elem>, tag: Tag, v: &ArgValue)
    ensures
        elems(final(w)@) == elems(old(w)@) + encoded(tag, v@),
        decoded(elems(final(w)@), elems(old(w)@).len() as int) == Some(
            (tag, v@, elems(final(w)@).len() as int),
        ),
    decreases v,
{
    let ghost before = elems(w@);
    proof {
        let none = Seq::<ElemView>::empty();
        lemma_value_reads_back(before, tag, v@, none);
        assert(before + encoded(tag, v@) + none =~= before + encoded(tag, v@));
    }
    match v {
        ArgValue::Bool(b) => emit(w, Elem::Bool(tag, *b)),
        ArgValue::UInt(n) => emit(w, Elem::UInt(tag, *n)),
        ArgValue::Int(n) => emit(w, Elem::Int(tag, *n)),
        ArgValue::F32(n) => emit(w, Elem::F32(tag, *n)),
        ArgValue::F64(n) => emit(w, Elem::F64(tag, *n)),
        ArgValue::Str(s) => emit(w, Elem::Utf8(tag, s.clone())),
        ArgValue::Bytes(b) => emit(w, Elem::Bytes(tag, copy_bytes(b))),
        ArgValue::Null => emit(w, Elem::Null(tag)),
        ArgValue::List(items) => {
            let ghost all = arg_views(items@);
            assert(v@->List_0 =~= all);
            emit(w, Elem::ArrayStart(tag));
            let ghost start = elems(w@);
            let mut i: usize = 0;
            assert(elems(w@) =~= start + encoded_items(all.take(0)));
            while i < items.len()
                invariant
                    i <= items.len(),
                    *v == ArgValue::List(*items),
                    all == arg_views(items@),
                    elems(w@) == start + encoded_items(all.take(i as int)),
                decreases items.len() - i,
            {
                let ghost here = elems(w@);
                assert(decreases_to!(v => v->List_0@[i as int]));
                put_value(w, Tag::Anonymous, &items[i]);
                proof {
                    assert(all.take(i + 1) =~= all.take(i as int).push(all[i as int]));
                    lemma_items_push(all.take(i as int), all[i as int]);
                    assert(elems(w@) =~= start + encoded_items(all.take(i + 1)));
                }
                i += 1;
            }
            assert(all.take(i as int) =~= all);
            emit(w, Elem::End);
        },
        ArgValue::Struct(fields) => {
            let ghost all = arg_field_views(fields@);
            assert(v@->Struct_0 =~= all);
            emit(w, Elem::StructStart(tag));
            let ghost start = elems(w@);
            let mut i: usize = 0;
            assert(elems(w@) =~= start + encoded_fields(all.take(0)));
            while i < fields.len()
                invariant
                    i <= fields.len(),
                    *v == ArgValue::Struct(*fields),
                    all == arg_field_views(fields@),
                    elems(w@) == start + encoded_fields(all.take(i as int)),
                decreases fields.len() - i,
            {
                assert(decreases_to!(v => v->Struct_0@[i as int].1));
                put_value(w, Tag::Context(fields[i].0), &fields[i].1);
                proof {
                    assert(all.take(i + 1) =~= all.take(i as int).push(all[i as int]));
                    lemma_fields_push(all.take(i as int), all[i as int]);
                    assert(elems(w@) =~= start + encoded_fields(all.take(i + 1)));
                }
                i += 1;
            }
            assert(all.take(i as int) =~= all);
            emit(w, Elem::End);
        },
    }
    assert(elems(w@) =~= before + encoded(tag, v@));
}

/// The payload of one value without a tag.
pub fn arg_value_to_tlv(v: &ArgValue) -> (w: Vec<Elem>)
    ensures
        elems(w@) == encoded(Tag::Anonymous, v@),
{
    let mut w: Vec<Elem> = Vec::new();
    put_value(&mut w, Tag::Anonymous, v);
    assert(elems(w@) =~= encoded(Tag::Anonymous, v@));
    w
}

/// Arguments as the fields of a command: each under its position.
pub open spec fn positional(args: Seq<ArgView>) -> Seq<(u8, ArgView)> {
    Seq::new(args.len(), |i: int| (i as u8, args[i]))
}

/// The payload of a command's arguments: a struct whose field ids are the
/// positions, counted in a byte.
pub fn encode_command_fields(args: &Vec<ArgValue>) -> (w: Vec<Elem>)
    ensures
        elems(w@) == encoded(Tag::Anonymous, ArgView::Struct(positional(arg_views(args@)))),
{
    let mut w: Vec<Elem> = Vec::new();
    emit(&mut w, Elem::StructStart(Tag::Anonymous));
    let ghost all = positional(arg_views(args@));
    let mut i: usize = 0;
    assert(elems(w@) =~= seq![ElemView::StructStart(Tag::Anonymous)] + encoded_fields(all.take(0)));
    while i < args.len()
        invariant
            i <= args.len(),
            all == positional(arg_views(args@)),
            elems(w@) == seq![ElemView::StructStart(Tag::Anonymous)] + encoded_fields(
                all.take(i as int),
            ),
        decreases args.len() - i,
    {
        put_value(&mut w, Tag::Context(i as u8), &args[i]);
        proof {
            assert(all.take(i + 1) =~= all.take(i as int).push(all[i as int]));
            lemma_fields_push(all.take(i as int), all[i as int]);
            assert(elems(w@) =~= seq![ElemView::StructStart(Tag::Anonymous)] + encoded_fields(
                all.take(i + 1),
            ));
        }
        i += 1;
    }
    assert(all.take(i as int) =~= all);
    emit(&mut w, Elem::End);
    assert(elems(w@) =~= encoded(Tag::Anonymous, ArgView::Struct(all)));
    w
}

/// A payload with one number in its first field.
pub open spec fn one_number(n: u64) -> ArgView {
    ArgView::Struct(seq![(0u8, ArgView::UInt(n))])
}

fn encode_one_number(n: u64) -> (w: Vec<Elem>)
    ensures
        elems(w@) == encoded(Tag::Anonymous, one_number(n)),
{
    let mut w: Vec<Elem> = Vec::new();
    emit(&mut w, Elem::StructStart(Tag::Anonymous));
    emit(&mut w, Elem::UInt(Tag::Context(0), n));
    emit(&mut w, Elem::End);
    proof {
        lemma_fields_push(Seq::empty(), (0u8, ArgView::UInt(n)));
        assert(elems(w@) =~= encoded(Tag::Anonymous, one_number(n)));
    }
    w
}

/// The fields of RemoveGroup: the group id.
pub fn encode_remove_group_fields(group_id: u16) -> (w: Vec<Elem>)
    ensures
        elems(w@) == encoded(Tag::Anonymous, one_number(group_id as u64)),
{
    encode_one_number(group_id as u64)
}

/// The fields of KeySetRemove: the key set id.
pub fn encode_key_set_remove_fields(keyset_id: u16) -> (w: Vec<Elem>)
    ensures
        elems(w@) == encoded(Tag::Anonymous, one_number(keyset_id as u64)),
{
    encode_one_number(keyset_id as u64)
}

/// A target of an access-control entry.
#[derive(Debug, Clone, Copy, PartialEq, Eq, Structural)]
pub struct AclTarget {
    pub cluster: Option<u32>,
    pub endpoint: Option<u16>,
    pub device_type: Option<u32>,
}

/// An access-control entry.
#[derive(Debug, PartialEq, Eq)]
pub struct AclEntry {
    pub privilege: u8,
    pub auth_mode: u8,
    pub subjects: Vec<u64>,
    pub targets: Option<Vec<AclTarget>>,
    pub fabric_index: u8,
}

/// A number or null.
pub open spec fn number_or_null(n: Option<u64>) -> ArgView {
    match n {
        Some(x) => ArgView::UInt(x),
        None => ArgView::Null,
    }
}

/// An optional number, widened.
pub open spec fn wide32(n: Option<u32>) -> Option<u64> {
    match n {
        Some(x) => Some(x as u64),
        None => None,
    }
}

/// An optional number, widened.
pub open spec fn wide16(n: Option<u16>) -> Option<u64> {
    match n {
        Some(x) => Some(x as u64),
        None => None,
    }
}

/// A target as a generic value.
pub open spec fn target_value(t: AclTarget) -> ArgView {
    ArgView::Struct(
        Seq::empty().push((0u8, number_or_null(wide32(t.cluster)))).push(
            (1u8, number_or_null(wide16(t.endpoint))),
        ).push((2u8, number_or_null(wide32(t.device_type)))),
    )
}

/// Numbers as generic values.
pub open spec fn number_values(ns: Seq<u64>) -> Seq<ArgView> {
    Seq::new(ns.len(), |i: int| ArgView::UInt(ns[i]))
}

/// Targets as generic values.
pub open spec fn target_values(ts: Seq<AclTarget>) -> Seq<ArgView> {
    Seq::new(ts.len(), |i: int| target_value(ts[i]))
}

/// Targets as a list, or null where there are none.
pub open spec fn targets_value(ts: Option<Vec<AclTarget>>) -> ArgView {
    match ts {
        Some(v) => ArgView::List(target_values(v@)),
        None => ArgView::Null,
    }
}

/// An entry as a generic value: the struct of the access-control cluster.
pub open spec fn entry_value(e: AclEntry) -> ArgView {
    ArgView::Struct(
        Seq::empty().push((1u8, ArgView::UInt(e.privilege as u64))).push(
            (2u8, ArgView::UInt(e.auth_mode as u64)),
        ).push((3u8, ArgView::List(number_values(e.subjects@)))).push(
            (4u8, targets_value(e.targets)),
        ).push((254u8, ArgView::UInt(e.fabric_index as u64))),
    )
}

/// Entries as generic values.
pub open spec fn entry_values(es: Seq<AclEntry>) -> Seq<ArgView> {
    Seq::new(es.len(), |i: int| entry_value(es[i]))
}

fn put_number(w: &mut Vec<Elem>, tag: Tag, n: Option<u64>)
    ensures
        elems(final(w)@) == elems(old(w)@) + encoded(tag, number_or_null(n)),
{
    let ghost before = elems(w@);
    match n {
        Some(x) => emit(w, Elem::UInt(tag, x)),
        None => emit(w, Elem::Null(tag)),
    }
    assert(elems(w@) =~= before + encoded(tag, number_or_null(n)));
}

fn put_target(w: &mut Vec<Elem>, t: AclTarget)
    ensures
        elems(final(w)@) == elems(old(w)@) + encoded(Tag::Anonymous, target_value(t)),
{
    broadcast use lemma_fields_push;

    let ghost before = elems(w@);
    let cluster: Option<u64> = match t.cluster {
        Some(c) => Some(c as u64),
        None => None,
    };
    let endpoint: Option<u64> = match t.endpoint {
        Some(e) => Some(e as u64),
        None => None,
    };
    let device_type: Option<u64> = match t.device_type {
        Some(d) => Some(d as u64),
        None => None,
    };
    emit(w, Elem::StructStart(Tag::Anonymous));
    put_number(w, Tag::Context(0), cluster);
    put_number(w, Tag::Context(1), endpoint);
    put_number(w, Tag::Context(2), device_type);
    emit(w, Elem::End);
    proof {
        let f1 = Seq::<(u8, ArgView)>::empty().push((0u8, number_or_null(wide32(t.cluster))));
        let f2 = f1.push((1u8, number_or_null(wide16(t.endpoint))));
        let f3 = f2.push((2u8, number_or_null(wide32(t.device_type))));
        assert(target_value(t) == ArgView::Struct(f3));
        let body = encoded(Tag::Context(0), f1.last().1) + encoded(Tag::Context(1), f2.last().1)
            + encoded(Tag::Context(2), f3.last().1);
        assert(encoded_fields(f3) =~= body);
        assert(elems(w@) =~= before + encoded(Tag::Anonymous, target_value(t)));
    }
}

fn put_targets(w: &mut Vec<Elem>, ts: &Option<Vec<AclTarget>>)
    ensures
        elems(final(w)@) == elems(old(w)@) + encoded(Tag::Context(4), targets_value(*ts)),
{
    let ghost before = elems(w@);
    match ts {
        None => emit(w, Elem::Null(Tag::Context(4))),
        Some(v) => {
            emit(w, Elem::ArrayStart(Tag::Context(4)));
            let ghost start = elems(w@);
            let ghost all = target_values(v@);
            let mut i: usize = 0;
            assert(elems(w@) =~= start + encoded_items(all.take(0)));
            while i < v.len()
                invariant
                    i <= v.len(),
                    all == target_values(v@),
                    elems(w@) == start + encoded_items(all.take(i as int)),
                decreases v.len() - i,
            {
                put_target(w, v[i]);
                proof {
                    assert(all.take(i + 1) =~= all.take(i as int).push(all[i as int]));
                    lemma_items_push(all.take(i as int), all[i as int]);
                    assert(elems(w@) =~= start + encoded_items(all.take(i + 1)));
                }
                i += 1;
            }
            assert(all.take(i as int) =~= all);
            emit(w, Elem::End);
        },
    }
    assert(elems(w@) =~= before + encoded(Tag::Context(4), targets_value(*ts)));
}

fn put_numbers(w: &mut Vec<Elem>, tag: Tag, ns: &Vec<u64>)
    ensures
        elems(final(w)@) == elems(old(w)@) + encoded(tag, ArgView::List(number_values(ns@))),
{
    let ghost before = elems(w@);
    emit(w, Elem::ArrayStart(tag));
    let ghost start = elems(w@);
    let ghost all = number_values(ns@);
    let mut i: usize = 0;
    assert(elems(w@) =~= start + encoded_items(all.take(0)));
    while i < ns.len()
        invariant
            i <= ns.len(),
            all == number_values(ns@),
            elems(w@) == start + encoded_items(all.take(i as int)),
        decreases ns.len() - i,
    {
        emit(w, Elem::UInt(Tag::Anonymous, ns[i]));
        proof {
            assert(all.take(i + 1) =~= all.take(i as int).push(all[i as int]));
            lemma_items_push(all.take(i as int), all[i as int]);
            assert(elems(w@) =~= start + encoded_items(all.take(i + 1)));
        }
        i += 1;
    }
    assert(all.take(i as int) =~= all);
    emit(w, Elem::End);
    assert(elems(w@) =~= before + encoded(tag, ArgView::List(all)));
}

fn put_entry(w: &mut Vec<Elem>, e: &AclEntry)
    ensures
        elems(final(w)@) == elems(old(w)@) + encoded(Tag::Anonymous, entry_value(*e)),
{
    broadcast use lemma_fields_push;

    let ghost before = elems(w@);
    emit(w, Elem::StructStart(Tag::Anonymous));
    emit(w, Elem::UInt(Tag::Context(1), e.privilege as u64));
    emit(w, Elem::UInt(Tag::Context(2), e.auth_mode as u64));
    put_numbers(w, Tag::Context(3), &e.subjects);
    put_targets(w, &e.targets);
    emit(w, Elem::UInt(Tag::Context(254), e.fabric_index as u64));
    emit(w, Elem::End);
    proof {
        let f1 = Seq::<(u8, ArgView)>::empty().push((1u8, ArgView::UInt(e.privilege as u64)));
        let f2 = f1.push((2u8, ArgView::UInt(e.auth_mode as u64)));
        let f3 = f2.push((3u8, ArgView::List(number_values(e.subjects@))));
        let f4 = f3.push((4u8, targets_value(e.targets)));
        let f5 = f4.push((254u8, ArgView::UInt(e.fabric_index as u64)));
        assert(entry_value(*e) == ArgView::Struct(f5));
        let body = encoded(Tag::Context(1), f1.last().1) + encoded(Tag::Context(2), f2.last().1)
            + encoded(Tag::Context(3), f3.last().1) + encoded(Tag::Context(4), f4.last().1)
            + encoded(Tag::Context(254), f5.last().1);
        assert(encoded_fields(f5) =~= body);
        assert(elems(w@) =~= before + encoded(Tag::Anonymous, entry_value(*e)));
    }
}

/// The payload of an access-control list.
///
/// It is the payload that the generic encoding gives the same entries. A write
/// replaces the whole list, so the entries are the final ones.
pub fn encode_acl_entries_tlv(entries: &Vec<AclEntry>) -> (w: Vec<Elem>)
    ensures
        elems(w@) == encoded(Tag::Anonymous, ArgView::List(entry_values(entries@))),
{
    let mut w: Vec<Elem> = Vec::new();
    emit(&mut w, Elem::ArrayStart(Tag::Anonymous));
    let ghost start = elems(w@);
    let ghost all = entry_values(entries@);
    let mut i: usize = 0;
    assert(elems(w@) =~= start + encoded_items(all.take(0)));
    while i < entries.len()
        invariant
            i <= entries.len(),
            all == entry_values(entries@),
            elems(w@) == start + encoded_items(all.take(i as int)),
        decreases entries.len() - i,
    {
        put_entry(&mut w, &entries[i]);
        proof {
            assert(all.take(i + 1) =~= all.take(i as int).push(all[i as int]));
            lemma_items_push(all.take(i as int), all[i as int]);
            assert(elems(w@) =~= start + encoded_items(all.take(i + 1)));
        }
        i += 1;
    }
    assert(all.take(i as int) =~= all);
    emit(&mut w, Elem::End);
    assert(elems(w@) =~= encoded(Tag::Anonymous, ArgView::List(all)));
    w
}

/// How the input of a reader ends after the elements that it yields.
#[derive(Debug, Clone, Copy, PartialEq, Eq, Structural)]
pub enum ReadEnd {
    /// Nothing follows.
    Clean,
    /// An element is cut off.
    Truncated,
    /// What follows is no element.
    Malformed,
}

/// Whether an element opens a container.
pub open spec fn opens(e: ElemView) -> bool {
    e is StructStart || e is ArrayStart || e is ListStart
}

/// The index behind the end of `depth` open containers, where they end.
pub open spec fn close_of(v: Seq<ElemView>, depth: nat, i: int) -> Option<int>
    decreases v.len() - i,
{
    if depth == 0 {
        Some(i)
    } else if i < 0 || i >= v.len() {
        None
    } else if opens(v[i]) {
        close_of(v, depth + 1, i + 1)
    } else if v[i] is End {
        close_of(v, (depth - 1) as nat, i + 1)
    } else {
        close_of(v, depth, i + 1)
    }
}

/// A container never ends before its start.
pub proof fn lemma_close_of_bounds(v: Seq<ElemView>, depth: nat, i: int)
    ensures
        close_of(v, depth, i) matches Some(j) ==> i <= j && (depth > 0 ==> i < j <= v.len()),
    decreases v.len() - i,
{
    if depth > 0 && 0 <= i < v.len() {
        if opens(v[i]) {
            lemma_close_of_bounds(v, depth + 1, i + 1);
        } else if v[i] is End {
            lemma_close_of_bounds(v, (depth - 1) as nat, i + 1);
        } else {
            lemma_close_of_bounds(v, depth, i + 1);
        }
    }
}

/// The error of a status reply that cannot be read.
pub open spec fn bad_status(what: Seq<char>) -> ErrorView {
    error(ErrorKind::ParseError, "RemoveGroupResponse: "@ + what)
}

/// The error of a reader that has no element left where one is due.
pub open spec fn read_error(end: ReadEnd) -> ErrorView {
    match end {
        ReadEnd::Malformed => bad_status("tlv decode error"@),
        _ => bad_status("truncated"@),
    }
}

/// The status of a reply, read from index `i` of its struct on: the first
/// number under field 0 that stands directly in the struct.
pub open spec fn status_from(v: Seq<ElemView>, end: ReadEnd, i: int) -> Result<u8, ErrorView>
    decreases v.len() - i,
{
    if i < 0 || i >= v.len() {
        Err(read_error(end))
    } else if v[i] is End {
        Err(bad_status("missing status"@))
    } else if v[i] is UInt && v[i]->UInt_0 == Tag::Context(0) {
        if v[i]->UInt_1 <= 255 {
            Ok(v[i]->UInt_1 as u8)
        } else {
            Err(bad_status("status out of range"@))
        }
    } else if opens(v[i]) {
        match close_of(v, 1, i + 1) {
            Some(j) => if i < j <= v.len() {
                status_from(v, end, j)
            } else {
                Err(read_error(end))
            },
            None => Err(read_error(end)),
        }
    } else {
        status_from(v, end, i + 1)
    }
}

/// The status of a reply.
pub open spec fn status_of(v: Seq<ElemView>, end: ReadEnd) -> Result<u8, ErrorView> {
    if v.len() == 0 {
        match end {
            ReadEnd::Clean => Err(bad_status("missing struct"@)),
            _ => Err(read_error(end)),
        }
    } else if v[0] is StructStart {
        status_from(v, end, 1)
    } else {
        Err(bad_status("missing struct"@))
    }
}

fn bad(what: &str) -> (e: MatError)
    ensures
        e@ == bad_status(what@),
{
    MatError::parse_error("RemoveGroupResponse: ".to_owned().concat(what))
}

fn end_error(end: ReadEnd) -> (e: MatError)
    ensures
        e@ == read_error(end),
{
    match end {
        ReadEnd::Malformed => bad("tlv decode error"),
        _ => bad("truncated"),
    }
}

fn skip_container(v: &Vec<Elem>, from: usize) -> (r: Option<usize>)
    requires
        1 <= from <= v.len(),
    ensures
        r matches Some(j) ==> close_of(elems(v@), 1, from as int) == Some(j as int) && from < j
            <= v.len(),
        r is None ==> close_of(elems(v@), 1, from as int) is None,
{
    let mut i: usize = from;
    let mut depth: usize = 1;
    while i < v.len()
        invariant
            1 <= from <= i <= v.len(),
            1 <= depth <= 1 + (i - from),
            close_of(elems(v@), depth as nat, i as int) == close_of(elems(v@), 1, from as int),
        decreases v.len() - i,
    {
        match &v[i] {
            Elem::StructStart(_) | Elem::ArrayStart(_) | Elem::ListStart(_) => {
                depth = depth + 1;
            },
            Elem::End => {
                depth = depth - 1;
            },
            _ => {},
        }
        i += 1;
        if depth == 0 {
            return Some(i);
        }
    }
    None
}

/// Reads the status of a reply of the shape `{0: status, ..}`.
///
/// Only the outer struct's own field 0 counts: a nested container is passed
/// over whole.
pub fn decode_response_status(v: &Vec<Elem>, end: ReadEnd) -> (r: Result<u8, MatError>)
    ensures
        (match r {
            Ok(s) => Ok::<u8, ErrorView>(s),
            Err(e) => Err(e@),
        }) == status_of(elems(v@), end),
{
    if v.len() == 0 {
        return match end {
            ReadEnd::Clean => Err(bad("missing struct")),
            _ => Err(end_error(end)),
        };
    }
    match &v[0] {
        Elem::StructStart(_) => {},
        _ => {
            return Err(bad("missing struct"));
        },
    }
    let mut i: usize = 1;
    while i < v.len()
        invariant
            1 <= i <= v.len(),
            status_of(elems(v@), end) == status_from(elems(v@), end, i as int),
        decreases v.len() - i,
    {
        match &v[i] {
            Elem::End => {
                return Err(bad("missing status"));
            },
            Elem::UInt(Tag::Context(0), n) => {
                return if *n <= 255 {
                    Ok(*n as u8)
                } else {
                    Err(bad("status out of range"))
                };
            },
            Elem::StructStart(_) | Elem::ArrayStart(_) | Elem::ListStart(_) => {
                match skip_container(v, i + 1) {
                    Some(j) => {
                        i = j;
                    },
                    None => {
                        return Err(end_error(end));
                    },
                }
            },
            _ => {
                i += 1;
            },
        }
    }
    Err(end_error(end))
}

/// Inside a container, an encoded value is passed over as a whole.
pub proof fn lemma_value_is_passed(pre: Seq<ElemView>, tag: Tag, v: ArgView, post: Seq<ElemView>, depth: nat)
    requires
        depth > 0,
    ensures
        close_of(pre + encoded(tag, v) + post, depth, pre.len() as int) == close_of(
            pre + encoded(tag, v) + post,
            depth,
            (pre.len() + encoded(tag, v).len()) as int,
        ),
    decreases v,
{
    let all = pre + encoded(tag, v) + post;
    match v {
        ArgView::List(items) => {
            let open = seq![ElemView::ArrayStart(tag)];
            let body = encoded_items(items);
            lemma_items_are_passed(pre + open, items, seq![ElemView::End] + post, depth + 1);
            assert((pre + open) + body + (seq![ElemView::End] + post) =~= all);
            assert(all[pre.len() as int] == open[0]);
            assert(all[(pre.len() + 1 + body.len()) as int] == ElemView::End);
        },
        ArgView::Struct(fields) => {
            let open = seq![ElemView::StructStart(tag)];
            let body = encoded_fields(fields);
            lemma_fields_are_passed(pre + open, fields, seq![ElemView::End] + post, depth + 1);
            assert((pre + open) + body + (seq![ElemView::End] + post) =~= all);
            assert(all[pre.len() as int] == open[0]);
            assert(all[(pre.len() + 1 + body.len()) as int] == ElemView::End);
        },
        _ => {
            assert(encoded(tag, v).len() == 1);
            assert(all[pre.len() as int] == encoded(tag, v)[0]);
        },
    }
}

/// Inside a container, encoded items are passed over as a whole.
pub proof fn lemma_items_are_passed(pre: Seq<ElemView>, items: Seq<ArgView>, post: Seq<ElemView>, depth: nat)
    requires
        depth > 0,
    ensures
        close_of(pre + encoded_items(items) + post, depth, pre.len() as int) == close_of(
            pre + encoded_items(items) + post,
            depth,
            (pre.len() + encoded_items(items).len()) as int,
        ),
    decreases items,
{
    if items.len() > 0 {
        let head = encoded_items(items.drop_last());
        let last = encoded(Tag::Anonymous, items.last());
        lemma_items_are_passed(pre, items.drop_last(), last + post, depth);
        lemma_value_is_passed(pre + head, Tag::Anonymous, items.last(), post, depth);
        assert(pre + head + (last + post) =~= pre + encoded_items(items) + post);
        assert((pre + head) + last + post =~= pre + encoded_items(items) + post);
    }
}

/// Inside a container, encoded fields are passed over as a whole.
pub proof fn lemma_fields_are_passed(
    pre: Seq<ElemView>,
    fields: Seq<(u8, ArgView)>,
    post: Seq<ElemView>,
    depth: nat,
)
    requires
        depth > 0,
    ensures
        close_of(pre + encoded_fields(fields) + post, depth, pre.len() as int) == close_of(
            pre + encoded_fields(fields) + post,
            depth,
            (pre.len() + encoded_fields(fields).len()) as int,
        ),
    decreases fields,
{
    if fields.len() > 0 {
        let head = encoded_fields(fields.drop_last());
        let tag = Tag::Context(fields.last().0);
        let last = encoded(tag, fields.last().1);
        lemma_fields_are_passed(pre, fields.drop_last(), last + post, depth);
        lemma_value_is_passed(pre + head, tag, fields.last().1, post, depth);
        assert(pre + head + (last + post) =~= pre + encoded_fields(fields) + post);
        assert((pre + head) + last + post =~= pre + encoded_fields(fields) + post);
    }
}

/// An encoded value is exactly one element: a container ends where its last
/// element stands, whatever follows.
pub proof fn law_encoded_container_is_balanced(tag: Tag, v: ArgView, post: Seq<ElemView>)
    requires
        v is List || v is Struct,
    ensures
        close_of(encoded(tag, v) + post, 1, 1) == Some(encoded(tag, v).len() as int),
{
    reveal_with_fuel(close_of, 3);
    let all = encoded(tag, v) + post;
    let last = seq![ElemView::End] + post;
    match v {
        ArgView::List(items) => {
            let open = seq![ElemView::ArrayStart(tag)];
            lemma_items_are_passed(open, items, last, 1);
            assert(open + encoded_items(items) + last =~= all);
            assert(all[1 + encoded_items(items).len() as int] == ElemView::End);
        },
        ArgView::Struct(fields) => {
            let open = seq![ElemView::StructStart(tag)];
            lemma_fields_are_passed(open, fields, last, 1);
            assert(open + encoded_fields(fields) + last =~= all);
            assert(all[1 + encoded_fields(fields).len() as int] == ElemView::End);
        },
        _ => {},
    }
}

/// A status reply reads back the status that it was built with, whatever
/// fields follow it.
pub proof fn law_status_reads_back(status: u8, fields: Seq<(u8, ArgView)>, end: ReadEnd)
    ensures
        status_of(
            encoded(
                Tag::Anonymous,
                ArgView::Struct(seq![(0u8, ArgView::UInt(status as u64))] + fields),
            ),
            end,
        ) == Ok::<u8, ErrorView>(status),
{
    let first = seq![(0u8, ArgView::UInt(status as u64))];
    let all = encoded(Tag::Anonymous, ArgView::Struct(first + fields));
    lemma_first_field(0u8, ArgView::UInt(status as u64), fields);
    assert(all[1] == ElemView::UInt(Tag::Context(0), status as u64));
}

/// The elements of the first field come first.
proof fn lemma_first_field(id: u8, v: ArgView, fields: Seq<(u8, ArgView)>)
    ensures
        encoded_fields(seq![(id, v)] + fields) == encoded(Tag::Context(id), v) + encoded_fields(
            fields,
        ),
    decreases fields.len(),
{
    let all = seq![(id, v)] + fields;
    if fields.len() == 0 {
        assert(all.drop_last() =~= Seq::empty());
        assert(all.last() == (id, v));
        assert(encoded_fields(all.drop_last()) =~= Seq::empty());
        assert(encoded_fields(all) =~= encoded(Tag::Context(id), v) + encoded_fields(fields));
    } else {
        lemma_first_field(id, v, fields.drop_last());
        assert(all.drop_last() =~= seq![(id, v)] + fields.drop_last());
        assert(all.last() == fields.last());
        assert(encoded_fields(all) =~= encoded(Tag::Context(id), v) + encoded_fields(fields));
    }
}

/// A nested container before the status is passed over: a field 0 inside it is
/// not taken for the status.
pub proof fn law_nested_status_is_not_read(id: u8, v: ArgView, status: u8, end: ReadEnd)
    requires
        v is List || v is Struct,
    ensures
        status_of(
            encoded(
                Tag::Anonymous,
                ArgView::Struct(seq![(id, v)] + seq![(0u8, ArgView::UInt(status as u64))]),
            ),
            end,
        ) == Ok::<u8, ErrorView>(status),
{
    reveal_with_fuel(close_of, 3);
    reveal_with_fuel(status_from, 3);
    let tail = seq![(0u8, ArgView::UInt(status as u64))];
    let inner = encoded(Tag::Context(id), v);
    let all = encoded(Tag::Anonymous, ArgView::Struct(seq![(id, v)] + tail));
    lemma_first_field(id, v, tail);
    lemma_fields_push(Seq::empty(), tail[0]);
    let open = seq![ElemView::StructStart(Tag::Anonymous)];
    let post = seq![ElemView::UInt(Tag::Context(0), status as u64), ElemView::End];
    assert(all =~= open + inner + post);
    assert(opens(all[1])) by {
        assert(all[1] == inner[0]);
    }
    // Passing over the container from behind its first element.
    lemma_value_is_passed(open, Tag::Context(id), v, post, 1);
    let n: int = (1 + inner.len()) as int;
    match v {
        ArgView::List(items) => {
            let start = open + seq![ElemView::ArrayStart(Tag::Context(id))];
            lemma_items_are_passed(start, items, seq![ElemView::End] + post, 1);
            assert(start + encoded_items(items) + (seq![ElemView::End] + post) =~= all);
            assert(all[n - 1] == ElemView::End);
        },
        ArgView::Struct(fields) => {
            let start = open + seq![ElemView::StructStart(Tag::Context(id))];
            lemma_fields_are_passed(start, fields, seq![ElemView::End] + post, 1);
            assert(start + encoded_fields(fields) + (seq![ElemView::End] + post) =~= all);
            assert(all[n - 1] == ElemView::End);
        },
        _ => {},
    }
    assert(close_of(all, 1, 2) == Some(n));
    assert(all[n] == post[0]);
}

/// Reads the value that begins at an element: its tag, what it holds and where
/// the next one begins.
pub open spec fn decoded(v: Seq<ElemView>, i: int) -> Option<(Tag, ArgView, int)>
    decreases v.len() - i, 0int,
{
    if i < 0 || i >= v.len() {
        None
    } else {
        match v[i] {
            ElemView::Bool(t, b) => Some((t, ArgView::Bool(b), i + 1)),
            ElemView::UInt(t, n) => Some((t, ArgView::UInt(n), i + 1)),
            ElemView::Int(t, n) => Some((t, ArgView::Int(n), i + 1)),
            ElemView::F32(t, n) => Some((t, ArgView::F32(n), i + 1)),
            ElemView::F64(t, n) => Some((t, ArgView::F64(n), i + 1)),
            ElemView::Utf8(t, s) => Some((t, ArgView::Str(s), i + 1)),
            ElemView::Bytes(t, b) => Some((t, ArgView::Bytes(b), i + 1)),
            ElemView::Null(t) => Some((t, ArgView::Null, i + 1)),
            ElemView::ArrayStart(t) => match decoded_items(v, i + 1) {
                Some((items, j)) => Some((t, ArgView::List(items), j)),
                None => None,
            },
            ElemView::StructStart(t) => match decoded_fields(v, i + 1) {
                Some((fields, j)) => Some((t, ArgView::Struct(fields), j)),
                None => None,
            },
            ElemView::ListStart(_) | ElemView::End => None,
        }
    }
}

/// Reads anonymous items up to the end of their container.
pub open spec fn decoded_items(v: Seq<ElemView>, i: int) -> Option<(Seq<ArgView>, int)>
    decreases v.len() - i, 1int,
{
    if i < 0 || i >= v.len() {
        None
    } else if v[i] is End {
        Some((Seq::empty(), i + 1))
    } else {
        match decoded(v, i) {
            Some((Tag::Anonymous, x, j)) => if i < j <= v.len() {
                match decoded_items(v, j) {
                    Some((rest, k)) => Some((seq![x] + rest, k)),
                    None => None,
                }
            } else {
                None
            },
            _ => None,
        }
    }
}

/// Reads fields up to the end of their container.
pub open spec fn decoded_fields(v: Seq<ElemView>, i: int) -> Option<(Seq<(u8, ArgView)>, int)>
    decreases v.len() - i, 1int,
{
    if i < 0 || i >= v.len() {
        None
    } else if v[i] is End {
        Some((Seq::empty(), i + 1))
    } else {
        match decoded(v, i) {
            Some((Tag::Context(id), x, j)) => if i < j <= v.len() {
                match decoded_fields(v, j) {
                    Some((rest, k)) => Some((seq![(id, x)] + rest, k)),
                    None => None,
                }
            } else {
                None
            },
            _ => None,
        }
    }
}

/// The elements of the first item come first.
proof fn lemma_first_item(v: ArgView, items: Seq<ArgView>)
    ensures
        encoded_items(seq![v] + items) == encoded(Tag::Anonymous, v) + encoded_items(items),
    decreases items.len(),
{
    let all = seq![v] + items;
    if items.len() == 0 {
        assert(all.drop_last() =~= Seq::empty());
        assert(all.last() == v);
        assert(encoded_items(all.drop_last()) =~= Seq::empty());
        assert(encoded_items(all) =~= encoded(Tag::Anonymous, v) + encoded_items(items));
    } else {
        lemma_first_item(v, items.drop_last());
        assert(all.drop_last() =~= seq![v] + items.drop_last());
        assert(all.last() == items.last());
        assert(encoded_items(all) =~= encoded(Tag::Anonymous, v) + encoded_items(items));
    }
}

/// Wherever it stands, an encoded value is read back.
proof fn lemma_value_reads_back(pre: Seq<ElemView>, tag: Tag, v: ArgView, post: Seq<ElemView>)
    ensures
        encoded(tag, v).len() > 0,
        !(encoded(tag, v)[0] is End),
        decoded(pre + encoded(tag, v) + post, pre.len() as int) == Some(
            (tag, v, (pre.len() + encoded(tag, v).len()) as int),
        ),
    decreases v,
{
    let all = pre + encoded(tag, v) + post;
    match v {
        ArgView::List(items) => {
            let open = seq![ElemView::ArrayStart(tag)];
            lemma_items_read_back(pre + open, items, post);
            assert((pre + open) + encoded_items(items) + seq![ElemView::End] + post =~= all);
            assert(all[pre.len() as int] == open[0]);
        },
        ArgView::Struct(fields) => {
            let open = seq![ElemView::StructStart(tag)];
            lemma_fields_read_back(pre + open, fields, post);
            assert((pre + open) + encoded_fields(fields) + seq![ElemView::End] + post =~= all);
            assert(all[pre.len() as int] == open[0]);
        },
        _ => {
            assert(encoded(tag, v).len() == 1);
            assert(all[pre.len() as int] == encoded(tag, v)[0]);
        },
    }
}

/// Wherever they stand, encoded items are read back up to their end.
proof fn lemma_items_read_back(pre: Seq<ElemView>, items: Seq<ArgView>, post: Seq<ElemView>)
    ensures
        decoded_items(
            pre + encoded_items(items) + seq![ElemView::End] + post,
            pre.len() as int,
        ) == Some((items, (pre.len() + encoded_items(items).len() + 1) as int)),
    decreases items,
{
    let end = seq![ElemView::End];
    let all = pre + encoded_items(items) + end + post;
    if items.len() == 0 {
        assert(all[pre.len() as int] == ElemView::End);
        assert(items =~= Seq::empty());
    } else {
        let rest = items.skip(1);
        let first = encoded(Tag::Anonymous, items[0]);
        assert(items =~= seq![items[0]] + rest);
        lemma_first_item(items[0], rest);
        lemma_value_reads_back(
            pre,
            Tag::Anonymous,
            items[0],
            encoded_items(rest) + end + post,
        );
        assert(pre + first + (encoded_items(rest) + end + post) =~= all);
        lemma_items_read_back(pre + first, rest, post);
        assert((pre + first) + encoded_items(rest) + end + post =~= all);
        assert(all[pre.len() as int] == first[0]);
    }
}

/// Wherever they stand, encoded fields are read back up to their end.
proof fn lemma_fields_read_back(
    pre: Seq<ElemView>,
    fields: Seq<(u8, ArgView)>,
    post: Seq<ElemView>,
)
    ensures
        decoded_fields(
            pre + encoded_fields(fields) + seq![ElemView::End] + post,
            pre.len() as int,
        ) == Some((fields, (pre.len() + encoded_fields(fields).len() + 1) as int)),
    decreases fields,
{
    let end = seq![ElemView::End];
    let all = pre + encoded_fields(fields) + end + post;
    if fields.len() == 0 {
        assert(all[pre.len() as int] == ElemView::End);
        assert(fields =~= Seq::empty());
    } else {
        let rest = fields.skip(1);
        let tag = Tag::Context(fields[0].0);
        let first = encoded(tag, fields[0].1);
        assert(fields =~= seq![(fields[0].0, fields[0].1)] + rest);
        lemma_first_field(fields[0].0, fields[0].1, rest);
        lemma_value_reads_back(pre, tag, fields[0].1, encoded_fields(rest) + end + post);
        assert(pre + first + (encoded_fields(rest) + end + post) =~= all);
        lemma_fields_read_back(pre + first, rest, post);
        assert((pre + first) + encoded_fields(rest) + end + post =~= all);
        assert(all[pre.len() as int] == first[0]);
    }
}

/// Encoding loses nothing: reading the elements of a value gives back its tag
/// and the value, and nothing is left over. A value that holds no others is one
/// element.
pub proof fn law_encoding_reads_back(tag: Tag, v: ArgView)
    ensures
        decoded(encoded(tag, v), 0) == Some((tag, v, encoded(tag, v).len() as int)),
        !(v is List || v is Struct) ==> encoded(tag, v).len() == 1,
{
    let none = Seq::<ElemView>::empty();
    lemma_value_reads_back(none, tag, v, none);
    assert(none + encoded(tag, v) + none =~= encoded(tag, v));
}

/// Values that differ have different elements.
pub proof fn law_encodings_differ(tag: Tag, v: ArgView, w: ArgView)
    requires
        encoded(tag, v) == encoded(tag, w),
    ensures
        v == w,
{
    law_encoding_reads_back(tag, v);
    law_encoding_reads_back(tag, w);
}

/// An argument of a command stands under its position, and none is left out.
pub proof fn law_arguments_stand_under_their_positions(args: Seq<ArgView>, i: int)
    requires
        0 <= i < args.len(),
    ensures
        positional(args).len() == args.len(),
        positional(args)[i].1 == args[i],
        i < 256 ==> positional(args)[i].0 == i,
{
}

/// The fields of a command with one number: that number, under field 0.
pub proof fn law_one_number_is_field_zero(n: u64)
    ensures
        encoded(Tag::Anonymous, one_number(n)) == seq![
            ElemView::StructStart(Tag::Anonymous),
            ElemView::UInt(Tag::Context(0), n),
            ElemView::End,
        ],
{
    lemma_fields_push(Seq::empty(), (0u8, ArgView::UInt(n)));
    assert(Seq::<(u8, ArgView)>::empty().push((0u8, ArgView::UInt(n))) =~= seq![
        (0u8, ArgView::UInt(n)),
    ]);
    assert(encoded_fields(Seq::<(u8, ArgView)>::empty()) =~= Seq::<ElemView>::empty());
    assert(encoded(Tag::Anonymous, one_number(n)) =~= seq![
        ElemView::StructStart(Tag::Anonymous),
        ElemView::UInt(Tag::Context(0), n),
        ElemView::End,
    ]);
}

/// An access-control entry is written as a struct: the privilege under 1, the
/// mode under 2, every subject in order under 3, every target in order under 4
/// (null where there are none) and the fabric under 254. A target has its
/// cluster under 0, its endpoint under 1 and its device type under 2, each null
/// where it has none.
pub proof fn law_entry_is_written_whole(e: AclEntry, i: int)
    ensures
        entry_value(e) matches ArgView::Struct(f) && f.len() == 5 && f[0] == (
            1u8,
            ArgView::UInt(e.privilege as u64),
        ) && f[1] == (2u8, ArgView::UInt(e.auth_mode as u64)) && f[2].0 == 3 && f[3].0 == 4 && f[4]
            == (254u8, ArgView::UInt(e.fabric_index as u64)),
        entry_value(e)->Struct_0[2].1 matches ArgView::List(s) && s.len() == e.subjects@.len() && (
        0 <= i < s.len() ==> s[i] == ArgView::UInt(e.subjects@[i])),
        e.targets is None ==> entry_value(e)->Struct_0[3].1 == ArgView::Null,
        e.targets matches Some(ts) ==> (entry_value(e)->Struct_0[3].1 matches ArgView::List(l)
            && l.len() == ts@.len() && (0 <= i < l.len() ==> (l[i] matches ArgView::Struct(g)
            && g.len() == 3 && g[0].0 == 0 && g[1].0 == 1 && g[2].0 == 2 && (match ts@[i].cluster {
            Some(c) => g[0].1 == ArgView::UInt(c as u64),
            None => g[0].1 == ArgView::Null,
        }) && (match ts@[i].endpoint {
            Some(c) => g[1].1 == ArgView::UInt(c as u64),
            None => g[1].1 == ArgView::Null,
        }) && (match ts@[i].device_type {
            Some(c) => g[2].1 == ArgView::UInt(c as u64),
            None => g[2].1 == ArgView::Null,
        })))),
{
}

/// A list of entries is written entry by entry.
pub proof fn law_entries_are_written_in_order(es: Seq<AclEntry>, i: int)
    requires
        0 <= i < es.len(),
    ensures
        entry_values(es).len() == es.len(),
        entry_values(es)[i] == entry_value(es[i]),
{
}

proof fn lemma_status_stands_in_reply(v: Seq<ElemView>, end: ReadEnd, i: int)
    ensures
        status_from(v, end, i) matches Ok(s) ==> v.contains(
            ElemView::UInt(Tag::Context(0), s as u64),
        ),
    decreases v.len() - i,
{
    if 0 <= i < v.len() && !(v[i] is End) {
        if v[i] is UInt && v[i]->UInt_0 == Tag::Context(0) {
            assert(v.contains(v[i]));
        } else if opens(v[i]) {
            match close_of(v, 1, i + 1) {
                Some(j) => if i < j <= v.len() {
                    lemma_status_stands_in_reply(v, end, j);
                },
                None => {},
            }
        } else {
            lemma_status_stands_in_reply(v, end, i + 1);
        }
    }
}

/// A status is read only where the reply holds it under field 0.
pub proof fn law_status_stands_in_reply(v: Seq<ElemView>, end: ReadEnd)
    ensures
        status_of(v, end) matches Ok(s) ==> v.contains(ElemView::UInt(Tag::Context(0), s as u64)),
        status_of(v, end) matches Err(e) ==> e.kind == ErrorKind::ParseError,
{
    lemma_status_stands_in_reply(v, end, 1);
    lemma_status_errors(v, end, 1);
}

proof fn lemma_status_errors(v: Seq<ElemView>, end: ReadEnd, i: int)
    ensures
        status_from(v, end, i) matches Err(e) ==> e.kind == ErrorKind::ParseError,
    decreases v.len() - i,
{
    if 0 <= i < v.len() && !(v[i] is End) {
        if opens(v[i]) {
            match close_of(v, 1, i + 1) {
                Some(j) => if i < j <= v.len() {
                    lemma_status_errors(v, end, j);
                },
                None => {},
            }
        } else {
            lemma_status_errors(v, end, i + 1);
        }
    }
}

/// A value, and an element, is seen as what it holds.
pub proof fn law_values_are_seen_as_they_are(
    tag: Tag,
    b: bool,
    n: u64,
    i: i64,
    f: u32,
    s: String,
    r: Vec<u8>,
)
    ensures
        ArgValue::Bool(b)@ == ArgView::Bool(b),
        ArgValue::UInt(n)@ == ArgView::UInt(n),
        ArgValue::Int(i)@ == ArgView::Int(i),
        ArgValue::F32(f)@ == ArgView::F32(f),
        ArgValue::F64(n)@ == ArgView::F64(n),
        ArgValue::Str(s)@ == ArgView::Str(s@),
        ArgValue::Bytes(r)@ == ArgView::Bytes(r@),
        ArgValue::Null@ == ArgView::Null,
        Elem::Bool(tag, b)@ == ElemView::Bool(tag, b),
        Elem::UInt(tag, n)@ == ElemView::UInt(tag, n),
        Elem::Int(tag, i)@ == ElemView::Int(tag, i),
        Elem::F32(tag, f)@ == ElemView::F32(tag, f),
        Elem::F64(tag, n)@ == ElemView::F64(tag, n),
        Elem::Utf8(tag, s)@ == ElemView::Utf8(tag, s@),
        Elem::Bytes(tag, r)@ == ElemView::Bytes(tag, r@),
        Elem::Null(tag)@ == ElemView::Null(tag),
        Elem::StructStart(tag)@ == ElemView::StructStart(tag),
        Elem::ArrayStart(tag)@ == ElemView::ArrayStart(tag),
        Elem::ListStart(tag)@ == ElemView::ListStart(tag),
        Elem::End@ == ElemView::End,
{
}

/// A list and a struct are seen item by item and field by field.
pub proof fn law_containers_are_seen_as_they_are(
    items: Vec<ArgValue>,
    fields: Vec<(u8, ArgValue)>,
    i: int,
)
    ensures
        ArgValue::List(items)@ matches ArgView::List(l) && l.len() == items@.len() && (0 <= i
            < l.len() ==> l[i] == items@[i]@),
        ArgValue::Struct(fields)@ matches ArgView::Struct(l) && l.len() == fields@.len() && (0 <= i
            < l.len() ==> l[i] == (fields@[i].0, fields@[i].1@)),
        elems(Seq::<Elem>::empty()).len() == 0,
{
}

/// Elements are seen one by one.
pub proof fn law_elements_are_seen_one_by_one(v: Seq<Elem>, i: int)
    requires
        0 <= i < v.len(),
    ensures
        elems(v).len() == v.len(),
        elems(v)[i] == v[i]@,
{
}

} // verus!
