//! The controller's own record of its groups.
use vstd::prelude::*;
use vstd::string::*;
use crate::error::{error, ErrorKind, ErrorView, MatError};
use crate::text;

verus! {

/// Where the record of a fabric's groups is kept.
#[derive(Debug, PartialEq, Eq)]
pub struct GroupSettingsCtx {
    pub main_ini: String,
    pub fabric_index: u8,
    /// The compressed fabric id.
    pub cfid: [u8; 8],
}

/// The classes of a record that could not be read or written.
#[derive(Debug, PartialEq, Eq)]
pub enum GroupSettingsClass {
    /// The key set is bound to the group already.
    DuplicateBind { group_id: u16, keyset_id: u16 },
    /// Another process holds the store.
    Locked,
    /// The store is not there.
    NotFound,
    /// The record contradicts itself at a key.
    Corrupt { key: String, reason: String },
    /// Anything else.
    Other,
}

/// Why the record could not be read or written.
#[derive(Debug, PartialEq, Eq)]
pub struct GroupSettingsFailure {
    pub class: GroupSettingsClass,
    pub text: String,
}

/// The error for a record of a group that was not written.
pub open spec fn write_error(f: GroupSettingsFailure) -> ErrorView {
    match f.class {
        GroupSettingsClass::DuplicateBind { group_id, keyset_id } => error(
            ErrorKind::Other,
            "keyset "@ + text::dec(keyset_id as nat) + " is already bound to group "@ + text::dec(
                group_id as nat,
            ) + " in the controller kvs; use --rebind"@,
        ),
        GroupSettingsClass::Locked => error(
            ErrorKind::Other,
            "controller kvs is locked by another process (concurrent provision?)"@,
        ),
        _ => error(
            ErrorKind::Other,
            "controller kvs group write failed: "@ + f.text@,
        ),
    }
}

/// Maps a record of a group that was not written. The kind is always other;
/// the detail says how to go on.
pub fn map_gs_err(f: GroupSettingsFailure) -> (e: MatError)
    ensures
        e@ == write_error(f),
{
    match &f.class {
        GroupSettingsClass::DuplicateBind { group_id, keyset_id } => MatError::new(
            ErrorKind::Other,
            "keyset ".to_owned().concat(&text::decimal(*keyset_id as u64)).concat(
                " is already bound to group ",
            ).concat(&text::decimal(*group_id as u64)).concat(
                " in the controller kvs; use --rebind",
            ),
        ),
        GroupSettingsClass::Locked => MatError::fixed(
            ErrorKind::Other,
            "controller kvs is locked by another process (concurrent provision?)",
        ),
        _ => MatError::new(
            ErrorKind::Other,
            "controller kvs group write failed: ".to_owned().concat(&f.text),
        ),
    }
}

/// The result of writing the record of a group.
pub fn write_group_provision(written: Result<(), GroupSettingsFailure>) -> (r: Result<(), MatError>)
    ensures
        match written {
            Ok(_) => r is Ok,
            Err(f) => r matches Err(e) && e@ == write_error(f),
        },
{
    match written {
        Ok(()) => Ok(()),
        Err(f) => Err(map_gs_err(f)),
    }
}

/// The error for a record of the groups that was not read.
pub open spec fn list_error(f: GroupSettingsFailure, main_ini: Seq<char>) -> ErrorView {
    match f.class {
        GroupSettingsClass::NotFound => error(
            ErrorKind::StoreMissing,
            main_ini + " not found — run `mat fabric init` to bootstrap the credential store"@,
        ),
        GroupSettingsClass::Corrupt { key, reason } => error(
            ErrorKind::StoreParse,
            f.text@,
        ),
        GroupSettingsClass::Locked => error(
            ErrorKind::Other,
            "controller kvs is locked by another process (concurrent provision?)"@,
        ),
        _ => error(ErrorKind::Other, f.text@),
    }
}

/// Maps a record of the groups that was not read: a store that is missing, one
/// that contradicts itself, and the rest.
pub fn map_gs_read_err(f: GroupSettingsFailure, main_ini: &str) -> (e: MatError)
    ensures
        e@ == list_error(f, main_ini@),
{
    match &f.class {
        GroupSettingsClass::NotFound => MatError::new(
            ErrorKind::StoreMissing,
            main_ini.to_owned().concat(
                " not found — run `mat fabric init` to bootstrap the credential store",
            ),
        ),
        GroupSettingsClass::Corrupt { .. } => MatError::new(
            ErrorKind::StoreParse,
            f.text.clone(),
        ),
        GroupSettingsClass::Locked => MatError::fixed(
            ErrorKind::Other,
            "controller kvs is locked by another process (concurrent provision?)",
        ),
        _ => MatError::new(ErrorKind::Other, f.text.clone()),
    }
}

/// The record of the groups: each with its name and the keyset it is bound to,
/// and each keyset with the groups that are bound to it.
#[derive(Debug, PartialEq, Eq)]
pub struct GroupTable {
    pub groups: Vec<(u16, String, Option<u16>)>,
    pub keysets: Vec<(u16, Vec<u16>)>,
}

/// Lists the groups of a store: the record as it stands, or why it was not read.
pub fn run_list(read: Result<GroupTable, GroupSettingsFailure>, main_ini: &str) -> (r: Result<
    GroupTable,
    MatError,
>)
    ensures
        match read {
            Ok(table) => r == Ok::<GroupTable, MatError>(table),
            Err(f) => r matches Err(e) && e@ == list_error(f, main_ini@),
        },
{
    match read {
        Ok(table) => Ok(table),
        Err(f) => Err(map_gs_read_err(f, main_ini)),
    }
}

/// The error for an IPK rotation that was not recorded.
pub open spec fn rotation_error(f: GroupSettingsFailure) -> ErrorView {
    match f.class {
        GroupSettingsClass::Locked => error(
            ErrorKind::Other,
            "controller kvs is locked by another process (concurrent rotate-ipk / provision?)"@,
        ),
        GroupSettingsClass::Corrupt { key, reason } => error(
            ErrorKind::StoreParse,
            "inconsistent ipk rotation state at "@ + key@ + ": "@ + reason@,
        ),
        _ => error(
            ErrorKind::Other,
            "controller kvs ipk rotation write failed: "@ + f.text@,
        ),
    }
}

/// Maps an IPK rotation that was not recorded.
pub fn map_rotation_err(f: GroupSettingsFailure) -> (e: MatError)
    ensures
        e@ == rotation_error(f),
{
    match &f.class {
        GroupSettingsClass::Locked => MatError::fixed(
            ErrorKind::Other,
            "controller kvs is locked by another process (concurrent rotate-ipk / provision?)",
        ),
        GroupSettingsClass::Corrupt { key, reason } => MatError::new(
            ErrorKind::StoreParse,
            "inconsistent ipk rotation state at ".to_owned().concat(key).concat(": ").concat(
                reason,
            ),
        ),
        _ => MatError::new(
            ErrorKind::Other,
            "controller kvs ipk rotation write failed: ".to_owned().concat(&f.text),
        ),
    }
}

/// A failed write of the group settings names what is in the way: the group
/// and the key set of a binding that is there already, or the reason.
pub proof fn law_settings_failures_are_told_apart(f: GroupSettingsFailure, main_ini: Seq<char>)
    ensures
        write_error(f).kind == ErrorKind::Other,
        f.class is NotFound ==> list_error(f, main_ini).kind == ErrorKind::StoreMissing
            && list_error(
            f,
            main_ini,
        ).detail.take(main_ini.len() as int) == main_ini,
        f.class is Corrupt ==> list_error(f, main_ini).kind == ErrorKind::StoreParse && list_error(
            f,
            main_ini,
        ).detail == f.text@,
        f.class is Locked || f.class is Other || f.class is DuplicateBind ==> list_error(
            f,
            main_ini,
        ).kind == ErrorKind::Other,
        rotation_error(f).kind == if f.class is Corrupt {
            ErrorKind::StoreParse
        } else {
            ErrorKind::Other
        },
        f.class matches GroupSettingsClass::DuplicateBind { group_id, keyset_id } ==> text::occurs(
            write_error(f).detail,
            "keyset "@ + text::dec(keyset_id as nat) + " is already bound to group "@ + text::dec(
                group_id as nat,
            ),
        ),
        f.class is Other || f.class is NotFound || f.class is Corrupt ==> text::occurs(
            write_error(f).detail,
            f.text@,
        ),
{
    if f.class is NotFound {
        assert(list_error(f, main_ini).detail.take(main_ini.len() as int) =~= main_ini);
    }
    let d = write_error(f).detail;
    match f.class {
        GroupSettingsClass::DuplicateBind { group_id, keyset_id } => {
            let part = "keyset "@ + text::dec(keyset_id as nat) + " is already bound to group "@
                + text::dec(group_id as nat);
            assert(d.subrange(0, part.len() as int) =~= part);
            assert(text::occurs_at(d, part, 0));
        },
        GroupSettingsClass::Locked => {},
        _ => {
            let k: int = d.len() - f.text@.len();
            assert(d.subrange(k, k + f.text@.len()) =~= f.text@);
            assert(text::occurs_at(d, f.text@, k));
        },
    }
}

} // verus!
