//! What mounting a configuration's filesystems asks of the host: the
//! `nmount(2)` parameters of a mount and the devfs rules that hide every
//! device node but a default set.
use vstd::prelude::*;
use vstd::string::StrSliceExecFns;
use vstd::string::StringExecFns;

use crate::lifecycle::{decode_env_entry, env_entry};
use crate::paths::{prefixed, prefixed_destination};
use crate::runtime_config::Mount;

verus! {

/// The name/value parameters of one `nmount(2)` call.
pub struct MountRequest {
    pub fstype: String,
    pub source: String,
    pub destination: String,
    /// `key=value` options as `(key, Some(value))`, bare flags as `(key, None)`.
    pub options: Vec<(String, Option<String>)>,
}

/// Why a mount could not be described.
#[derive(Debug, PartialEq, Eq, Clone, Copy, Structural)]
pub enum MountError {
    MissingKind,
    PatternTooLong,
}

/// One mount option as a parameter pair: split at its first `=`.
pub open spec fn option_pair(o: Seq<char>) -> (Seq<char>, Option<Seq<char>>) {
    match env_entry(o) {
        Some((k, v)) => (k, Some(v)),
        None => (o, None),
    }
}

pub open spec fn option_view(p: (String, Option<String>)) -> (Seq<char>, Option<Seq<char>>) {
    (
        p.0@,
        match p.1 {
            Some(v) => Some(v@),
            None => None,
        },
    )
}

pub open spec fn opt_text(o: Option<String>) -> Option<Seq<char>> {
    match o {
        Some(s) => Some(s@),
        None => None,
    }
}

/// Describes mounting `m` under `rootfs`: its type, its source (the type
/// when it names none), its destination placed under `rootfs`, and its
/// options.
pub fn mount_request(m: &Mount, rootfs: &str) -> (r: Result<MountRequest, MountError>)
    ensures
        match m.kind {
            None => r == Err::<MountRequest, MountError>(MountError::MissingKind),
            Some(k) => r matches Ok(q) && q.fstype@ == k@ && q.source@ == (match m.source {
                Some(s) => s@,
                None => k@,
            }) && q.destination@ == prefixed(rootfs@, m.destination@) && q.options@.map_values(
                |p: (String, Option<String>)| option_view(p),
            ) == (match m.options {
                Some(os) => os@.map_values(|o: String| option_pair(o@)),
                None => seq![],
            }),
        },
{
    let fstype = match &m.kind {
        Some(k) => k.clone(),
        None => return Err(MountError::MissingKind),
    };
    let source = match &m.source {
        Some(s) => s.clone(),
        None => fstype.clone(),
    };
    let mut options: Vec<(String, Option<String>)> = Vec::new();
    match &m.options {
        None => {
            assert(options@.map_values(|p: (String, Option<String>)| option_view(p)) =~= seq![]);
        },
        Some(os) => {
            let mut i: usize = 0;
            while i < os.len()
                invariant
                    i <= os@.len(),
                    options@.map_values(|p: (String, Option<String>)| option_view(p))
                        == os@.take(i as int).map_values(|o: String| option_pair(o@)),
                decreases os@.len() - i,
            {
                let pair = match decode_env_entry(os[i].as_str()) {
                    Some((k, v)) => (k, Some(v)),
                    None => (os[i].clone(), None),
                };
                let ghost o = options@;
                options.push(pair);
                assert(options@.map_values(|p: (String, Option<String>)| option_view(p)) =~= o.map_values(
                    |p: (String, Option<String>)| option_view(p),
                ).push(option_pair(os@[i as int]@)));
                assert(os@.take(i as int + 1).map_values(|o: String| option_pair(o@)) =~= os@.take(
                    i as int,
                ).map_values(|o: String| option_pair(o@)).push(option_pair(os@[i as int]@)));
                i = i + 1;
            }
            assert(os@.take(i as int) =~= os@);
        },
    }
    Ok(
        MountRequest {
            fstype,
            source,
            destination: prefixed_destination(rootfs, m.destination.as_str()),
            options,
        },
    )
}

/// The magic number a devfs rule carries.
pub const DEVFS_MAGIC: u32 = 0xdb0a087a;

/// Rule action: change the node's visibility.
pub const DRA_BACTS: i32 = 1;

pub const DRB_HIDE: i32 = 1;

pub const DRB_UNHIDE: i32 = 2;

/// Rule condition: the node's path matches a pattern.
pub const DRC_PATHPTRN: i32 = 2;

/// The longest path pattern a rule holds.
pub const PATTERN_MAX: usize = 199;

/// A devfs rule: `(bacts, icond, pathptrn)`.
pub struct DevfsRule {
    pub magic: u32,
    pub iacts: i32,
    pub bacts: i32,
    pub icond: i32,
    pub pathptrn: String,
}

/// A devfs rule to apply to a mounted devfs.
pub enum Operation {
    HideAll,
    Unhide(String),
}

impl Operation {
    /// The rule for this operation: hide every node, or unhide the nodes
    /// matching a pattern of at most 199 characters.
    pub fn rule(&self) -> (r: Result<DevfsRule, MountError>)
        ensures
            match self {
                Operation::HideAll => r matches Ok(x) && x.magic == DEVFS_MAGIC && x.iacts
                    == DRA_BACTS && x.bacts == DRB_HIDE && x.icond == 0 && x.pathptrn@.len() == 0,
                Operation::Unhide(p) => if p@.len() <= PATTERN_MAX {
                    r matches Ok(x) && x.magic == DEVFS_MAGIC && x.iacts == DRA_BACTS && x.bacts
                        == DRB_UNHIDE && x.icond == DRC_PATHPTRN && x.pathptrn@ == p@
                } else {
                    r == Err::<DevfsRule, MountError>(MountError::PatternTooLong)
                },
            },
    {
        match self {
            Operation::HideAll => Ok(
                DevfsRule {
                    magic: DEVFS_MAGIC,
                    iacts: DRA_BACTS,
                    bacts: DRB_HIDE,
                    icond: 0,
                    pathptrn: String::new(),
                },
            ),
            Operation::Unhide(p) => {
                if p.as_str().unicode_len() > PATTERN_MAX {
                    return Err(MountError::PatternTooLong);
                }
                Ok(
                    DevfsRule {
                        magic: DEVFS_MAGIC,
                        iacts: DRA_BACTS,
                        bacts: DRB_UNHIDE,
                        icond: DRC_PATHPTRN,
                        pathptrn: p.clone(),
                    },
                )
            },
        }
    }
}

/// The device nodes a container's devfs shows.
pub open spec fn default_devices() -> Seq<Seq<char>> {
    seq![
        "null"@,
        "zero"@,
        "full"@,
        "random"@,
        "urandom"@,
        "tty"@,
        "console"@,
        "pts"@,
        "pts/*"@,
        "fd"@,
    ]
}

pub open spec fn operation_view(o: Operation) -> Option<Seq<char>> {
    match o {
        Operation::HideAll => None,
        Operation::Unhide(p) => Some(p@),
    }
}

/// The rules for a freshly mounted devfs: hide everything, then unhide
/// the default devices in turn.
pub fn devfs_operations() -> (r: Vec<Operation>)
    ensures
        r@.map_values(|o: Operation| operation_view(o)) == seq![None::<Seq<char>>]
            + default_devices().map_values(|d: Seq<char>| Some(d)),
{
    let mut r: Vec<Operation> = Vec::new();
    r.push(Operation::HideAll);
    r.push(Operation::Unhide(String::from_str("null")));
    r.push(Operation::Unhide(String::from_str("zero")));
    r.push(Operation::Unhide(String::from_str("full")));
    r.push(Operation::Unhide(String::from_str("random")));
    r.push(Operation::Unhide(String::from_str("urandom")));
    r.push(Operation::Unhide(String::from_str("tty")));
    r.push(Operation::Unhide(String::from_str("console")));
    r.push(Operation::Unhide(String::from_str("pts")));
    r.push(Operation::Unhide(String::from_str("pts/*")));
    r.push(Operation::Unhide(String::from_str("fd")));
    assert(r@.map_values(|o: Operation| operation_view(o)) =~= seq![None::<Seq<char>>]
        + default_devices().map_values(|d: Seq<char>| Some(d)));
    r
}

/// The rules to apply after mounting `m`: the devfs rules for a devfs,
/// none otherwise.
pub fn post_mount_operations(m: &Mount) -> (r: Vec<Operation>)
    ensures
        (m.kind matches Some(k) && k@ == "devfs"@) ==> r@.map_values(
            |o: Operation| operation_view(o),
        ) == seq![None::<Seq<char>>] + default_devices().map_values(|d: Seq<char>| Some(d)),
        !(m.kind matches Some(k) && k@ == "devfs"@) ==> r@.len() == 0,
{
    match &m.kind {
        Some(k) => {
            let devfs = String::from_str("devfs");
            if *k == devfs {
                return devfs_operations();
            }
            Vec::new()
        },
        None => Vec::new(),
    }
}

} // verus!
