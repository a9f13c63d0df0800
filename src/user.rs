//! Resolution of an image's user string (`uid`, `user`, `uid:gid`,
//! `uid:group`, `user:gid`, `user:group`) against the `passwd` and `group`
//! databases of the container's root filesystem.
use vstd::prelude::*;
use vstd::string::StringSliceAdditionalSpecFns;

use crate::text::{
    alnum_run, is_alnum, lemma_alnum_run_exact, alnum_run_len, bytes_eq, copy_bytes, decimal_u32, parse_decimal_u32, split,
    split_bytes, views,
};

verus! {

/// One record of `/etc/passwd`: name, uid and primary gid.
pub struct EtcPasswdEntry {
    pub username: Vec<u8>,
    pub uid: u32,
    pub gid: u32,
}

/// One record of `/etc/group`: name, gid and member list.
pub struct EtcGroupEntry {
    pub groupname: Vec<u8>,
    pub gid: u32,
    pub users: Vec<Vec<u8>>,
}

impl View for EtcPasswdEntry {
    type V = (Seq<u8>, u32, u32);

    open spec fn view(&self) -> (Seq<u8>, u32, u32) {
        (self.username@, self.uid, self.gid)
    }
}

impl View for EtcGroupEntry {
    type V = (Seq<u8>, u32, Seq<Seq<u8>>);

    open spec fn view(&self) -> (Seq<u8>, u32, Seq<Seq<u8>>) {
        (self.groupname@, self.gid, views(self.users@))
    }
}

/// The user string could not be mapped to a uid and gid.
#[derive(Debug, PartialEq, Eq, Clone, Copy, Structural)]
pub enum UserError {
    Unresolved,
}

pub const COLON: u8 = 58;

pub const NEWLINE: u8 = 10;

pub const COMMA: u8 = 44;

pub const HASH: u8 = 35;

pub open spec fn is_comment(line: Seq<u8>) -> bool {
    line.len() > 0 && line[0] == HASH
}

/// A `passwd` line: at least four colon-separated fields, the third and
/// fourth decimal.
pub open spec fn passwd_record(line: Seq<u8>) -> Option<(Seq<u8>, u32, u32)> {
    let f = split(line, COLON);
    if is_comment(line) || f.len() < 4 {
        None
    } else {
        match (decimal_u32(f[2]), decimal_u32(f[3])) {
            (Some(u), Some(g)) => Some((f[0], u, g)),
            _ => None,
        }
    }
}

/// A `group` line: at least four colon-separated fields, the third decimal,
/// the fourth a comma-separated member list.
pub open spec fn group_record(line: Seq<u8>) -> Option<(Seq<u8>, u32, Seq<Seq<u8>>)> {
    let f = split(line, COLON);
    if is_comment(line) || f.len() < 4 {
        None
    } else {
        match decimal_u32(f[2]) {
            Some(g) => Some((f[0], g, split(f[3], COMMA))),
            None => None,
        }
    }
}

pub open spec fn passwd_records(ls: Seq<Seq<u8>>) -> Seq<(Seq<u8>, u32, u32)>
    decreases ls.len(),
{
    if ls.len() == 0 {
        seq![]
    } else {
        let r = passwd_records(ls.drop_last());
        match passwd_record(ls.last()) {
            Some(e) => r.push(e),
            None => r,
        }
    }
}

pub open spec fn group_records(ls: Seq<Seq<u8>>) -> Seq<(Seq<u8>, u32, Seq<Seq<u8>>)>
    decreases ls.len(),
{
    if ls.len() == 0 {
        seq![]
    } else {
        let r = group_records(ls.drop_last());
        match group_record(ls.last()) {
            Some(e) => r.push(e),
            None => r,
        }
    }
}

/// The well-formed records of a `passwd` file, in file order.
pub open spec fn passwd_entries(text: Seq<u8>) -> Seq<(Seq<u8>, u32, u32)> {
    passwd_records(split(text, NEWLINE))
}

/// The well-formed records of a `group` file, in file order.
pub open spec fn group_entries(text: Seq<u8>) -> Seq<(Seq<u8>, u32, Seq<Seq<u8>>)> {
    group_records(split(text, NEWLINE))
}

/// `(uid, gid)` of the first record named `name`.
pub open spec fn user_named(es: Seq<(Seq<u8>, u32, u32)>, name: Seq<u8>) -> Option<(u32, u32)>
    decreases es.len(),
{
    if es.len() == 0 {
        None
    } else if es[0].0 == name {
        Some((es[0].1, es[0].2))
    } else {
        user_named(es.drop_first(), name)
    }
}

/// `(uid, gid)` of the first record with uid `uid`.
pub open spec fn user_with_uid(es: Seq<(Seq<u8>, u32, u32)>, uid: u32) -> Option<(u32, u32)>
    decreases es.len(),
{
    if es.len() == 0 {
        None
    } else if es[0].1 == uid {
        Some((es[0].1, es[0].2))
    } else {
        user_with_uid(es.drop_first(), uid)
    }
}

/// The gid of the first group record named `name`.
pub open spec fn group_named(gs: Seq<(Seq<u8>, u32, Seq<Seq<u8>>)>, name: Seq<u8>) -> Option<u32>
    decreases gs.len(),
{
    if gs.len() == 0 {
        None
    } else if gs[0].0 == name {
        Some(gs[0].1)
    } else {
        group_named(gs.drop_first(), name)
    }
}

pub open spec fn passwd_view(es: Seq<EtcPasswdEntry>) -> Seq<(Seq<u8>, u32, u32)> {
    es.map_values(|e: EtcPasswdEntry| e@)
}

pub open spec fn group_view(gs: Seq<EtcGroupEntry>) -> Seq<(Seq<u8>, u32, Seq<Seq<u8>>)> {
    gs.map_values(|g: EtcGroupEntry| g@)
}

/// Reads one `passwd` line.
pub fn parse_passwd_line(line: &[u8]) -> (r: Option<EtcPasswdEntry>)
    ensures
        match r {
            Some(e) => passwd_record(line@) == Some(e@),
            None => passwd_record(line@) is None,
        },
{
    if line.len() > 0 && line[0] == HASH {
        return None;
    }
    let f = split_bytes(line, COLON);
    if f.len() < 4 {
        return None;
    }
    assert(views(f@)[0] == f@[0]@ && views(f@)[2] == f@[2]@ && views(f@)[3] == f@[3]@);
    let uid = parse_decimal_u32(f[2].as_slice());
    let gid = parse_decimal_u32(f[3].as_slice());
    match (uid, gid) {
        (Some(u), Some(g)) => Some(EtcPasswdEntry { username: copy_bytes(f[0].as_slice()), uid: u, gid: g }),
        _ => None,
    }
}

/// Reads one `group` line.
pub fn parse_group_line(line: &[u8]) -> (r: Option<EtcGroupEntry>)
    ensures
        match r {
            Some(e) => group_record(line@) == Some(e@),
            None => group_record(line@) is None,
        },
{
    if line.len() > 0 && line[0] == HASH {
        return None;
    }
    let f = split_bytes(line, COLON);
    if f.len() < 4 {
        return None;
    }
    assert(views(f@)[0] == f@[0]@ && views(f@)[2] == f@[2]@ && views(f@)[3] == f@[3]@);
    match parse_decimal_u32(f[2].as_slice()) {
        Some(g) => Some(
            EtcGroupEntry {
                groupname: copy_bytes(f[0].as_slice()),
                gid: g,
                users: split_bytes(f[3].as_slice(), COMMA),
            },
        ),
        None => None,
    }
}

/// The well-formed records of a `passwd` file; comments and malformed
/// lines are skipped.
pub fn etc_passwd_entries(text: &[u8]) -> (r: Vec<EtcPasswdEntry>)
    ensures
        passwd_view(r@) == passwd_entries(text@),
{
    let lines = split_bytes(text, NEWLINE);
    let mut out: Vec<EtcPasswdEntry> = Vec::new();
    let mut i: usize = 0;
    while i < lines.len()
        invariant
            i <= lines@.len(),
            views(lines@) == split(text@, NEWLINE),
            passwd_view(out@) == passwd_records(views(lines@).take(i as int)),
        decreases lines@.len() - i,
    {
        let ghost ls = views(lines@);
        assert(ls.take(i as int + 1).drop_last() =~= ls.take(i as int));
        assert(ls.take(i as int + 1).last() == lines@[i as int]@);
        let ghost old_out = out@;
        match parse_passwd_line(lines[i].as_slice()) {
            Some(e) => {
                out.push(e);
                assert(passwd_view(out@) =~= passwd_view(old_out).push(out@.last()@));
            },
            None => {},
        }
        i = i + 1;
    }
    assert(views(lines@).take(i as int) =~= views(lines@));
    out
}

/// The well-formed records of a `group` file; comments and malformed
/// lines are skipped.
pub fn etc_group_entries(text: &[u8]) -> (r: Vec<EtcGroupEntry>)
    ensures
        group_view(r@) == group_entries(text@),
{
    let lines = split_bytes(text, NEWLINE);
    let mut out: Vec<EtcGroupEntry> = Vec::new();
    let mut i: usize = 0;
    while i < lines.len()
        invariant
            i <= lines@.len(),
            views(lines@) == split(text@, NEWLINE),
            group_view(out@) == group_records(views(lines@).take(i as int)),
        decreases lines@.len() - i,
    {
        let ghost ls = views(lines@);
        assert(ls.take(i as int + 1).drop_last() =~= ls.take(i as int));
        assert(ls.take(i as int + 1).last() == lines@[i as int]@);
        let ghost old_out = out@;
        match parse_group_line(lines[i].as_slice()) {
            Some(e) => {
                out.push(e);
                assert(group_view(out@) =~= group_view(old_out).push(out@.last()@));
            },
            None => {},
        }
        i = i + 1;
    }
    assert(views(lines@).take(i as int) =~= views(lines@));
    out
}

/// The first `passwd` record named `name`, as `(uid, gid)`.
pub fn find_user_by_name(entries: &[EtcPasswdEntry], name: &[u8]) -> (r: Option<(u32, u32)>)
    ensures
        r == user_named(passwd_view(entries@), name@),
{
    let ghost es = passwd_view(entries@);
    assert(es.skip(0) =~= es);
    let mut i: usize = 0;
    while i < entries.len()
        invariant
            i <= entries@.len(),
            es == passwd_view(entries@),
            user_named(es, name@) == user_named(es.skip(i as int), name@),
        decreases entries@.len() - i,
    {
        assert(es.skip(i as int)[0] == entries@[i as int]@);
        assert(es.skip(i as int).drop_first() =~= es.skip(i as int + 1));
        if bytes_eq(entries[i].username.as_slice(), name) {
            return Some((entries[i].uid, entries[i].gid));
        }
        i = i + 1;
    }
    None
}

/// The first `passwd` record with uid `uid`, as `(uid, gid)`.
pub fn find_user_by_uid(entries: &[EtcPasswdEntry], uid: u32) -> (r: Option<(u32, u32)>)
    ensures
        r == user_with_uid(passwd_view(entries@), uid),
{
    let ghost es = passwd_view(entries@);
    assert(es.skip(0) =~= es);
    let mut i: usize = 0;
    while i < entries.len()
        invariant
            i <= entries@.len(),
            es == passwd_view(entries@),
            user_with_uid(es, uid) == user_with_uid(es.skip(i as int), uid),
        decreases entries@.len() - i,
    {
        assert(es.skip(i as int)[0] == entries@[i as int]@);
        assert(es.skip(i as int).drop_first() =~= es.skip(i as int + 1));
        if entries[i].uid == uid {
            return Some((entries[i].uid, entries[i].gid));
        }
        i = i + 1;
    }
    None
}

/// The gid of the first `group` record named `name`.
pub fn find_group_by_name(groups: &[EtcGroupEntry], name: &[u8]) -> (r: Option<u32>)
    ensures
        r == group_named(group_view(groups@), name@),
{
    let ghost gs = group_view(groups@);
    assert(gs.skip(0) =~= gs);
    let mut i: usize = 0;
    while i < groups.len()
        invariant
            i <= groups@.len(),
            gs == group_view(groups@),
            group_named(gs, name@) == group_named(gs.skip(i as int), name@),
        decreases groups@.len() - i,
    {
        assert(gs.skip(i as int)[0] == groups@[i as int]@);
        assert(gs.skip(i as int).drop_first() =~= gs.skip(i as int + 1));
        if bytes_eq(groups[i].groupname.as_slice(), name) {
            return Some(groups[i].gid);
        }
        i = i + 1;
    }
    None
}

/// What a user string resolves to, trying in turn `uid:gid`, `uid:group`,
/// `user:group`, `user:gid`, `user` and `uid`. Each form reads the longest
/// `[A-Za-z0-9]` runs at the start of `s`; text after them is ignored.
pub open spec fn resolve_user(
    s: Seq<u8>,
    pw: Seq<(Seq<u8>, u32, u32)>,
    gr: Seq<(Seq<u8>, u32, Seq<Seq<u8>>)>,
) -> Option<(u32, u32)> {
    let n1 = alnum_run(s, 0);
    let t1 = s.take(n1);
    let n2 = alnum_run(s, n1 + 1);
    let t2 = s.subrange(n1 + 1, n1 + 1 + n2);
    let pair = n1 < s.len() && s[n1] == COLON && n2 > 0;
    let u1 = decimal_u32(t1);
    let u2 = decimal_u32(t2);
    if n1 == 0 {
        None
    } else if pair && u1 is Some && u2 is Some {
        Some((u1->0, u2->0))
    } else if pair && u1 is Some && group_named(gr, t2) is Some {
        Some((u1->0, group_named(gr, t2)->0))
    } else if pair && user_named(pw, t1) is Some && group_named(gr, t2) is Some {
        Some(((user_named(pw, t1)->0).0, group_named(gr, t2)->0))
    } else if pair && user_named(pw, t1) is Some && u2 is Some {
        Some(((user_named(pw, t1)->0).0, u2->0))
    } else if user_named(pw, t1) is Some {
        user_named(pw, t1)
    } else if u1 is Some {
        user_with_uid(pw, u1->0)
    } else {
        None
    }
}

/// Maps a user string to `(uid, gid)`, looking names and uids up in the
/// given `passwd` and `group` file contents only where the string does not
/// carry both numbers.
pub fn parse(user: &str, passwd: &[u8], group: &[u8]) -> (r: Result<(u32, u32), UserError>)
    ensures
        match resolve_user(user.spec_bytes(), passwd_entries(passwd@), group_entries(group@)) {
            Some(p) => r == Ok::<(u32, u32), UserError>(p),
            None => r == Err::<(u32, u32), UserError>(UserError::Unresolved),
        },
{
    let s = user.as_bytes();
    let n1 = alnum_run_len(s, 0);
    if n1 == 0 {
        return Err(UserError::Unresolved);
    }
    let t1 = &s[0..n1];
    let n2 = if n1 < s.len() && s[n1] == COLON { alnum_run_len(s, n1 + 1) } else { 0 };
    let pair = n1 < s.len() && s[n1] == COLON && n2 > 0;
    let t2: &[u8] = if pair { &s[n1 + 1..n1 + 1 + n2] } else { &s[0..0] };
    assert(t1@ == s@.take(n1 as int));
    let u1 = parse_decimal_u32(t1);
    let u2 = if pair { parse_decimal_u32(t2) } else { None };
    let pw = etc_passwd_entries(passwd);
    let gr = etc_group_entries(group);
    if pair {
        assert(t2@ == s@.subrange(n1 + 1, n1 + 1 + n2));
        assert(n2 == alnum_run(s@, n1 + 1));
        if let (Some(a), Some(b)) = (u1, u2) {
            return Ok((a, b));
        }
        let g = find_group_by_name(gr.as_slice(), t2);
        if let (Some(a), Some(gid)) = (u1, g) {
            return Ok((a, gid));
        }
        let u = find_user_by_name(pw.as_slice(), t1);
        if let (Some(p), Some(gid)) = (u, g) {
            return Ok((p.0, gid));
        }
        if let (Some(p), Some(b)) = (u, u2) {
            return Ok((p.0, b));
        }
    }
    match find_user_by_name(pw.as_slice(), t1) {
        Some(p) => Ok(p),
        None => match u1 {
            Some(a) => match find_user_by_uid(pw.as_slice(), a) {
                Some(p) => Ok(p),
                None => Err(UserError::Unresolved),
            },
            None => Err(UserError::Unresolved),
        },
    }
}

/// A user string `uid:gid` made of two decimal numbers resolves to exactly
/// that pair, whatever the `passwd` and `group` databases hold.
pub proof fn lemma_numeric_pair_resolves(
    uid: Seq<u8>,
    gid: Seq<u8>,
    pw: Seq<(Seq<u8>, u32, u32)>,
    gr: Seq<(Seq<u8>, u32, Seq<Seq<u8>>)>,
)
    requires
        decimal_u32(uid) is Some,
        decimal_u32(gid) is Some,
    ensures
        resolve_user(uid + seq![COLON] + gid, pw, gr) == Some(
            (decimal_u32(uid)->0, decimal_u32(gid)->0),
        ),
{
    let s = uid + seq![COLON] + gid;
    let n = uid.len() as int;
    assert forall|j: int| 0 <= j < n implies is_alnum(#[trigger] s[j]) by {
        assert(s[j] == uid[j]);
    }
    lemma_alnum_run_exact(s, 0, n);
    assert forall|j: int| n + 1 <= j < n + 1 + gid.len() implies is_alnum(#[trigger] s[j]) by {
        assert(s[j] == gid[j - n - 1]);
    }
    lemma_alnum_run_exact(s, n + 1, gid.len() as int);
    assert(s.take(n) =~= uid);
    assert(s.subrange(n + 1, n + 1 + gid.len()) =~= gid);
}

} // verus!
