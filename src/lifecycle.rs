//! The OCI lifecycle of a container's processes: a state machine over the
//! process records of the store. Work on the host (jails, spawning,
//! waiting, signals) is done by the caller between the steps.
use vstd::prelude::*;
use vstd::string::StrSliceExecFns;
use vstd::string::StringExecFns;
use vstd::string::StringSliceAdditionalSpecFns;
use vstd::utf8::encode_utf8;

use crate::image_config::{strs, copy_strings};
use crate::paths::{prefixed, prefixed_destination};
use crate::runtime_config::{Mount, Process, RuntimeConfig, Root};
use crate::shim::StdioTriple;
use crate::storage::{lookup, store, Storage};
use crate::text::copy_bytes;

verus! {

/// The state of one process of a container.
#[derive(Debug, PartialEq, Eq, Clone, Copy, Structural)]
pub enum ProcessStatus {
    Created,
    Starting,
    Running,
    Stopped,
}

/// The lowercase name of a status.
pub open spec fn status_name(s: ProcessStatus) -> Seq<char> {
    match s {
        ProcessStatus::Created => "created"@,
        ProcessStatus::Starting => "starting"@,
        ProcessStatus::Running => "running"@,
        ProcessStatus::Stopped => "stopped"@,
    }
}

impl ProcessStatus {
    /// The lowercase name of the status, as the state command reports it.
    pub fn name(&self) -> (r: String)
        ensures
            r@ == status_name(*self),
    {
        match self {
            ProcessStatus::Created => String::from_str("created"),
            ProcessStatus::Starting => String::from_str("starting"),
            ProcessStatus::Running => String::from_str("running"),
            ProcessStatus::Stopped => String::from_str("stopped"),
        }
    }
}

/// The stored record of one process.
pub struct OciStatus {
    pub oci_version: String,
    pub status: ProcessStatus,
    pub pid: i32,
    pub jid: i32,
    pub exit_status: Option<i32>,
    /// Seconds since the Unix epoch.
    pub exited_at: u64,
}

/// A compare-and-swap found another value than the one expected.
#[derive(Debug, PartialEq, Eq, Clone, Copy, Structural)]
pub enum StoreError {
    Conflict,
}

impl StoreError {
    /// The error's message.
    pub fn message(&self) -> (r: String)
        ensures
            r@ == "Compare and swap conflict"@,
    {
        String::from_str("Compare and swap conflict")
    }
}

/// Why a lifecycle step was refused.
#[derive(Debug, PartialEq, Eq, Clone, Copy, Structural)]
pub enum LifecycleError {
    AlreadyExists,
    NotFound,
    InvalidState,
    Conflict,
    MissingRoot,
    MissingProcess,
    MissingCommand,
    ReservedExecId,
}

/// Two records hold the same values.
pub open spec fn same_record(a: OciStatus, b: OciStatus) -> bool {
    a.oci_version@ == b.oci_version@ && a.status == b.status && a.pid == b.pid && a.jid == b.jid
        && a.exit_status == b.exit_status && a.exited_at == b.exited_at
}

pub open spec fn oci_version_text() -> Seq<char> {
    "1.0.2-dev-freebsd"@
}

/// The record a new process starts with.
pub open spec fn is_fresh_record(r: OciStatus) -> bool {
    r.oci_version@ == oci_version_text() && r.status == ProcessStatus::Created && r.pid == 0
        && r.jid == 0 && r.exit_status is None && r.exited_at == 0
}

/// `b` is `a` with only the status changed.
pub open spec fn with_status(a: OciStatus, b: OciStatus, s: ProcessStatus) -> bool {
    b.oci_version@ == a.oci_version@ && b.status == s && b.pid == a.pid && b.jid == a.jid
        && b.exit_status == a.exit_status && b.exited_at == a.exited_at
}

/// A launch creates the process's record (a compare-and-swap from nothing
/// to `Created`), so it goes ahead only on a process that has no record
/// yet, whatever state an existing record is in.
pub open spec fn admits_launch(rec: Option<OciStatus>) -> bool {
    rec is None
}

/// There is a record and it is in state `s`.
pub open spec fn status_is(rec: Option<OciStatus>, s: ProcessStatus) -> bool {
    rec matches Some(r) && r.status == s
}

/// The status `state` reports: a `Running` record whose jail is gone reads
/// as `Stopped`.
pub open spec fn observed_status(s: ProcessStatus, jail_running: bool) -> ProcessStatus {
    if s == ProcessStatus::Running && !jail_running {
        ProcessStatus::Stopped
    } else {
        s
    }
}

/// Index of the first `=` in `s` at or after `i`, or `-1`.
pub open spec fn first_eq_from(s: Seq<char>, i: int) -> int
    decreases s.len() - i,
{
    if i < 0 || i >= s.len() {
        -1
    } else if s[i] == '=' {
        i
    } else {
        first_eq_from(s, i + 1)
    }
}

/// An environment entry `NAME=value`, split at its first `=`.
pub open spec fn env_entry(s: Seq<char>) -> Option<(Seq<char>, Seq<char>)> {
    let k = first_eq_from(s, 0);
    if k >= 0 {
        Some((s.take(k), s.skip(k + 1)))
    } else {
        None
    }
}

/// The entries of an environment list that hold a `=`, split.
pub open spec fn env_entries(v: Seq<Seq<char>>) -> Seq<(Seq<char>, Seq<char>)>
    decreases v.len(),
{
    if v.len() == 0 {
        seq![]
    } else {
        let r = env_entries(v.drop_last());
        match env_entry(v.last()) {
            Some(p) => r.push(p),
            None => r,
        }
    }
}

pub open spec fn pairs_view(v: Seq<(String, String)>) -> Seq<(Seq<char>, Seq<char>)> {
    v.map_values(|p: (String, String)| (p.0@, p.1@))
}

/// Splits one environment entry at its first `=`.
pub fn decode_env_entry(entry: &str) -> (r: Option<(String, String)>)
    ensures
        match env_entry(entry@) {
            Some(p) => r matches Some(q) && q.0@ == p.0 && q.1@ == p.1,
            None => r is None,
        },
{
    let n = entry.unicode_len();
    let mut i: usize = 0;
    while i < n
        invariant
            n == entry@.len(),
            i <= n,
            first_eq_from(entry@, 0) == first_eq_from(entry@, i as int),
        decreases n - i,
    {
        if entry.get_char(i) == '=' {
            let k = String::from_str(entry.substring_char(0, i));
            let v = String::from_str(entry.substring_char(i + 1, n));
            assert(entry@.take(i as int) =~= entry@.subrange(0, i as int));
            assert(entry@.skip(i as int + 1) =~= entry@.subrange(i as int + 1, n as int));
            return Some((k, v));
        }
        i = i + 1;
    }
    None
}

/// The environment of a process as name/value pairs; entries without `=`
/// are dropped.
pub fn decode_env(env: &Option<Vec<String>>) -> (r: Vec<(String, String)>)
    ensures
        pairs_view(r@) == env_entries(match env {
            Some(v) => strs(v@),
            None => seq![],
        }),
{
    let mut out: Vec<(String, String)> = Vec::new();
    match env {
        None => {
            assert(pairs_view(out@) =~= seq![]);
            out
        },
        Some(v) => {
            let mut i: usize = 0;
            while i < v.len()
                invariant
                    i <= v@.len(),
                    pairs_view(out@) == env_entries(strs(v@).take(i as int)),
                decreases v@.len() - i,
            {
                let ghost sv = strs(v@);
                assert(sv.take(i as int + 1).drop_last() =~= sv.take(i as int));
                assert(sv.take(i as int + 1).last() == v@[i as int]@);
                let ghost o = out@;
                match decode_env_entry(v[i].as_str()) {
                    Some(p) => {
                        out.push(p);
                        assert(pairs_view(out@) =~= pairs_view(o).push((out@.last().0@, out@.last().1@)));
                    },
                    None => {},
                }
                i = i + 1;
            }
            assert(strs(v@).take(i as int) =~= strs(v@));
            out
        },
    }
}

impl OciStatus {
    /// A copy of the record.
    pub fn copy(&self) -> (r: OciStatus)
        ensures
            r == *self,
    {
        OciStatus {
            oci_version: self.oci_version.clone(),
            status: self.status,
            pid: self.pid,
            jid: self.jid,
            exit_status: self.exit_status,
            exited_at: self.exited_at,
        }
    }

    /// Whether both records hold the same values.
    pub fn same_as(&self, other: &OciStatus) -> (r: bool)
        ensures
            r == same_record(*self, *other),
    {
        self.oci_version == other.oci_version && self.status == other.status && self.pid
            == other.pid && self.jid == other.jid && self.exit_status == other.exit_status
            && self.exited_at == other.exited_at
    }

    /// The record of a process that has just been registered.
    pub fn fresh() -> (r: OciStatus)
        ensures
            is_fresh_record(r),
    {
        OciStatus {
            oci_version: String::from_str("1.0.2-dev-freebsd"),
            status: ProcessStatus::Created,
            pid: 0,
            jid: 0,
            exit_status: None,
            exited_at: 0,
        }
    }
}

} // verus!

verus! {

/// What the caller needs to spawn a process inside the container's jail.
pub struct LaunchPlan {
    pub command: String,
    pub args: Vec<String>,
    pub env: Vec<(String, String)>,
    pub cwd: String,
    pub uid: u32,
    pub gid: u32,
}

/// The process names a command: its argument list is present and not empty.
pub open spec fn has_command(p: Process) -> bool {
    p.args matches Some(a) && a@.len() > 0
}

/// `plan` runs `p` under `rootfs`: the first argument is the command, the
/// environment is decoded, the working directory placed under `rootfs`.
pub open spec fn plan_matches(plan: LaunchPlan, p: Process, rootfs: Seq<char>) -> bool {
    &&& p.args matches Some(a) && a@.len() > 0 && plan.command@ == a@[0]@ && strs(plan.args@)
        == strs(a@).skip(1)
    &&& pairs_view(plan.env@) == env_entries(
        match p.env {
            Some(v) => strs(v@),
            None => seq![],
        },
    )
    &&& plan.cwd@ == prefixed(rootfs, p.cwd@)
    &&& plan.uid == p.user.uid
    &&& plan.gid == p.user.gid
}

/// The mount points of `ms` under `root`, last declared first.
pub open spec fn unmount_order(root: Seq<char>, ms: Seq<Mount>) -> Seq<Seq<char>>
    decreases ms.len(),
{
    if ms.len() == 0 {
        seq![]
    } else {
        seq![prefixed(root, ms.last().destination@)] + unmount_order(root, ms.drop_last())
    }
}

pub open spec fn opt_mounts(ms: Option<Vec<Mount>>) -> Seq<Mount> {
    match ms {
        Some(v) => v@,
        None => seq![],
    }
}

/// The mount points of `ms` under `root`, last declared first.
pub fn unmount_targets(root: &str, ms: &Vec<Mount>) -> (r: Vec<String>)
    ensures
        strs(r@) == unmount_order(root@, ms@),
{
    let mut out: Vec<String> = Vec::new();
    let mut j: usize = ms.len();
    assert(ms@.take(j as int) =~= ms@);
    while j > 0
        invariant
            j <= ms@.len(),
            unmount_order(root@, ms@) == strs(out@) + unmount_order(root@, ms@.take(j as int)),
        decreases j,
    {
        let t = prefixed_destination(root, ms[j - 1].destination.as_str());
        let ghost o = out@;
        out.push(t);
        assert(ms@.take(j as int).drop_last() =~= ms@.take(j as int - 1));
        assert(strs(out@) =~= strs(o).push(t@));
        j = j - 1;
        assert(strs(out@) + unmount_order(root@, ms@.take(j as int)) =~= strs(o) + unmount_order(root@, ms@.take(j as int + 1)));
    }
    assert(ms@.take(0) =~= Seq::<Mount>::empty());
    assert(strs(out@) + Seq::<Seq<char>>::empty() =~= strs(out@));
    out
}

/// Prepares the launch of `p` under `rootfs`.
pub fn plan_launch(p: &Process, rootfs: &str) -> (r: Result<LaunchPlan, LifecycleError>)
    ensures
        has_command(*p) ==> (r matches Ok(plan) && plan_matches(plan, *p, rootfs@)),
        !has_command(*p) ==> r == Err::<LaunchPlan, LifecycleError>(LifecycleError::MissingCommand),
{
    let a = match &p.args {
        Some(a) => a,
        None => return Err(LifecycleError::MissingCommand),
    };
    if a.len() == 0 {
        return Err(LifecycleError::MissingCommand);
    }
    let command = a[0].clone();
    let mut args: Vec<String> = Vec::new();
    let mut i: usize = 1;
    while i < a.len()
        invariant
            1 <= i <= a@.len(),
            strs(args@) == strs(a@).subrange(1, i as int),
        decreases a@.len() - i,
    {
        let c = a[i].clone();
        let ghost o = args@;
        args.push(c);
        assert(strs(args@) =~= strs(o).push(a@[i as int]@));
        assert(strs(a@).subrange(1, i as int + 1) =~= strs(a@).subrange(1, i as int).push(a@[i as int]@));
        i = i + 1;
    }
    assert(strs(a@).subrange(1, i as int) =~= strs(a@).skip(1));
    Ok(
        LaunchPlan {
            command,
            args,
            env: decode_env(&p.env),
            cwd: prefixed_destination(rootfs, p.cwd.as_str()),
            uid: p.user.uid,
            gid: p.user.gid,
        },
    )
}

/// `post` is `pre` with no change to the store.
pub open spec fn unchanged(pre: OciOperations, post: OciOperations) -> bool {
    post.spec_key() == pre.spec_key() && post.spec_storage() == pre.spec_storage()
}

/// The record a launch leaves: a fresh record, now `Starting`.
pub open spec fn launched_record(x: OciStatus) -> bool {
    x.oci_version@ == oci_version_text() && x.status == ProcessStatus::Starting && x.pid == 0
        && x.jid == 0 && x.exit_status is None && x.exited_at == 0
}

/// `post` is `pre` with process `exec` launched: only its record changed,
/// to `Starting`.
pub open spec fn launched(pre: OciOperations, post: OciOperations, exec: Seq<u8>) -> bool {
    &&& post.spec_key() == pre.spec_key()
    &&& post.spec_storage().configs() == pre.spec_storage().configs()
    &&& post.spec_storage().container_stdio == pre.spec_storage().container_stdio
    &&& post.spec_storage().container_pty == pre.spec_storage().container_pty
    &&& post.record(exec) matches Some(x) && launched_record(x)
        && post.spec_storage().processes() == pre.spec_storage().processes().insert(
        pre.pkey(exec),
        x,
    )
}

/// What launching `exec` with the stored configuration's process does.
/// `create` registers the container only; the launch creates the process's
/// record, so any existing record (whatever its state) refuses it with
/// `InvalidState` and is left as it is.
pub open spec fn started(
    pre: OciOperations,
    post: OciOperations,
    exec: Seq<u8>,
    r: Result<LaunchPlan, LifecycleError>,
) -> bool {
    if !admits_launch(pre.record(exec)) {
        r == Err::<LaunchPlan, LifecycleError>(LifecycleError::InvalidState) && unchanged(pre, post)
    } else {
        match pre.config() {
            None => r == Err::<LaunchPlan, LifecycleError>(LifecycleError::NotFound) && unchanged(
                pre,
                post,
            ),
            Some(c) => match (c.process, c.root) {
                (None, _) => r == Err::<LaunchPlan, LifecycleError>(LifecycleError::MissingProcess)
                    && unchanged(pre, post),
                (Some(_), None) => r == Err::<LaunchPlan, LifecycleError>(
                    LifecycleError::MissingRoot,
                ) && unchanged(pre, post),
                (Some(p), Some(root)) => if has_command(p) {
                    r matches Ok(plan) && plan_matches(plan, p, root.path@) && launched(
                        pre,
                        post,
                        exec,
                    )
                } else {
                    r == Err::<LaunchPlan, LifecycleError>(LifecycleError::MissingCommand)
                        && unchanged(pre, post)
                },
            },
        }
    }
}

/// What launching `exec` with process `p` does: as for `started`, an
/// existing record refuses the launch and stays unchanged.
pub open spec fn executed(
    pre: OciOperations,
    post: OciOperations,
    exec: Seq<u8>,
    p: Process,
    r: Result<LaunchPlan, LifecycleError>,
) -> bool {
    if !admits_launch(pre.record(exec)) {
        r == Err::<LaunchPlan, LifecycleError>(LifecycleError::InvalidState) && unchanged(pre, post)
    } else {
        match pre.config() {
            None => r == Err::<LaunchPlan, LifecycleError>(LifecycleError::NotFound) && unchanged(
                pre,
                post,
            ),
            Some(c) => match c.root {
                None => r == Err::<LaunchPlan, LifecycleError>(LifecycleError::MissingRoot)
                    && unchanged(pre, post),
                Some(root) => if has_command(p) {
                    r matches Ok(plan) && plan_matches(plan, p, root.path@) && launched(
                        pre,
                        post,
                        exec,
                    )
                } else {
                    r == Err::<LaunchPlan, LifecycleError>(LifecycleError::MissingCommand)
                        && unchanged(pre, post)
                },
            },
        }
    }
}

/// `post` is `pre` with only the record of `exec` replaced by `x`.
pub open spec fn record_set(pre: OciOperations, post: OciOperations, exec: Seq<u8>, x: OciStatus) -> bool {
    &&& post.spec_key() == pre.spec_key()
    &&& post.spec_storage().configs() == pre.spec_storage().configs()
    &&& post.spec_storage().container_stdio == pre.spec_storage().container_stdio
    &&& post.spec_storage().container_pty == pre.spec_storage().container_pty
    &&& post.spec_storage().processes() == pre.spec_storage().processes().insert(pre.pkey(exec), x)
}

/// What recording the exit of `exec` does: its record reads `Stopped`,
/// without pid, with the exit code and time.
pub open spec fn exited(
    pre: OciOperations,
    post: OciOperations,
    exec: Seq<u8>,
    exit_status: Option<i32>,
    exited_at: u64,
    r: Result<(), LifecycleError>,
) -> bool {
    match pre.record(exec) {
        None => r == Err::<(), LifecycleError>(LifecycleError::NotFound) && unchanged(pre, post),
        Some(o) => {
            &&& r is Ok
            &&& post.record(exec) matches Some(x) && x.status == ProcessStatus::Stopped && x.pid == 0
                && x.jid == o.jid && x.oci_version@ == o.oci_version@ && x.exit_status
                == exit_status && x.exited_at == exited_at && record_set(pre, post, exec, x)
        },
    }
}

/// What deleting `exec` does: only a `Stopped` or `Created` process (as
/// observed) goes; the result lists the mount points to release.
pub open spec fn deleted(
    pre: OciOperations,
    post: OciOperations,
    exec: Seq<u8>,
    jail_running: bool,
    r: Result<Vec<String>, LifecycleError>,
) -> bool {
    match pre.record(exec) {
        None => r == Err::<Vec<String>, LifecycleError>(LifecycleError::NotFound) && unchanged(
            pre,
            post,
        ),
        Some(o) => {
            let s = observed_status(o.status, jail_running);
            if s != ProcessStatus::Stopped && s != ProcessStatus::Created {
                r == Err::<Vec<String>, LifecycleError>(LifecycleError::InvalidState) && unchanged(
                    pre,
                    post,
                )
            } else {
                &&& post.spec_key() == pre.spec_key()
                &&& post.spec_storage().configs() == pre.spec_storage().configs()
                &&& post.spec_storage().container_stdio == pre.spec_storage().container_stdio
                &&& post.spec_storage().container_pty == pre.spec_storage().container_pty
                &&& post.spec_storage().processes() == pre.spec_storage().processes().remove(
                    pre.pkey(exec),
                )
                &&& match pre.config() {
                    None => r == Err::<Vec<String>, LifecycleError>(LifecycleError::NotFound),
                    Some(c) => match c.root {
                        None => r == Err::<Vec<String>, LifecycleError>(
                            LifecycleError::MissingRoot,
                        ),
                        Some(root) => r matches Ok(v) && strs(v@) == unmount_order(
                            root.path@,
                            opt_mounts(c.mounts),
                        ),
                    },
                }
            }
        },
    }
}

/// The lifecycle operations of one container, identified by `key`.
pub struct OciOperations {
    storage: Storage,
    key: String,
}

impl OciOperations {
    pub closed spec fn spec_storage(&self) -> Storage {
        self.storage
    }

    pub closed spec fn spec_key(&self) -> Seq<char> {
        self.key@
    }

    pub open spec fn wf(&self) -> bool {
        self.spec_storage().wf()
    }

    /// The store key of the process `exec`: `<container-id>/<exec-id>`.
    pub open spec fn pkey(&self, exec: Seq<u8>) -> Seq<u8> {
        encode_utf8(self.spec_key()) + seq![47u8] + exec
    }

    /// The stored record of the process `exec`.
    pub open spec fn record(&self, exec: Seq<u8>) -> Option<OciStatus> {
        lookup(self.spec_storage().processes(), self.pkey(exec))
    }

    /// The stored runtime configuration of the container.
    pub open spec fn config(&self) -> Option<RuntimeConfig> {
        lookup(self.spec_storage().configs(), encode_utf8(self.spec_key()))
    }

    pub fn new(storage: Storage, key: &str) -> (r: OciOperations)
        ensures
            r.spec_storage() == storage,
            r.spec_key() == key@,
    {
        OciOperations { storage, key: String::from_str(key) }
    }

    pub fn storage(&self) -> (r: &Storage)
        ensures
            *r == self.spec_storage(),
    {
        &self.storage
    }

    pub fn key(&self) -> (r: &String)
        ensures
            r@ == self.spec_key(),
    {
        &self.key
    }

    /// Gives the store back.
    pub fn into_storage(self) -> (r: Storage)
        ensures
            r == self.spec_storage(),
    {
        self.storage
    }

    /// The store key of the process `exec_id`.
    pub fn process_id(&self, exec_id: &str) -> (r: Vec<u8>)
        ensures
            r@ == self.pkey(exec_id.spec_bytes()),
    {
        let mut r = copy_bytes(self.key.as_str().as_bytes());
        r.push(47);
        crate::text::extend_bytes(&mut r, exec_id.as_bytes());
        r
    }

    /// The stored record of the process `exec_id`.
    pub fn get_process(&self, exec_id: &str) -> (r: Result<OciStatus, LifecycleError>)
        requires
            self.wf(),
        ensures
            match self.record(exec_id.spec_bytes()) {
                Some(x) => r == Ok::<OciStatus, LifecycleError>(x),
                None => r == Err::<OciStatus, LifecycleError>(LifecycleError::NotFound),
            },
    {
        let k = self.process_id(exec_id);
        match self.storage.container_processes.get(k.as_slice()) {
            Some(x) => Ok(x.copy()),
            None => Err(LifecycleError::NotFound),
        }
    }

    /// Replaces the record of `exec_id` by `new` through a compare-and-swap
    /// against `current`.
    fn swap_record(&mut self, exec_id: &str, current: Option<OciStatus>, new: Option<OciStatus>) -> (r: Result<
        (),
        LifecycleError,
    >)
        requires
            old(self).wf(),
            current == old(self).record(exec_id.spec_bytes()),
        ensures
            final(self).wf(),
            r is Ok,
            final(self).spec_key() == old(self).spec_key(),
            final(self).spec_storage().configs() == old(self).spec_storage().configs(),
            final(self).spec_storage().container_stdio == old(self).spec_storage().container_stdio,
            final(self).spec_storage().container_pty == old(self).spec_storage().container_pty,
            final(self).spec_storage().processes() == store(
                old(self).spec_storage().processes(),
                old(self).pkey(exec_id.spec_bytes()),
                new,
            ),
    {
        let k = self.process_id(exec_id);
        match self.storage.compare_and_swap(k.as_slice(), current, new) {
            Ok(()) => Ok(()),
            Err(_) => Err(LifecycleError::Conflict),
        }
    }

    /// Registers `exec_id` as `Starting`, creating its record if there is
    /// none, once its launch has been planned.
    fn mark_starting(&mut self, exec_id: &str) -> (r: Result<(), LifecycleError>)
        requires
            old(self).wf(),
            admits_launch(old(self).record(exec_id.spec_bytes())),
        ensures
            final(self).wf(),
            r is Ok,
            launched(*old(self), *final(self), exec_id.spec_bytes()),
    {
        let created = OciStatus::fresh();
        let expected = created.copy();
        let ghost k = old(self).pkey(exec_id.spec_bytes());
        let ghost m0 = old(self).spec_storage().processes();
        let _ = self.swap_record(exec_id, None, Some(created));
        let next = OciStatus { status: ProcessStatus::Starting, ..expected.copy() };
        let ghost nx = next;
        let r = self.swap_record(exec_id, Some(expected), Some(next));
        assert(self.spec_storage().processes() =~= m0.insert(k, nx));
        r
    }

    /// Launches `exec_id` with the planned process: refused when the process
    /// has a record already; on success its record is created and reads
    /// `Starting`.
    fn launch(&mut self, exec_id: &str, plan: Result<LaunchPlan, LifecycleError>) -> (r: Result<
        LaunchPlan,
        LifecycleError,
    >)
        requires
            old(self).wf(),
        ensures
            final(self).wf(),
            !admits_launch(old(self).record(exec_id.spec_bytes())) ==> r == Err::<
                LaunchPlan,
                LifecycleError,
            >(LifecycleError::InvalidState) && unchanged(*old(self), *final(self)),
            admits_launch(old(self).record(exec_id.spec_bytes())) && plan is Err ==> r == plan
                && unchanged(*old(self), *final(self)),
            admits_launch(old(self).record(exec_id.spec_bytes())) && plan is Ok ==> (r == plan
                && launched(*old(self), *final(self), exec_id.spec_bytes())),
    {
        if self.get_process(exec_id).is_ok() {
            return Err(LifecycleError::InvalidState);
        }
        match plan {
            Ok(plan) => {
                let _ = self.mark_starting(exec_id);
                Ok(plan)
            },
            Err(e) => Err(e),
        }
    }

    /// Launches the container's main process, or another process under
    /// `exec_id`, with the process of the stored configuration.
    pub fn do_start(&mut self, exec_id: &str) -> (r: Result<LaunchPlan, LifecycleError>)
        requires
            old(self).wf(),
        ensures
            final(self).wf(),
            started(*old(self), *final(self), exec_id.spec_bytes(), r),
    {
        let plan = match self.storage.container_config.get(self.key.as_str().as_bytes()) {
            None => Err(LifecycleError::NotFound),
            Some(c) => match (&c.process, &c.root) {
                (None, _) => Err(LifecycleError::MissingProcess),
                (Some(_), None) => Err(LifecycleError::MissingRoot),
                (Some(p), Some(root)) => plan_launch(p, root.path.as_str()),
            },
        };
        self.launch(exec_id, plan)
    }

    /// Launches the container's main process.
    pub fn start(&mut self) -> (r: Result<LaunchPlan, LifecycleError>)
        requires
            old(self).wf(),
        ensures
            final(self).wf(),
            started(*old(self), *final(self), Seq::empty(), r),
    {
        proof {
            reveal_strlit("");
        }
        assert(""@ =~= Seq::<char>::empty());
        assert(encode_utf8(Seq::<char>::empty()) =~= Seq::<u8>::empty());
        self.do_start("")
    }

    /// Launches an additional process `p` in the running container; the
    /// main process's exec id `""` is refused.
    pub fn do_exec(&mut self, exec_id: &str, p: &Process) -> (r: Result<LaunchPlan, LifecycleError>)
        requires
            old(self).wf(),
        ensures
            final(self).wf(),
            exec_id@.len() == 0 ==> r == Err::<LaunchPlan, LifecycleError>(
                LifecycleError::ReservedExecId,
            ) && unchanged(*old(self), *final(self)),
            exec_id@.len() > 0 ==> executed(*old(self), *final(self), exec_id.spec_bytes(), *p, r),
    {
        if exec_id.is_empty() {
            return Err(LifecycleError::ReservedExecId);
        }
        let plan = match self.storage.container_config.get(self.key.as_str().as_bytes()) {
            None => Err(LifecycleError::NotFound),
            Some(c) => match &c.root {
                None => Err(LifecycleError::MissingRoot),
                Some(root) => plan_launch(p, root.path.as_str()),
            },
        };
        self.launch(exec_id, plan)
    }

    /// Records how the spawn of a `Starting` process went: `Some((pid, jid))`
    /// makes it `Running`, `None` (the spawn failed) makes it `Stopped`.
    pub fn spawned(&mut self, exec_id: &str, outcome: Option<(i32, i32)>) -> (r: Result<
        (),
        LifecycleError,
    >)
        requires
            old(self).wf(),
        ensures
            final(self).wf(),
            final(self).spec_key() == old(self).spec_key(),
            final(self).spec_storage().configs() == old(self).spec_storage().configs(),
            match old(self).record(exec_id.spec_bytes()) {
                None => r == Err::<(), LifecycleError>(LifecycleError::NotFound) && final(self).spec_storage() == old(self).spec_storage(),
                Some(o) => if o.status != ProcessStatus::Starting {
                    r == Err::<(), LifecycleError>(LifecycleError::InvalidState) && final(self).spec_storage() == old(self).spec_storage()
                } else {
                    &&& r is Ok
                    &&& final(self).record(exec_id.spec_bytes()) matches Some(x) && (match outcome {
                        Some((pid, jid)) => x.status == ProcessStatus::Running && x.pid == pid
                            && x.jid == jid && x.oci_version@ == o.oci_version@ && x.exit_status
                            == o.exit_status && x.exited_at == o.exited_at,
                        None => with_status(o, x, ProcessStatus::Stopped),
                    }) && final(self).spec_storage().processes() == old(self).spec_storage().processes().insert(old(self).pkey(exec_id.spec_bytes()), x)
                },
            },
    {
        let cur = match self.get_process(exec_id) {
            Ok(x) => x,
            Err(e) => return Err(e),
        };
        if cur.status != ProcessStatus::Starting {
            return Err(LifecycleError::InvalidState);
        }
        let current = cur.copy();
        let next = match outcome {
            Some((pid, jid)) => OciStatus { status: ProcessStatus::Running, pid, jid, ..cur },
            None => OciStatus { status: ProcessStatus::Stopped, ..cur },
        };
        self.swap_record(exec_id, Some(current), Some(next))
    }

    /// The pid to wait for.
    pub fn wait_target(&self, exec_id: &str) -> (r: Result<i32, LifecycleError>)
        requires
            self.wf(),
        ensures
            match self.record(exec_id.spec_bytes()) {
                Some(x) => r == Ok::<i32, LifecycleError>(x.pid),
                None => r == Err::<i32, LifecycleError>(LifecycleError::NotFound),
            },
    {
        match self.get_process(exec_id) {
            Ok(x) => Ok(x.pid),
            Err(e) => Err(e),
        }
    }

    /// Records that the process exited: `Stopped`, no pid, its exit code
    /// (if it exited normally) and when.
    pub fn do_wait(&mut self, exec_id: &str, exit_status: Option<i32>, exited_at: u64) -> (r: Result<
        (),
        LifecycleError,
    >)
        requires
            old(self).wf(),
        ensures
            final(self).wf(),
            exited(*old(self), *final(self), exec_id.spec_bytes(), exit_status, exited_at, r),
    {
        let cur = match self.get_process(exec_id) {
            Ok(x) => x,
            Err(e) => return Err(e),
        };
        let current = cur.copy();
        let next = OciStatus {
            status: ProcessStatus::Stopped,
            pid: 0,
            exit_status,
            exited_at,
            ..cur
        };
        self.swap_record(exec_id, Some(current), Some(next))
    }

    /// The pid to signal: only a `Running` process can be killed; the
    /// record is left as it is.
    pub fn do_kill(&self, exec_id: &str) -> (r: Result<i32, LifecycleError>)
        requires
            self.wf(),
        ensures
            match self.record(exec_id.spec_bytes()) {
                None => r == Err::<i32, LifecycleError>(LifecycleError::NotFound),
                Some(x) => if x.status == ProcessStatus::Running {
                    r == Ok::<i32, LifecycleError>(x.pid)
                } else {
                    r == Err::<i32, LifecycleError>(LifecycleError::InvalidState)
                },
            },
    {
        let cur = match self.get_process(exec_id) {
            Ok(x) => x,
            Err(e) => return Err(e),
        };
        if cur.status != ProcessStatus::Running {
            return Err(LifecycleError::InvalidState);
        }
        Ok(cur.pid)
    }

    /// The record of `exec_id` as observed: a `Running` record whose jail is
    /// gone reads as `Stopped`.
    pub fn get_state(&self, exec_id: &str, jail_running: bool) -> (r: Result<
        OciStatus,
        LifecycleError,
    >)
        requires
            self.wf(),
        ensures
            match self.record(exec_id.spec_bytes()) {
                None => r == Err::<OciStatus, LifecycleError>(LifecycleError::NotFound),
                Some(x) => r matches Ok(y) && with_status(
                    x,
                    y,
                    observed_status(x.status, jail_running),
                ),
            },
    {
        let cur = match self.get_process(exec_id) {
            Ok(x) => x,
            Err(e) => return Err(e),
        };
        if cur.status == ProcessStatus::Running && !jail_running {
            Ok(OciStatus { status: ProcessStatus::Stopped, ..cur })
        } else {
            Ok(cur)
        }
    }

    /// Removes the record of a `Stopped` or `Created` process and lists the
    /// container's mount points to release, last declared first.
    pub fn do_delete(&mut self, exec_id: &str, jail_running: bool) -> (r: Result<
        Vec<String>,
        LifecycleError,
    >)
        requires
            old(self).wf(),
        ensures
            final(self).wf(),
            deleted(*old(self), *final(self), exec_id.spec_bytes(), jail_running, r),
    {
        let cur = match self.get_state(exec_id, jail_running) {
            Ok(x) => x,
            Err(e) => return Err(e),
        };
        if cur.status != ProcessStatus::Stopped && cur.status != ProcessStatus::Created {
            return Err(LifecycleError::InvalidState);
        }
        let current = self.get_process(exec_id);
        let current = match current {
            Ok(x) => x,
            Err(e) => return Err(e),
        };
        let _ = self.swap_record(exec_id, Some(current), None);
        match self.storage.container_config.get(self.key.as_str().as_bytes()) {
            None => Err(LifecycleError::NotFound),
            Some(c) => match &c.root {
                None => Err(LifecycleError::MissingRoot),
                Some(root) => {
                    let empty: Vec<Mount> = Vec::new();
                    let ms = match &c.mounts {
                        Some(ms) => ms,
                        None => &empty,
                    };
                    Ok(unmount_targets(root.path.as_str(), ms))
                },
            },
        }
    }

    /// The pid of the container's main process, if it is `Running`.
    pub fn kill(&self) -> (r: Result<i32, LifecycleError>)
        requires
            self.wf(),
        ensures
            match self.record(Seq::empty()) {
                None => r == Err::<i32, LifecycleError>(LifecycleError::NotFound),
                Some(x) => if x.status == ProcessStatus::Running {
                    r == Ok::<i32, LifecycleError>(x.pid)
                } else {
                    r == Err::<i32, LifecycleError>(LifecycleError::InvalidState)
                },
            },
    {
        proof {
            reveal_strlit("");
        }
        assert(""@ =~= Seq::<char>::empty());
        assert(encode_utf8(Seq::<char>::empty()) =~= Seq::<u8>::empty());
        self.do_kill("")
    }

    /// The observed record of the container's main process.
    pub fn state(&self, jail_running: bool) -> (r: Result<OciStatus, LifecycleError>)
        requires
            self.wf(),
        ensures
            match self.record(Seq::empty()) {
                None => r == Err::<OciStatus, LifecycleError>(LifecycleError::NotFound),
                Some(x) => r matches Ok(y) && with_status(
                    x,
                    y,
                    observed_status(x.status, jail_running),
                ),
            },
    {
        proof {
            reveal_strlit("");
        }
        assert(""@ =~= Seq::<char>::empty());
        assert(encode_utf8(Seq::<char>::empty()) =~= Seq::<u8>::empty());
        self.get_state("", jail_running)
    }

    /// Records the exit of the container's main process.
    pub fn wait(&mut self, exit_status: Option<i32>, exited_at: u64) -> (r: Result<
        (),
        LifecycleError,
    >)
        requires
            old(self).wf(),
        ensures
            final(self).wf(),
            exited(*old(self), *final(self), Seq::empty(), exit_status, exited_at, r),
    {
        proof {
            reveal_strlit("");
        }
        assert(""@ =~= Seq::<char>::empty());
        assert(encode_utf8(Seq::<char>::empty()) =~= Seq::<u8>::empty());
        self.do_wait("", exit_status, exited_at)
    }

    /// The stored stdio triple of process `exec`.
    pub open spec fn stdio(&self, exec: Seq<u8>) -> Option<StdioTriple> {
        lookup(self.spec_storage().container_stdio.view(), self.pkey(exec))
    }

    /// The stored PTY `(master, slave)` of process `exec`.
    pub open spec fn pty(&self, exec: Seq<u8>) -> Option<(i32, i32)> {
        lookup(self.spec_storage().container_pty.view(), self.pkey(exec))
    }

    /// Remembers the stdio triple of `exec_id`.
    pub fn save_stdio_triple(&mut self, exec_id: &str, triple: StdioTriple)
        requires
            old(self).wf(),
        ensures
            final(self).wf(),
            final(self).spec_key() == old(self).spec_key(),
            final(self).spec_storage().processes() == old(self).spec_storage().processes(),
            final(self).spec_storage().configs() == old(self).spec_storage().configs(),
            final(self).spec_storage().container_pty == old(self).spec_storage().container_pty,
            final(self).spec_storage().container_stdio.view() == old(self).spec_storage().container_stdio.view().insert(old(self).pkey(exec_id.spec_bytes()), triple),
    {
        let k = self.process_id(exec_id);
        self.storage.container_stdio.insert(k.as_slice(), triple);
    }

    /// The stdio triple of `exec_id`.
    pub fn stdio_triple(&self, exec_id: &str) -> (r: Result<StdioTriple, LifecycleError>)
        requires
            self.wf(),
        ensures
            match self.stdio(exec_id.spec_bytes()) {
                Some(t) => r == Ok::<StdioTriple, LifecycleError>(t),
                None => r == Err::<StdioTriple, LifecycleError>(LifecycleError::NotFound),
            },
    {
        let k = self.process_id(exec_id);
        match self.storage.container_stdio.get(k.as_slice()) {
            Some(t) => Ok(t.copy()),
            None => Err(LifecycleError::NotFound),
        }
    }

    /// Remembers the PTY `(master, slave)` of `exec_id`.
    pub fn save_pty_state(&mut self, exec_id: &str, pty: (i32, i32))
        requires
            old(self).wf(),
        ensures
            final(self).wf(),
            final(self).spec_key() == old(self).spec_key(),
            final(self).spec_storage().processes() == old(self).spec_storage().processes(),
            final(self).spec_storage().configs() == old(self).spec_storage().configs(),
            final(self).spec_storage().container_stdio == old(self).spec_storage().container_stdio,
            final(self).spec_storage().container_pty.view() == old(self).spec_storage().container_pty.view().insert(old(self).pkey(exec_id.spec_bytes()), pty),
    {
        let k = self.process_id(exec_id);
        self.storage.container_pty.insert(k.as_slice(), pty);
    }

    /// The PTY `(master, slave)` of `exec_id`.
    pub fn pty_state(&self, exec_id: &str) -> (r: Result<(i32, i32), LifecycleError>)
        requires
            self.wf(),
        ensures
            match self.pty(exec_id.spec_bytes()) {
                Some(p) => r == Ok::<(i32, i32), LifecycleError>(p),
                None => r == Err::<(i32, i32), LifecycleError>(LifecycleError::NotFound),
            },
    {
        let k = self.process_id(exec_id);
        match self.storage.container_pty.get(k.as_slice()) {
            Some(p) => Ok(*p),
            None => Err(LifecycleError::NotFound),
        }
    }

    /// Deletes the container's main process.
    pub fn delete(&mut self, jail_running: bool) -> (r: Result<Vec<String>, LifecycleError>)
        requires
            old(self).wf(),
        ensures
            final(self).wf(),
            deleted(*old(self), *final(self), Seq::empty(), jail_running, r),
    {
        proof {
            reveal_strlit("");
        }
        assert(""@ =~= Seq::<char>::empty());
        assert(encode_utf8(Seq::<char>::empty()) =~= Seq::<u8>::empty());
        self.do_delete("", jail_running)
    }

    /// Registers a container from the runtime configuration of the bundle
    /// at `bundle`: refused if its main process exists or the configuration
    /// has no root. The root is placed under the bundle and the
    /// configuration stored; the result is that root.
    pub fn create(&mut self, bundle: &str, config: RuntimeConfig) -> (r: Result<String, LifecycleError>)
        requires
            old(self).wf(),
        ensures
            final(self).wf(),
            final(self).spec_key() == old(self).spec_key(),
            final(self).spec_storage().processes() == old(self).spec_storage().processes(),
            old(self).record(Seq::empty()) is Some ==> r == Err::<String, LifecycleError>(
                LifecycleError::AlreadyExists,
            ) && final(self).spec_storage() == old(self).spec_storage(),
            old(self).record(Seq::empty()) is None && config.root is None ==> r == Err::<
                String,
                LifecycleError,
            >(LifecycleError::MissingRoot) && final(self).spec_storage() == old(self).spec_storage(),
            old(self).record(Seq::empty()) is None && config.root is Some ==> {
                &&& r matches Ok(rootfs) && rootfs@ == prefixed(bundle@, config.root->0.path@)
                &&& final(self).config() matches Some(c) && c.root matches Some(root) && root.path@
                    == prefixed(bundle@, config.root->0.path@) && root.readonly is None
                    && c.oci_version == config.oci_version && c.mounts == config.mounts
                    && c.process == config.process && c.hooks == config.hooks && c.annotations
                    == config.annotations
                &&& final(self).spec_storage().configs() == old(self).spec_storage().configs().insert(
                    encode_utf8(old(self).spec_key()),
                    final(self).config()->0,
                )
            },
    {
        proof {
            reveal_strlit("");
        }
        assert(""@ =~= Seq::<char>::empty());
        assert(encode_utf8(Seq::<char>::empty()) =~= Seq::<u8>::empty());
        if self.get_process("").is_ok() {
            return Err(LifecycleError::AlreadyExists);
        }
        let path = match &config.root {
            Some(root) => prefixed_destination(bundle, root.path.as_str()),
            None => return Err(LifecycleError::MissingRoot),
        };
        let RuntimeConfig { oci_version, root: _, mounts, process, hooks, annotations } = config;
        let stored = RuntimeConfig {
            oci_version,
            root: Some(Root { path: path.clone(), readonly: None }),
            mounts,
            process,
            hooks,
            annotations,
        };
        let k = copy_bytes(self.key.as_str().as_bytes());
        self.storage.container_config.insert(k.as_slice(), stored);
        Ok(path)
    }
}

} // verus!

verus! {

/// Two launches of one process cannot both go ahead: the record a
/// successful launch leaves behind (`Starting`) refuses a second launch,
/// and so does every later state of it (`Running`, `Stopped`).
pub proof fn lemma_second_launch_refused(pre: OciOperations, post: OciOperations, exec: Seq<u8>)
    requires
        launched(pre, post, exec),
    ensures
        !admits_launch(post.record(exec)),
        forall|x: OciStatus| !admits_launch(Some(x)),
{
}

/// The lifecycle reports a process as `Running` only while the jail
/// named after its container is there.
pub proof fn lemma_running_implies_jail(s: ProcessStatus, jail_running: bool)
    ensures
        observed_status(s, jail_running) == ProcessStatus::Running ==> jail_running,
        !jail_running ==> observed_status(s, jail_running) != ProcessStatus::Running,
{
}

} // verus!
