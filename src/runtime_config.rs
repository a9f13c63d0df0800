//! The OCI runtime configuration written into a bundle as `config.json`,
//! and its derivation from an image configuration.
use vstd::prelude::*;
use vstd::string::StrSliceExecFns;
use vstd::string::StringExecFns;
use vstd::string::StringSliceAdditionalSpecFns;
use vstd::utf8::encode_utf8;

use crate::image_config::{append_strings, copy_strings, opt_strs, strs, Config, Container};
use crate::user::{group_entries, parse, passwd_entries, resolve_user, UserError};

verus! {

/// An OCI runtime configuration.
pub struct RuntimeConfig {
    pub oci_version: String,
    pub root: Option<Root>,
    pub mounts: Option<Vec<Mount>>,
    pub process: Option<Process>,
    pub hooks: Option<Hooks>,
    pub annotations: Option<Vec<(String, String)>>,
}

/// The container's root filesystem.
pub struct Root {
    pub path: String,
    pub readonly: Option<bool>,
}

/// A filesystem to mount into the container.
pub struct Mount {
    pub destination: String,
    pub source: Option<String>,
    pub options: Option<Vec<String>>,
    pub kind: Option<String>,
}

/// The container's initial process.
pub struct Process {
    pub terminal: Option<bool>,
    pub console_size: Option<ConsoleSize>,
    pub cwd: String,
    pub env: Option<Vec<String>>,
    pub args: Option<Vec<String>>,
    pub rlimits: Option<Vec<Rlimit>>,
    pub user: User,
    pub hostname: Option<String>,
}

pub struct ConsoleSize {
    pub height: u32,
    pub width: u32,
}

pub struct Rlimit {
    pub kind: String,
    pub soft: u32,
    pub hard: u32,
}

/// The identity the process runs under.
pub struct User {
    pub uid: u32,
    pub gid: u32,
    pub umask: Option<u32>,
    pub additional_gids: Option<Vec<u32>>,
}

pub struct Hooks {
    pub prestart: Option<Vec<Hook>>,
    pub create_runtime: Option<Vec<Hook>>,
    pub create_container: Option<Vec<Hook>>,
    pub start_container: Option<Vec<Hook>>,
    pub poststart: Option<Vec<Hook>>,
    pub poststop: Option<Vec<Hook>>,
}

pub struct Hook {
    pub path: String,
    pub args: Option<Vec<String>>,
    pub env: Option<Vec<String>>,
    pub timeout: Option<u32>,
}

/// The annotations every generated configuration carries: the managing
/// tool and the stop signal (SIGTERM).
pub open spec fn default_annotations() -> Seq<(Seq<char>, Seq<char>)> {
    seq![
        ("io.container.manager"@, "werft"@),
        ("org.opencontainers.image.stopSignal"@, "15"@),
    ]
}

pub open spec fn pairs_view(v: Seq<(String, String)>) -> Seq<(Seq<char>, Seq<char>)> {
    v.map_values(|p: (String, String)| (p.0@, p.1@))
}

pub fn generate_annotations() -> (r: Vec<(String, String)>)
    ensures
        pairs_view(r@) == default_annotations(),
{
    let mut r: Vec<(String, String)> = Vec::new();
    r.push((String::from_str("io.container.manager"), String::from_str("werft")));
    r.push(
        (String::from_str("org.opencontainers.image.stopSignal"), String::from_str("15")),
    );
    assert(pairs_view(r@) =~= default_annotations());
    r
}

/// What an image's user string resolves to: `(0, 0)` when it is absent or
/// empty.
pub open spec fn image_user(
    user: Option<Seq<char>>,
    passwd: Seq<u8>,
    group: Seq<u8>,
) -> Option<(u32, u32)> {
    match user {
        Some(u) => if u.len() > 0 {
            resolve_user(encode_utf8(u), passwd_entries(passwd), group_entries(group))
        } else {
            Some((0, 0))
        },
        None => Some((0, 0)),
    }
}

pub open spec fn opt_chars(user: Option<String>) -> Option<Seq<char>> {
    match user {
        Some(u) => Some(u@),
        None => None,
    }
}

impl User {
    /// The process identity for an image's user string; `passwd` and
    /// `group` are the contents of the root filesystem's `/etc/passwd` and
    /// `/etc/group`.
    pub fn from_image(user: &Option<String>, passwd: &[u8], group: &[u8]) -> (r: Result<
        User,
        UserError,
    >)
        ensures
            match image_user(opt_chars(*user), passwd@, group@) {
                Some(p) => r matches Ok(u) && u.uid == p.0 && u.gid == p.1 && u.umask is None
                    && u.additional_gids is None,
                None => r == Err::<User, UserError>(UserError::Unresolved),
            },
    {
        let (uid, gid) = match user {
            Some(u) => {
                let s = u.as_str();
                assert(s.spec_bytes() == encode_utf8(u@));
                if !s.is_empty() {
                    match parse(s, passwd, group) {
                        Ok(p) => {
                            p
                        },
                        Err(e) => return Err(e),
                    }
                } else {
                    (0, 0)
                }
            },
            None => (0, 0),
        };
        Ok(User { uid, gid, umask: None, additional_gids: None })
    }
}

impl Process {
    /// The initial process of an image: its working directory and
    /// environment, `entrypoint ++ cmd` as arguments, and its resolved user.
    pub fn from_image(config: &Container, passwd: &[u8], group: &[u8]) -> (r: Result<
        Process,
        UserError,
    >)
        ensures
            match image_user(opt_chars(config.user), passwd@, group@) {
                Some(p) => r matches Ok(pr) && pr.user.uid == p.0 && pr.user.gid == p.1
                    && pr.cwd@ == config.working_dir@ && opt_strs(pr.env) == opt_strs(config.env)
                    && (pr.env is Some <==> config.env is Some) && pr.args is Some
                    && opt_strs(pr.args) == opt_strs(config.entrypoint) + opt_strs(config.cmd)
                    && pr.terminal is None && pr.hostname is None,
                None => r == Err::<Process, UserError>(UserError::Unresolved),
            },
    {
        let user = match User::from_image(&config.user, passwd, group) {
            Ok(u) => u,
            Err(e) => return Err(e),
        };
        let mut args: Vec<String> = Vec::new();
        match &config.entrypoint {
            Some(e) => append_strings(&mut args, e),
            None => {},
        }
        assert(strs(args@) =~= opt_strs(config.entrypoint));
        match &config.cmd {
            Some(c) => append_strings(&mut args, c),
            None => {
                assert(strs(args@) =~= strs(args@) + opt_strs(config.cmd));
            },
        }
        let env = match &config.env {
            Some(e) => Some(copy_strings(e)),
            None => None,
        };
        Ok(
            Process {
                terminal: None,
                console_size: None,
                cwd: config.working_dir.clone(),
                env,
                args: Some(args),
                rlimits: None,
                user,
                hostname: None,
            },
        )
    }
}

impl Root {
    /// A writable root at `rootfs`.
    pub fn from_rootfs(rootfs: &str) -> (r: Root)
        ensures
            r.path@ == rootfs@,
            r.readonly == Some(false),
    {
        Root { path: String::from_str(rootfs), readonly: Some(false) }
    }
}

impl RuntimeConfig {
    /// The runtime configuration for an image unpacked at `rootfs`.
    pub fn from_image(config: &Config, rootfs: &str, passwd: &[u8], group: &[u8]) -> (r: Result<
        RuntimeConfig,
        UserError,
    >)
        ensures
            match config.config {
                Some(c) => match image_user(opt_chars(c.user), passwd@, group@) {
                    Some(_) => r matches Ok(rc) && rc.process is Some,
                    None => r == Err::<RuntimeConfig, UserError>(UserError::Unresolved),
                },
                None => r matches Ok(rc) && rc.process is None,
            },
            r matches Ok(rc) ==> {
                &&& rc.oci_version@ == "1.0"@
                &&& rc.root matches Some(root) && root.path@ == rootfs@ && root.readonly == Some(false)
                &&& rc.mounts is None
                &&& rc.hooks is None
                &&& rc.annotations matches Some(a) && pairs_view(a@) == default_annotations()
                &&& (config.config matches Some(c) ==> rc.process matches Some(p) && p.cwd@
                    == c.working_dir@ && opt_strs(p.args) == opt_strs(c.entrypoint) + opt_strs(
                    c.cmd) && opt_strs(p.env) == opt_strs(c.env) && image_user(
                    opt_chars(c.user),
                    passwd@,
                    group@,
                ) == Some((p.user.uid, p.user.gid)))
            },
    {
        let annotations = generate_annotations();
        let process = match &config.config {
            Some(c) => match Process::from_image(c, passwd, group) {
                Ok(p) => Some(p),
                Err(e) => return Err(e),
            },
            None => None,
        };
        Ok(
            RuntimeConfig {
                oci_version: String::from_str("1.0"),
                root: Some(Root::from_rootfs(rootfs)),
                mounts: None,
                process,
                hooks: None,
                annotations: Some(annotations),
            },
        )
    }
}

} // verus!
