//! The task-service side of the runtime: per-process stdio triples, the
//! choice of how a process's stdio is wired, and the service that hands
//! out lifecycle operations.
use vstd::prelude::*;
use vstd::string::StrSliceExecFns;

use crate::lifecycle::OciOperations;
use crate::storage::Storage;

verus! {

/// The stdio endpoints containerd gives a process, and whether it wants a
/// terminal.
pub struct StdioTriple {
    pub stdin: String,
    pub stdout: String,
    pub stderr: String,
    pub terminal: bool,
}

impl StdioTriple {
    /// A copy of the triple.
    pub fn copy(&self) -> (r: StdioTriple)
        ensures
            r == *self,
    {
        StdioTriple {
            stdin: self.stdin.clone(),
            stdout: self.stdout.clone(),
            stderr: self.stderr.clone(),
            terminal: self.terminal,
        }
    }
}

/// Where a process's standard output goes.
pub enum StdoutSink {
    /// A helper binary named by a `binary:` URL (its path), run with the
    /// URL's query pairs as environment and fed through its stdin; standard
    /// error goes there too.
    Binary { path: String, env: Vec<(String, String)> },
    /// A file or fifo.
    File(String),
}

/// How a process's stdio is to be wired before it is spawned.
pub enum IoSetup {
    /// A new PTY, bridged to the stdin and stdout fifos.
    Terminal { input: String, output: String },
    /// Endpoints handed to the process directly; no stdin when it is empty,
    /// no separate standard error when a helper binary takes both.
    Direct { stdin: Option<String>, stdout: StdoutSink, stderr: Option<String> },
}

/// The path and the decoded query pairs of a URL, as `url` reads it;
/// `None` when the text is not a URL.
pub uninterp spec fn url_target_of(s: Seq<char>) -> Option<(Seq<char>, Seq<(Seq<char>, Seq<char>)>)>;

pub open spec fn pairs_view(v: Seq<(String, String)>) -> Seq<(Seq<char>, Seq<char>)> {
    v.map_values(|p: (String, String)| (p.0@, p.1@))
}

/// Relies on `url::Url::parse`, `Url::path` and `Url::query_pairs`: the
/// path and the percent-decoded query pairs of a URL, or an error for text
/// that is not one. The result depends on the text alone.
#[verifier::external_body]
fn url_target(s: &str) -> (r: Option<(String, Vec<(String, String)>)>)
    ensures
        match r {
            Some((p, q)) => url_target_of(s@) == Some((p@, pairs_view(q@))),
            None => url_target_of(s@) is None,
        },
{
    let u = url::Url::parse(s).ok()?;
    let q = u.query_pairs().map(|(k, v)| (k.into_owned(), v.into_owned())).collect();
    Some((u.path().to_string(), q))
}

/// The stdout endpoint is not a URL although it starts with `binary:`.
#[derive(Debug, PartialEq, Eq, Clone, Copy, Structural)]
pub enum IoError {
    InvalidUrl,
}

pub open spec fn binary_prefix() -> Seq<char> {
    "binary:"@
}

pub open spec fn is_binary_url(s: Seq<char>) -> bool {
    s.len() >= 7 && s.take(7) == binary_prefix()
}

fn starts_with_binary(s: &str) -> (r: bool)
    ensures
        r == is_binary_url(s@),
{
    let p = "binary:";
    proof {
        reveal_strlit("binary:");
    }
    assert(p@.len() == 7);
    if s.unicode_len() < 7 {
        return false;
    }
    let mut i: usize = 0;
    while i < 7
        invariant
            i <= 7,
            s@.len() >= 7,
            p@ == binary_prefix(),
            p@.len() == 7,
            forall|j: int| 0 <= j < i ==> s@[j] == p@[j],
        decreases 7 - i,
    {
        if s.get_char(i) != p.get_char(i) {
            assert(s@.take(7)[i as int] != binary_prefix()[i as int]);
            return false;
        }
        i = i + 1;
    }
    assert(s@.take(7) =~= binary_prefix());
    true
}

/// Decides the stdio wiring of a process from its triple.
pub fn io_setup(triple: &StdioTriple) -> (r: Result<IoSetup, IoError>)
    ensures
        triple.terminal ==> (r matches Ok(IoSetup::Terminal { input, output }) && input@
            == triple.stdin@ && output@ == triple.stdout@),
        !triple.terminal && is_binary_url(triple.stdout@) ==> match url_target_of(
            triple.stdout@,
        ) {
            None => r == Err::<IoSetup, IoError>(IoError::InvalidUrl),
            Some((p, q)) => r matches Ok(IoSetup::Direct { stdin, stdout, stderr }) && stdin_matches(
                stdin,
                triple.stdin@,
            ) && stderr is None && (stdout matches StdoutSink::Binary { path, env } && path@ == p
                && pairs_view(env@) == q),
        },
        !triple.terminal && !is_binary_url(triple.stdout@) ==> (r matches Ok(
            IoSetup::Direct { stdin, stdout, stderr },
        ) && stdin_matches(stdin, triple.stdin@) && (stdout matches StdoutSink::File(f) && f@
            == triple.stdout@) && (stderr matches Some(e) && e@ == triple.stderr@)),
{
    if triple.terminal {
        return Ok(IoSetup::Terminal { input: triple.stdin.clone(), output: triple.stdout.clone() });
    }
    let stdin = if triple.stdin.as_str().unicode_len() > 0 {
        Some(triple.stdin.clone())
    } else {
        None
    };
    if starts_with_binary(triple.stdout.as_str()) {
        match url_target(triple.stdout.as_str()) {
            Some((path, env)) => Ok(
                IoSetup::Direct { stdin, stdout: StdoutSink::Binary { path, env }, stderr: None },
            ),
            None => Err(IoError::InvalidUrl),
        }
    } else {
        Ok(
            IoSetup::Direct {
                stdin,
                stdout: StdoutSink::File(triple.stdout.clone()),
                stderr: Some(triple.stderr.clone()),
            },
        )
    }
}

/// The process's stdin is the given endpoint, or none when it is empty.
pub open spec fn stdin_matches(stdin: Option<String>, given: Seq<char>) -> bool {
    match stdin {
        Some(i) => given.len() > 0 && i@ == given,
        None => given.len() == 0,
    }
}

/// The task service: the store and the NAT interface new containers use.
pub struct TaskService {
    storage: Storage,
    nat_interface: String,
}

impl TaskService {
    pub closed spec fn spec_storage(&self) -> Storage {
        self.storage
    }

    pub closed spec fn spec_nat_interface(&self) -> Seq<char> {
        self.nat_interface@
    }

    pub fn new(storage: Storage, nat_interface: String) -> (r: TaskService)
        ensures
            r.spec_storage() == storage,
            r.spec_nat_interface() == nat_interface@,
    {
        TaskService { storage, nat_interface }
    }

    pub fn nat_interface(&self) -> (r: &String)
        ensures
            r@ == self.spec_nat_interface(),
    {
        &self.nat_interface
    }

    /// The lifecycle operations of container `id`, over the service's store.
    pub fn operations(self, id: &str) -> (r: OciOperations)
        ensures
            r.spec_storage() == self.spec_storage(),
            r.spec_key() == id@,
    {
        OciOperations::new(self.storage, id)
    }
}

} // verus!
