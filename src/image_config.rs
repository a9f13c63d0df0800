//! The image configuration served by a registry: the container's static
//! definition (user, environment, entrypoint, command, working directory).
use vstd::prelude::*;

verus! {

/// An image configuration document.
pub struct Config {
    pub author: Option<String>,
    pub architecture: String,
    pub os: String,
    pub config: Option<Container>,
    pub rootfs: RootFs,
}

/// The `config` section of an image configuration.
pub struct Container {
    pub user: Option<String>,
    pub exposed_ports: Option<Vec<String>>,
    pub env: Option<Vec<String>>,
    pub entrypoint: Option<Vec<String>>,
    pub cmd: Option<Vec<String>>,
    pub volumes: Option<Vec<String>>,
    pub working_dir: String,
    pub labels: Option<Vec<(String, String)>>,
    pub stop_signal: Option<String>,
}

/// The layer chain of an image, by uncompressed digest.
pub struct RootFs {
    pub kind: String,
    pub diff_ids: Vec<String>,
}

/// The character sequences of a list of strings.
pub open spec fn strs(v: Seq<String>) -> Seq<Seq<char>> {
    v.map_values(|s: String| s@)
}

pub open spec fn opt_strs(v: Option<Vec<String>>) -> Seq<Seq<char>> {
    match v {
        Some(v) => strs(v@),
        None => seq![],
    }
}

/// A copy of a list of strings.
pub fn copy_strings(v: &Vec<String>) -> (r: Vec<String>)
    ensures
        strs(r@) == strs(v@),
{
    let mut r: Vec<String> = Vec::new();
    let mut i: usize = 0;
    while i < v.len()
        invariant
            i <= v@.len(),
            strs(r@) == strs(v@).take(i as int),
        decreases v@.len() - i,
    {
        let c = v[i].clone();
        let ghost r0 = r@;
        r.push(c);
        assert(strs(r@) =~= strs(r0).push(v@[i as int]@));
        assert(strs(v@).take(i as int + 1) =~= strs(v@).take(i as int).push(v@[i as int]@));
        i = i + 1;
    }
    assert(strs(v@).take(i as int) =~= strs(v@));
    r
}

/// Appends a copy of `b` to `a`.
pub fn append_strings(a: &mut Vec<String>, b: &Vec<String>)
    ensures
        strs(final(a)@) == strs(old(a)@) + strs(b@),
{
    let ghost a0 = strs(a@);
    let mut i: usize = 0;
    while i < b.len()
        invariant
            i <= b@.len(),
            strs(a@) == a0 + strs(b@).take(i as int),
        decreases b@.len() - i,
    {
        let c = b[i].clone();
        let ghost r0 = a@;
        a.push(c);
        assert(strs(a@) =~= strs(r0).push(b@[i as int]@));
        assert(strs(b@).take(i as int + 1) =~= strs(b@).take(i as int).push(b@[i as int]@));
        assert(strs(a@) =~= a0 + strs(b@).take(i as int + 1));
        i = i + 1;
    }
    assert(strs(b@).take(i as int) =~= strs(b@));
}

} // verus!
